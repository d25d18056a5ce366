use quirky_view::mailbox::{Mailbox, Received};

#[test]
fn second_put_waits_for_a_drain() {
    let mut m = Mailbox::new();
    assert_eq!(m.put(1u32), Ok(()));
    assert!(m.is_full());
    assert_eq!(m.put(2u32), Err(2));
    assert!(matches!(m.try_take(), Received::Item(1)));
    assert_eq!(m.put(2u32), Ok(()));
    assert!(matches!(m.try_take(), Received::Item(2)));
}

#[test]
fn open_and_empty_gives_empty() {
    let mut m: Mailbox<String> = Mailbox::new();
    assert!(matches!(m.try_take(), Received::Empty));
    assert!(!m.is_closed());
}

#[test]
fn closed_after_draining_forever() {
    let mut m = Mailbox::new();
    assert_eq!(m.put("svg".to_string()), Ok(()));
    m.close();
    assert!(m.is_closed());
    match m.try_take() {
        Received::Item(s) => assert_eq!(s, "svg"),
        _ => panic!("the waiting item must come first"),
    }
    for _ in 0..5 {
        assert!(matches!(m.try_take(), Received::Closed));
    }
    assert_eq!(m.put("late".to_string()), Err("late".to_string()));
}
