use quirky_view::viewer::{close_deadline, frame_action, FrameAction, CLOSE_DELAY_MS};

#[test]
fn deadline_is_set_once() {
    let at = close_deadline(None, 1000);
    assert_eq!(at, 61000);
    assert_eq!(close_deadline(Some(at), 5000), 61000);
    assert_eq!(CLOSE_DELAY_MS, 60000);
}

#[test]
fn frames_before_and_after_the_deadline() {
    assert_eq!(frame_action(None, 10), FrameAction::Idle);
    assert_eq!(frame_action(Some(61000), 1000), FrameAction::RepaintAfter { ms: 60000 });
    assert_eq!(frame_action(Some(61000), 61000), FrameAction::RepaintAfter { ms: 0 });
    assert_eq!(frame_action(Some(61000), 61001), FrameAction::Close);
}
