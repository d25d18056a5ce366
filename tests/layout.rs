use quirky_view::layout::{layout_outcome, LayoutError};

#[test]
fn failing_engine_keeps_its_error_text() {
    let r = layout_outcome(false, String::new(), "bad input".to_string());
    match r {
        Err(e) => {
            assert!(matches!(e, LayoutError::Exited { .. }));
            assert!(e.message().contains("bad input"));
            assert_eq!(e.message(), "the layout engine failed: bad input");
        }
        Ok(_) => panic!("a failure status must give an error"),
    }
}

#[test]
fn successful_engine_gives_its_output() {
    let r = layout_outcome(true, "<svg/>".to_string(), "warning".to_string());
    assert_eq!(r.ok(), Some("<svg/>".to_string()));
}

#[test]
fn spawn_failure_message() {
    let e = LayoutError::Spawn { reason: "not found".to_string() };
    assert_eq!(e.message(), "could not run the layout engine: not found");
}
