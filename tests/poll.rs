use quirky_view::poll::{start, step, PollAction, PollEvent, PollPhase};

#[test]
fn full_session_in_order() {
    let (mut p, a) = start();
    assert_eq!((p, a), (PollPhase::Connecting, PollAction::Connect));
    let expected = [
        PollAction::FetchGraph,
        PollAction::FetchStatuses,
        PollAction::Render,
        PollAction::Deliver,
        PollAction::WaitInterval,
        PollAction::FetchStatuses,
    ];
    for want in expected {
        let (q, a) = step(p, PollEvent::Succeeded);
        assert_eq!(a, want);
        p = q;
    }
    let (q, a) = step(p, PollEvent::Cancelled);
    assert_eq!((q, a), (PollPhase::Disconnecting, PollAction::Disconnect));
    let (q, a) = step(q, PollEvent::Succeeded);
    assert_eq!((q, a), (PollPhase::GracePeriod, PollAction::WaitGrace));
    let (q, a) = step(q, PollEvent::Succeeded);
    assert_eq!((q, a), (PollPhase::Stopped, PollAction::Finish));
    assert!(q.is_terminal());
}

#[test]
fn cancel_during_interval_goes_to_disconnect() {
    let (q, a) = step(PollPhase::Waiting, PollEvent::Cancelled);
    assert_eq!(q, PollPhase::Disconnecting);
    assert_eq!(a, PollAction::Disconnect);
    assert!(!q.observes_cancellation());
}

#[test]
fn errors_fail_the_loop() {
    for p in [
        PollPhase::Connecting,
        PollPhase::FetchingGraph,
        PollPhase::FetchingStatuses,
        PollPhase::Rendering,
        PollPhase::Delivering,
        PollPhase::Disconnecting,
    ] {
        let (q, a) = step(p, PollEvent::Errored);
        assert_eq!((q, a), (PollPhase::Failed, PollAction::Abort));
        assert!(q.is_terminal());
    }
}

#[test]
fn only_cycle_phases_race_cancellation() {
    assert!(PollPhase::Waiting.observes_cancellation());
    assert!(PollPhase::Rendering.observes_cancellation());
    assert!(!PollPhase::Connecting.observes_cancellation());
    assert!(!PollPhase::GracePeriod.observes_cancellation());
}
