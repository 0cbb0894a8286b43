use tidysync::watcher::{
    supervise, StatusChange, StatusHandle, SupervisorAction, SupervisorEvent, SupervisorState,
    WatchState, RESTART_DELAY_SECS,
};

#[test]
fn status_starts_paused_and_counts_changes() {
    let mut h = StatusHandle::new();
    let s = h.get();
    assert_eq!(s.state, WatchState::Paused);
    assert_eq!((s.moved, s.generation), (0, 0));
    assert!(s.last_error.is_none());

    h.set_failed("boom".to_string());
    let s = h.get();
    assert_eq!(s.state, WatchState::Failed);
    assert_eq!(s.last_error.as_deref(), Some("boom"));
    assert_eq!(s.generation, 1);

    h.set_state(WatchState::Scanning);
    let s = h.get();
    assert_eq!(s.state, WatchState::Scanning);
    assert!(s.last_error.is_none());
    assert_eq!(s.generation, 2);

    h.record_moves(0);
    assert_eq!(h.get().generation, 2);
    h.record_moves(3);
    h.apply(StatusChange::Moved(2));
    assert_eq!((h.get().moved, h.get().generation), (5, 4));
    h.apply(StatusChange::Keep);
    assert_eq!(h.get().generation, 4);
    h.apply(StatusChange::Fail("x".to_string()));
    h.apply(StatusChange::Enter(WatchState::Failed));
    assert_eq!(h.get().last_error.as_deref(), Some("x"));
    assert_eq!(h.get().generation, 6);
}

#[test]
fn labels() {
    assert_eq!(WatchState::Paused.label(), "Paused");
    assert_eq!(WatchState::Scanning.label(), "Scanning");
    assert_eq!(WatchState::Watching.label(), "Watching");
    assert_eq!(WatchState::Failed.label(), "Failed");
}

#[test]
fn supervisor_pauses_resumes_and_retries() {
    let (state, action, change) = supervise(SupervisorState::Idle, SupervisorEvent::Check { enabled: false });
    assert_eq!((state, &action), (SupervisorState::Waiting, &SupervisorAction::WaitForEnable));
    assert!(matches!(change, StatusChange::Enter(WatchState::Paused)));

    let (state, action, _) = supervise(state, SupervisorEvent::WaitEnded { closed: false });
    assert_eq!((state, &action), (SupervisorState::Running, &SupervisorAction::RunSession));

    let (state, action, change) = supervise(
        state,
        SupervisorEvent::SessionEnded { result: Err("down".to_string()), closed: false, enabled: true },
    );
    assert_eq!(state, SupervisorState::BackingOff);
    assert_eq!(action, SupervisorAction::Backoff { seconds: RESTART_DELAY_SECS });
    assert!(matches!(change, StatusChange::Fail(ref m) if m == "down"));

    let (state, action, _) = supervise(state, SupervisorEvent::BackoffEnded { closed: false, enabled: true });
    assert_eq!((state, &action), (SupervisorState::Running, &SupervisorAction::RunSession));

    // Switched off: the session returns and the supervisor pauses.
    let (state, action, _) = supervise(
        state,
        SupervisorEvent::SessionEnded { result: Ok(()), closed: false, enabled: false },
    );
    assert_eq!((state, &action), (SupervisorState::Waiting, &SupervisorAction::WaitForEnable));

    // Dropped: it exits, and stays stopped.
    let (state, action, _) = supervise(state, SupervisorEvent::WaitEnded { closed: true });
    assert_eq!((state, &action), (SupervisorState::Done, &SupervisorAction::Exit));
    let (state, action, _) = supervise(state, SupervisorEvent::Check { enabled: true });
    assert_eq!((state, &action), (SupervisorState::Done, &SupervisorAction::Exit));
}
