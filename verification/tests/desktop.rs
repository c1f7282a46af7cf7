use asciicut::desktop::{AppState, ConfirmQuitPayload, ExportState, QuitDecision, QuitTarget};

#[test]
fn app_state_dirty_flag_lifecycle_in_the_guard() {
    let mut state = AppState::new();
    assert!(!state.is_dirty());
    state.set_dirty(true);
    assert!(state.is_dirty());
    state.set_dirty(false);
    assert!(!state.is_dirty());
}

#[test]
fn quit_guard_claims_once_until_cancelled() {
    let mut state = AppState::new();
    state.set_dirty(true);
    assert!(state.claim_quit_guard(QuitTarget::Close));
    assert!(!state.claim_quit_guard(QuitTarget::Quit));
    state.cancel_quit();
    assert!(state.claim_quit_guard(QuitTarget::Quit));
    assert_eq!(state.confirm_quit(), Some(QuitTarget::Quit));
    assert!(!state.is_dirty());
    assert_eq!(state.confirm_quit(), None);
}

#[test]
fn request_quit_decisions() {
    let mut state = AppState::new();
    assert_eq!(state.request_quit(), QuitDecision::ExitNow);
    state.set_dirty(true);
    assert_eq!(
        state.request_quit(),
        QuitDecision::Ask(ConfirmQuitPayload { target: QuitTarget::Quit })
    );
    assert_eq!(state.request_quit(), QuitDecision::AlreadyAsking);
}

#[test]
fn close_guard_holds_back_dirty_windows() {
    let mut state = AppState::new();
    assert_eq!(state.guard_dirty(QuitTarget::Close), (false, None));
    state.set_dirty(true);
    assert_eq!(
        state.guard_dirty(QuitTarget::Close),
        (true, Some(ConfirmQuitPayload { target: QuitTarget::Close }))
    );
    assert_eq!(state.guard_dirty(QuitTarget::Close), (true, None));
}

#[test]
fn export_state_cancel_takes_the_child() {
    let mut state: ExportState<u32> = ExportState::new();
    assert!(!state.is_cancelled());
    state.track(42);
    assert_eq!(state.cancel(), Some(42));
    assert!(state.is_cancelled());
    assert_eq!(state.cancel(), None);
    state.begin();
    assert!(!state.is_cancelled());
    state.track(1);
    state.untrack();
    assert_eq!(state.cancel(), None);
}
