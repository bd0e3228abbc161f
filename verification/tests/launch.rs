use starplayer::launch::{after_first_launch, retry_exit_code, wayland_guard_applies, GuardAction};

#[test]
fn guard_applies_only_on_plain_wayland_first_start() {
    assert!(wayland_guard_applies(true, false, false));
    assert!(!wayland_guard_applies(false, false, false));
    assert!(!wayland_guard_applies(true, true, false));
    assert!(!wayland_guard_applies(true, false, true));
}

#[test]
fn quick_crash_is_retried_on_x11() {
    assert_eq!(after_first_launch(Some((false, Some(1))), 0), GuardAction::RetryWithX11);
    assert_eq!(after_first_launch(Some((false, None)), 2), GuardAction::RetryWithX11);
    assert_eq!(after_first_launch(None, 10), GuardAction::RetryWithX11);
}

#[test]
fn success_or_long_run_exits_with_child_code() {
    assert_eq!(after_first_launch(Some((true, Some(0))), 0), GuardAction::Exit(0));
    assert_eq!(after_first_launch(Some((false, Some(7))), 3), GuardAction::Exit(7));
    assert_eq!(after_first_launch(Some((false, None)), 100), GuardAction::Exit(0));
}

#[test]
fn retry_exit_code_defaults_to_one() {
    assert_eq!(retry_exit_code(Some(Some(4))), 4);
    assert_eq!(retry_exit_code(Some(None)), 1);
    assert_eq!(retry_exit_code(None), 1);
}
