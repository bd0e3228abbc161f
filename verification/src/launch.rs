//! The decisions of the start-up guard for Wayland sessions on Linux: the
//! program is first started as a child process on the Wayland display; if
//! that child crashes within a few seconds (a failed display start), it is
//! started once more on the X11 backend.
use vstd::prelude::*;

verus! {

/// A child that ran at least this many seconds did not fail to start its
/// display, whatever its exit status.
pub const QUICK_CRASH_SECS: u64 = 3;

/// Whether this process starts the program under the guard: on a Wayland
/// session (`WAYLAND_DISPLAY` set), when the user has not chosen a backend
/// (`GDK_BACKEND` unset), and when this process is not itself a guarded
/// child (`_STARPLAYER_LAUNCHED` unset).
pub fn wayland_guard_applies(wayland_display: bool, gdk_backend: bool, already_launched: bool) -> (r:
    bool)
    ensures
        r == (wayland_display && !gdk_backend && !already_launched),
{
    wayland_display && !gdk_backend && !already_launched
}

/// What the guard does once its first child has ended.
#[derive(Debug, Clone, Copy, PartialEq, Eq, Structural)]
pub enum GuardAction {
    /// Exit with this code.
    Exit(i32),
    /// Start the child once more, on the X11 backend.
    RetryWithX11,
}

/// What the guard does after its first child ended: `status` is `None` when
/// the child could not be started, else whether it succeeded and its exit
/// code (`None` when a signal ended it); `elapsed_secs` is how long it ran.
/// A child that succeeded, or ran at least [`QUICK_CRASH_SECS`] seconds,
/// ends the guard with the child's code (0 when it has none); any other
/// outcome is a failed display start, and the child is started again on X11.
pub fn after_first_launch(status: Option<(bool, Option<i32>)>, elapsed_secs: u64) -> (r:
    GuardAction)
    ensures
        match status {
            Some((success, code)) => if success || elapsed_secs >= QUICK_CRASH_SECS {
                r == GuardAction::Exit(
                    match code {
                        Some(c) => c,
                        None => 0,
                    },
                )
            } else {
                r == GuardAction::RetryWithX11
            },
            None => r == GuardAction::RetryWithX11,
        },
{
    match status {
        Some((success, code)) => {
            if success || elapsed_secs >= QUICK_CRASH_SECS {
                GuardAction::Exit(
                    match code {
                        Some(c) => c,
                        None => 0,
                    },
                )
            } else {
                GuardAction::RetryWithX11
            }
        },
        None => GuardAction::RetryWithX11,
    }
}

/// The code the guard exits with after the X11 attempt: the child's code;
/// 1 when a signal ended it or it could not be started.
pub fn retry_exit_code(status: Option<Option<i32>>) -> (r: i32)
    ensures
        r == match status {
            Some(Some(c)) => c,
            _ => 1i32,
        },
{
    match status {
        Some(Some(c)) => c,
        _ => 1,
    }
}

} // verus!
