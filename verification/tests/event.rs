//! Classification of single poll results.

use nblistener::event::{step, Action, PollEvent, CLOSED_CODE_POSIX, CLOSED_CODE_WINDOWS};

#[test]
fn ready_connection_is_dispatched() {
    assert_eq!(step(PollEvent::Ready(1), CLOSED_CODE_POSIX), Action::Dispatch);
}

#[test]
fn would_block_is_slept_through() {
    assert_eq!(step(PollEvent::WouldBlock, CLOSED_CODE_POSIX), Action::Sleep);
}

#[test]
fn sentinel_finishes_cleanly() {
    assert_eq!(
        step(PollEvent::FailedOs(CLOSED_CODE_POSIX), CLOSED_CODE_POSIX),
        Action::Finish
    );
    assert_eq!(
        step(PollEvent::FailedOs(CLOSED_CODE_WINDOWS), CLOSED_CODE_WINDOWS),
        Action::Finish
    );
}

#[test]
fn other_errors_fail() {
    // 13 is EACCES on Linux: a genuine failure, propagated.
    assert_eq!(step(PollEvent::FailedOs(13), CLOSED_CODE_POSIX), Action::Fail);
    assert_eq!(step(PollEvent::FailedOther, CLOSED_CODE_POSIX), Action::Fail);
}
