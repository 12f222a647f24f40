//! Runs of the dispatch loop over concrete poll scripts.

use nblistener::dispatch::{run_dispatch, Outcome};
use nblistener::event::{PollEvent, CLOSED_CODE_POSIX, CLOSED_CODE_WINDOWS};

#[test]
fn sentinel_codes_match_the_platforms() {
    assert_eq!(CLOSED_CODE_POSIX, 9);
    assert_eq!(CLOSED_CODE_WINDOWS, 10038);
}

#[test]
fn pre_close_returns_at_once() {
    // Close called before the loop starts: the first poll already reports
    // the sentinel, and nothing else of the script is examined.
    let events = vec![
        PollEvent::FailedOs(CLOSED_CODE_POSIX),
        PollEvent::Ready(1),
        PollEvent::WouldBlock,
    ];
    let r = run_dispatch(&events, CLOSED_CODE_POSIX);
    assert_eq!(r.outcome, Outcome::Cancelled);
    assert_eq!(r.polls, 1);
    assert_eq!(r.sleeps, 0);
    assert_eq!(r.dispatched, Vec::<u64>::new());
}

#[test]
fn cancelled_during_idle_polls() {
    // The loop sleeps through five empty polls, then the close takes effect:
    // clean termination, no connection ever dispatched.
    let mut events = vec![PollEvent::WouldBlock; 5];
    events.push(PollEvent::FailedOs(CLOSED_CODE_POSIX));
    let r = run_dispatch(&events, CLOSED_CODE_POSIX);
    assert_eq!(r.outcome, Outcome::Cancelled);
    assert_eq!(r.polls, 6);
    assert_eq!(r.sleeps, 5);
    assert_eq!(r.dispatched, Vec::<u64>::new());
}

#[test]
fn one_connection_then_cancel() {
    // One client connects; the loop dispatches it and keeps polling until
    // cancelled from outside.
    let events = vec![
        PollEvent::WouldBlock,
        PollEvent::Ready(7),
        PollEvent::WouldBlock,
        PollEvent::FailedOs(CLOSED_CODE_POSIX),
    ];
    let r = run_dispatch(&events, CLOSED_CODE_POSIX);
    assert_eq!(r.outcome, Outcome::Cancelled);
    assert_eq!(r.polls, 4);
    assert_eq!(r.sleeps, 2);
    assert_eq!(r.dispatched, vec![7]);
}

#[test]
fn connections_dispatched_in_arrival_order() {
    let events = vec![
        PollEvent::Ready(1),
        PollEvent::Ready(2),
        PollEvent::Ready(3),
        PollEvent::FailedOs(CLOSED_CODE_POSIX),
    ];
    let r = run_dispatch(&events, CLOSED_CODE_POSIX);
    assert_eq!(r.dispatched, vec![1, 2, 3]);
    assert_eq!(r.outcome, Outcome::Cancelled);
    assert_eq!(r.sleeps, 0);
}

#[test]
fn non_sentinel_os_error_propagated() {
    // 98 is EADDRINUSE on Linux: neither would-block nor the sentinel, so it
    // is surfaced verbatim, with no further poll.
    let events = vec![
        PollEvent::WouldBlock,
        PollEvent::FailedOs(98),
        PollEvent::Ready(4),
    ];
    let r = run_dispatch(&events, CLOSED_CODE_POSIX);
    assert_eq!(r.outcome, Outcome::FailedOs(98));
    assert_eq!(r.polls, 2);
    assert_eq!(r.sleeps, 1);
    assert_eq!(r.dispatched, Vec::<u64>::new());
}

#[test]
fn error_without_code_propagated() {
    let events = vec![PollEvent::Ready(5), PollEvent::FailedOther];
    let r = run_dispatch(&events, CLOSED_CODE_POSIX);
    assert_eq!(r.outcome, Outcome::FailedOther);
    assert_eq!(r.polls, 2);
    assert_eq!(r.dispatched, vec![5]);
}

#[test]
fn sentinel_of_the_other_platform_is_a_real_error() {
    // Under the POSIX sentinel, the Windows code is an ordinary failure.
    let events = vec![PollEvent::FailedOs(CLOSED_CODE_WINDOWS)];
    let r = run_dispatch(&events, CLOSED_CODE_POSIX);
    assert_eq!(r.outcome, Outcome::FailedOs(CLOSED_CODE_WINDOWS));
}

#[test]
fn windows_sentinel_cancels_under_windows() {
    let events = vec![PollEvent::WouldBlock, PollEvent::FailedOs(CLOSED_CODE_WINDOWS)];
    let r = run_dispatch(&events, CLOSED_CODE_WINDOWS);
    assert_eq!(r.outcome, Outcome::Cancelled);
    assert_eq!(r.polls, 2);
}

#[test]
fn empty_script_is_a_truncated_observation() {
    let r = run_dispatch(&Vec::new(), CLOSED_CODE_POSIX);
    assert_eq!(r.outcome, Outcome::Exhausted);
    assert_eq!(r.polls, 0);
    assert_eq!(r.sleeps, 0);
    assert_eq!(r.dispatched, Vec::<u64>::new());
}

#[test]
fn truncated_script_reports_everything_seen() {
    let events = vec![PollEvent::WouldBlock, PollEvent::Ready(2)];
    let r = run_dispatch(&events, CLOSED_CODE_POSIX);
    assert_eq!(r.outcome, Outcome::Exhausted);
    assert_eq!(r.polls, 2);
    assert_eq!(r.sleeps, 1);
    assert_eq!(r.dispatched, vec![2]);
}
