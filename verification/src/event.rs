//! Poll results and the reaction each one owes.

use vstd::prelude::*;

verus! {

/// Raw error code with which a poll of a forcibly closed POSIX descriptor
/// fails (`EBADF`).
pub const CLOSED_CODE_POSIX: i32 = 9;

/// Raw error code with which a poll of a forcibly closed Windows socket
/// fails (`WSAENOTSOCK`).
pub const CLOSED_CODE_WINDOWS: i32 = 10038;

/// What one poll of the listening socket reported, as the dispatch loop
/// sees it. A ready connection is identified by a token; the connection
/// value itself stays with the embedding that runs the loop.
#[derive(Clone, Copy, Debug, PartialEq, Eq, Structural)]
pub enum PollEvent {
    /// A connection was ready; the token identifies it.
    Ready(u64),
    /// No connection was pending.
    WouldBlock,
    /// The poll failed with an operating-system error carrying this raw code.
    FailedOs(i32),
    /// The poll failed with an error that carries no raw code.
    FailedOther,
}

/// What the dispatch loop does in reaction to one poll.
#[derive(Clone, Copy, Debug, PartialEq, Eq, Structural)]
pub enum Action {
    /// Hand the ready connection to the handler, then poll again.
    Dispatch,
    /// Sleep for the poll interval, then poll again.
    Sleep,
    /// Stop and report clean termination: the listener was cancelled.
    Finish,
    /// Stop and propagate the error to the caller.
    Fail,
}

/// The reaction owed to one poll result, given the platform's sentinel code
/// for "operation attempted on a closed descriptor": a ready connection is
/// dispatched, a would-block poll is slept through, the sentinel ends the
/// loop cleanly, and every other failure is propagated.
pub open spec fn spec_step(e: PollEvent, sentinel: i32) -> Action {
    match e {
        PollEvent::Ready(_) => Action::Dispatch,
        PollEvent::WouldBlock => Action::Sleep,
        PollEvent::FailedOs(code) => if code == sentinel {
            Action::Finish
        } else {
            Action::Fail
        },
        PollEvent::FailedOther => Action::Fail,
    }
}

/// Whether a poll result ends the loop, one way or the other.
pub open spec fn is_terminal(e: PollEvent, sentinel: i32) -> bool {
    spec_step(e, sentinel) == Action::Finish || spec_step(e, sentinel) == Action::Fail
}

/// Classify one poll result into the action the dispatch loop must take.
pub fn step(e: PollEvent, sentinel: i32) -> (a: Action)
    ensures
        a == spec_step(e, sentinel),
{
    match e {
        PollEvent::Ready(_) => Action::Dispatch,
        PollEvent::WouldBlock => Action::Sleep,
        PollEvent::FailedOs(code) => if code == sentinel {
            Action::Finish
        } else {
            Action::Fail
        },
        PollEvent::FailedOther => Action::Fail,
    }
}

} // verus!
