//! The listener's lifecycle, and what a listener in each state can report.

use vstd::prelude::*;

use crate::event::PollEvent;

verus! {

/// The lifecycle of the listening socket as the two roles see it: bound and
/// accepting, or closed by the canceller.
#[derive(Clone, Copy, Debug, PartialEq, Eq, Structural)]
pub enum ListenerState {
    /// Bound in non-blocking mode; polls may report connections.
    Open,
    /// The underlying descriptor was forcibly invalidated by a close call.
    Closed,
}

/// The state a close call leaves the listener in: closed, whatever state it
/// was in before.
pub open spec fn spec_close(s: ListenerState) -> ListenerState {
    ListenerState::Closed
}

/// Record a close call against the listener's lifecycle state.
pub fn close_transition(s: ListenerState) -> (r: ListenerState)
    ensures
        r == spec_close(s),
{
    ListenerState::Closed
}

/// Which poll results the platform may report for a listener in state `s`,
/// given the platform's sentinel code: an open listener may report anything,
/// a closed one reports only the sentinel within the next poll.
pub open spec fn may_report(s: ListenerState, e: PollEvent, sentinel: i32) -> bool {
    match s {
        ListenerState::Open => true,
        ListenerState::Closed => e == PollEvent::FailedOs(sentinel),
    }
}

/// Law: cancellation is idempotent on the listener's state. Closing an
/// already-closed listener leaves it exactly where one close left it.
pub proof fn lemma_close_idempotent(s: ListenerState)
    ensures
        spec_close(spec_close(s)) == spec_close(s),
{
}

/// Law: cancellation is idempotent in what the dispatcher can observe. After
/// a second close the platform may report exactly what it may report after
/// one close, so the dispatch loop cannot tell the two apart.
pub proof fn lemma_double_close_same_observations(
    s: ListenerState,
    e: PollEvent,
    sentinel: i32,
)
    ensures
        may_report(spec_close(spec_close(s)), e, sentinel) == may_report(
            spec_close(s),
            e,
            sentinel,
        ),
{
}

} // verus!
