//! The dispatch loop over a script of poll results, and its laws.
//!
//! A live listener yields an unbounded stream of poll results; the loop's
//! behaviour is decided by that stream alone. The model here replays the
//! loop over a finite script of [`PollEvent`]s and reports everything the
//! two roles can observe: which connections were handed to the handler, how
//! many polls were examined, how often the loop slept, and how it ended.

use vstd::prelude::*;

use crate::event::{is_terminal, PollEvent};
use crate::lifecycle::{may_report, ListenerState};

verus! {

/// How a run of the dispatch loop ended.
#[derive(Clone, Copy, Debug, PartialEq, Eq, Structural)]
pub enum Outcome {
    /// The cancellation sentinel was observed: the loop reports success.
    Cancelled,
    /// An operating-system error with this raw code was propagated.
    FailedOs(i32),
    /// An error without a raw code was propagated.
    FailedOther,
    /// The script ran out before a terminal poll. A live listener never does
    /// this by itself (it would be polled forever), so this names a
    /// truncated observation, not a loop exit.
    Exhausted,
}

/// The outcome that a terminal poll result decides.
pub open spec fn terminal_outcome(e: PollEvent, sentinel: i32) -> Outcome
    recommends
        is_terminal(e, sentinel),
{
    match e {
        PollEvent::FailedOs(code) => if code == sentinel {
            Outcome::Cancelled
        } else {
            Outcome::FailedOs(code)
        },
        PollEvent::FailedOther => Outcome::FailedOther,
        _ => Outcome::Exhausted,
    }
}

/// How a run over `events` ends: decided by the first terminal poll result,
/// or `Exhausted` when there is none.
pub open spec fn spec_outcome(events: Seq<PollEvent>, sentinel: i32) -> Outcome
    decreases events.len(),
{
    if events.len() == 0 {
        Outcome::Exhausted
    } else if is_terminal(events[0], sentinel) {
        terminal_outcome(events[0], sentinel)
    } else {
        spec_outcome(events.skip(1), sentinel)
    }
}

/// How many poll results a run over `events` examines: everything up to and
/// including the first terminal one.
pub open spec fn spec_polls(events: Seq<PollEvent>, sentinel: i32) -> nat
    decreases events.len(),
{
    if events.len() == 0 {
        0
    } else if is_terminal(events[0], sentinel) {
        1
    } else {
        1 + spec_polls(events.skip(1), sentinel)
    }
}

/// The tokens of the connections a run over `events` hands to the handler,
/// in dispatch order.
pub open spec fn spec_dispatched(events: Seq<PollEvent>, sentinel: i32) -> Seq<u64>
    decreases events.len(),
{
    if events.len() == 0 {
        Seq::empty()
    } else if is_terminal(events[0], sentinel) {
        Seq::empty()
    } else {
        match events[0] {
            PollEvent::Ready(t) => seq![t] + spec_dispatched(events.skip(1), sentinel),
            _ => spec_dispatched(events.skip(1), sentinel),
        }
    }
}

/// How often a run over `events` sleeps for the poll interval.
pub open spec fn spec_sleeps(events: Seq<PollEvent>, sentinel: i32) -> nat
    decreases events.len(),
{
    if events.len() == 0 {
        0
    } else if is_terminal(events[0], sentinel) {
        0
    } else if events[0] is WouldBlock {
        1 + spec_sleeps(events.skip(1), sentinel)
    } else {
        spec_sleeps(events.skip(1), sentinel)
    }
}

/// The tokens of all ready connections in `events`, in arrival order.
pub open spec fn ready_tokens(events: Seq<PollEvent>) -> Seq<u64>
    decreases events.len(),
{
    if events.len() == 0 {
        Seq::empty()
    } else {
        match events[0] {
            PollEvent::Ready(t) => seq![t] + ready_tokens(events.skip(1)),
            _ => ready_tokens(events.skip(1)),
        }
    }
}

/// How many polls in `events` reported that no connection was pending.
pub open spec fn count_idle(events: Seq<PollEvent>) -> nat
    decreases events.len(),
{
    if events.len() == 0 {
        0
    } else if events[0] is WouldBlock {
        1 + count_idle(events.skip(1))
    } else {
        count_idle(events.skip(1))
    }
}

/// Everything a run of the dispatch loop does that the two roles can
/// observe.
pub struct RunReport {
    /// Tokens of the connections handed to the handler, in dispatch order.
    pub dispatched: Vec<u64>,
    /// How many poll results were examined.
    pub polls: usize,
    /// How many times the loop slept for the poll interval.
    pub sleeps: usize,
    /// How the run ended.
    pub outcome: Outcome,
}

/// Replay the dispatch loop over a script of poll results: dispatch every
/// ready connection, sleep through every would-block poll, stop cleanly at
/// the sentinel, stop with the error at any other failure.
pub fn run_dispatch(events: &Vec<PollEvent>, sentinel: i32) -> (r: RunReport)
    ensures
        r.dispatched@ == spec_dispatched(events@, sentinel),
        r.polls == spec_polls(events@, sentinel),
        r.sleeps == spec_sleeps(events@, sentinel),
        r.outcome == spec_outcome(events@, sentinel),
{
    let mut dispatched: Vec<u64> = Vec::new();
    let mut sleeps: usize = 0;
    let mut i: usize = 0;
    proof {
        assert(events@.skip(0) =~= events@);
        assert(Seq::<u64>::empty() + spec_dispatched(events@, sentinel) =~= spec_dispatched(
            events@,
            sentinel,
        ));
    }
    while i < events.len()
        invariant
            i <= events.len(),
            sleeps <= i,
            spec_dispatched(events@, sentinel) == dispatched@ + spec_dispatched(
                events@.skip(i as int),
                sentinel,
            ),
            spec_polls(events@, sentinel) == i + spec_polls(events@.skip(i as int), sentinel),
            spec_sleeps(events@, sentinel) == sleeps + spec_sleeps(
                events@.skip(i as int),
                sentinel,
            ),
            spec_outcome(events@, sentinel) == spec_outcome(events@.skip(i as int), sentinel),
        decreases events.len() - i,
    {
        let e = events[i];
        proof {
            assert(events@.skip(i as int)[0] == events@[i as int]);
            assert(events@.skip(i as int).skip(1) =~= events@.skip(i as int + 1));
        }
        match e {
            PollEvent::Ready(t) => {
                proof {
                    assert((dispatched@ + seq![t]) + spec_dispatched(
                        events@.skip(i as int + 1),
                        sentinel,
                    ) =~= dispatched@ + (seq![t] + spec_dispatched(
                        events@.skip(i as int + 1),
                        sentinel,
                    )));
                }
                dispatched.push(t);
            },
            PollEvent::WouldBlock => {
                sleeps = sleeps + 1;
            },
            PollEvent::FailedOs(code) => {
                let outcome = if code == sentinel {
                    Outcome::Cancelled
                } else {
                    Outcome::FailedOs(code)
                };
                proof {
                    assert(dispatched@ + Seq::<u64>::empty() =~= dispatched@);
                }
                return RunReport { dispatched, polls: i + 1, sleeps, outcome };
            },
            PollEvent::FailedOther => {
                proof {
                    assert(dispatched@ + Seq::<u64>::empty() =~= dispatched@);
                }
                return RunReport { dispatched, polls: i + 1, sleeps, outcome: Outcome::FailedOther };
            },
        }
        i = i + 1;
    }
    proof {
        assert(events@.skip(i as int) =~= Seq::<PollEvent>::empty());
        assert(dispatched@ + Seq::<u64>::empty() =~= dispatched@);
    }
    RunReport { dispatched, polls: i, sleeps, outcome: Outcome::Exhausted }
}

/// A poll script that a listener closed just before its `c`-th poll can
/// produce: from index `c` on, every poll reports what a closed listener may
/// report, which is exactly the sentinel.
pub open spec fn closed_from(events: Seq<PollEvent>, c: int, sentinel: i32) -> bool {
    forall|i: int|
        c <= i < events.len() ==> may_report(ListenerState::Closed, events[i], sentinel)
}

/// Law: the run is decided by its first terminal poll result. It examines
/// exactly the polls up to and including that one, its outcome is the one
/// that poll decides, every earlier ready connection is dispatched in
/// arrival order, and it sleeps exactly through the earlier idle polls.
pub proof fn lemma_first_terminal_decides(events: Seq<PollEvent>, i: int, sentinel: i32)
    requires
        0 <= i < events.len(),
        is_terminal(events[i], sentinel),
        forall|j: int| 0 <= j < i ==> !is_terminal(events[j], sentinel),
    ensures
        spec_outcome(events, sentinel) == terminal_outcome(events[i], sentinel),
        spec_polls(events, sentinel) == i + 1,
        spec_dispatched(events, sentinel) == ready_tokens(events.take(i)),
        spec_sleeps(events, sentinel) == count_idle(events.take(i)),
    decreases i,
{
    if i == 0 {
        assert(events.take(0) =~= Seq::<PollEvent>::empty());
    } else {
        let tail = events.skip(1);
        assert(forall|j: int| 0 <= j < i - 1 ==> !is_terminal(tail[j], sentinel));
        lemma_first_terminal_decides(tail, i - 1, sentinel);
        assert(events.take(i)[0] == events[0]);
        assert(events.take(i).skip(1) =~= tail.take(i - 1));
        match events[0] {
            PollEvent::Ready(t) => {
                assert(spec_dispatched(events, sentinel) == seq![t] + spec_dispatched(
                    tail,
                    sentinel,
                ));
                assert(ready_tokens(events.take(i)) == seq![t] + ready_tokens(tail.take(i - 1)));
            },
            _ => {},
        }
    }
}

/// Law: the loop never returns on its own. A script without a terminal poll
/// is consumed whole: every ready connection is dispatched in arrival order,
/// every idle poll is slept through, and the run is merely a truncated
/// observation of a loop that is still going.
pub proof fn lemma_no_terminal_keeps_polling(events: Seq<PollEvent>, sentinel: i32)
    requires
        forall|j: int| 0 <= j < events.len() ==> !is_terminal(events[j], sentinel),
    ensures
        spec_outcome(events, sentinel) == Outcome::Exhausted,
        spec_polls(events, sentinel) == events.len(),
        spec_dispatched(events, sentinel) == ready_tokens(events),
        spec_sleeps(events, sentinel) == count_idle(events),
    decreases events.len(),
{
    if events.len() > 0 {
        let tail = events.skip(1);
        assert(forall|j: int| 0 <= j < tail.len() ==> !is_terminal(tail[j], sentinel));
        lemma_no_terminal_keeps_polling(tail, sentinel);
    }
}

/// Law: if the very first poll already reports the sentinel — close was
/// called before the dispatch loop started — the run is cancelled cleanly at
/// once: one poll, no connection dispatched, no sleep.
pub proof fn lemma_cancelled_before_start(events: Seq<PollEvent>, sentinel: i32)
    requires
        events.len() > 0,
        events[0] == PollEvent::FailedOs(sentinel),
    ensures
        spec_outcome(events, sentinel) == Outcome::Cancelled,
        spec_polls(events, sentinel) == 1,
        spec_dispatched(events, sentinel) == Seq::<u64>::empty(),
        spec_sleeps(events, sentinel) == 0,
{
    lemma_first_terminal_decides(events, 0, sentinel);
    assert(events.take(0) =~= Seq::<PollEvent>::empty());
}

/// Law: cancellation observed mid-loop is bounded. If the close call takes
/// effect just before the `c`-th poll and no earlier poll was terminal, the
/// run examines exactly `c + 1` polls, ends cancelled, and neither sleeps
/// nor dispatches after the close.
pub proof fn lemma_cancellation_bound(events: Seq<PollEvent>, c: int, sentinel: i32)
    requires
        0 <= c < events.len(),
        closed_from(events, c, sentinel),
        forall|j: int| 0 <= j < c ==> !is_terminal(events[j], sentinel),
    ensures
        spec_outcome(events, sentinel) == Outcome::Cancelled,
        spec_polls(events, sentinel) == c + 1,
        spec_dispatched(events, sentinel) == ready_tokens(events.take(c)),
        spec_sleeps(events, sentinel) == count_idle(events.take(c)),
{
    assert(may_report(ListenerState::Closed, events[c], sentinel));
    lemma_first_terminal_decides(events, c, sentinel);
}

/// Law: connections are dispatched once each, in arrival order. If the first
/// `n` polls all report ready connections, the handler receives at least `n`
/// connections and the first `n` of them are exactly those, in order.
pub proof fn lemma_dispatch_order(events: Seq<PollEvent>, n: int, sentinel: i32)
    requires
        0 <= n <= events.len(),
        forall|j: int| 0 <= j < n ==> events[j] is Ready,
    ensures
        spec_dispatched(events, sentinel).len() >= n,
        forall|j: int|
            0 <= j < n ==> spec_dispatched(events, sentinel)[j] == events[j]->Ready_0,
    decreases n,
{
    if n > 0 {
        let tail = events.skip(1);
        assert(forall|j: int| 0 <= j < n - 1 ==> tail[j] is Ready);
        lemma_dispatch_order(tail, n - 1, sentinel);
    }
}

/// Law: a failing poll whose code is not the sentinel is propagated exactly,
/// and at once. If poll `i` fails with such a code and no earlier poll was
/// terminal, the run ends with that very error after exactly `i + 1` polls:
/// it is never retried.
pub proof fn lemma_error_propagated(events: Seq<PollEvent>, i: int, code: i32, sentinel: i32)
    requires
        0 <= i < events.len(),
        events[i] == PollEvent::FailedOs(code),
        code != sentinel,
        forall|j: int| 0 <= j < i ==> !is_terminal(events[j], sentinel),
    ensures
        spec_outcome(events, sentinel) == Outcome::FailedOs(code),
        spec_polls(events, sentinel) == i + 1,
{
    lemma_first_terminal_decides(events, i, sentinel);
}

} // verus!
