//! The life of one worker: idle, running a job, or stopped for good.

use crate::queue::{Message, Received};
use vstd::prelude::*;

verus! {

/// Where a worker stands. `Idle -> Running -> Idle` per job, `Idle -> Stopped` on
/// termination; a running worker never stops before its job is done.
#[derive(Debug, Clone, Copy, PartialEq, Eq, Structural)]
pub enum WorkerState {
    Idle,
    Running,
    Stopped,
}

/// What a worker is told to do after asking for work.
pub enum Step<J> {
    /// Run this job, then report it finished.
    Run(J),
    /// Nothing is queued: block until something is sent, then ask again.
    Wait,
    /// Leave the loop; the thread may be joined.
    Stop,
    /// The worker may not ask now: it is unknown, busy or already stopped.
    Refused,
}

/// The state a worker moves to on what a receive returned.
pub open spec fn state_after<J>(r: Received<J>) -> WorkerState {
    match r {
        Received::Message(Message::NewJob(_)) => WorkerState::Running,
        Received::Message(Message::Terminate) => WorkerState::Stopped,
        Received::Empty => WorkerState::Idle,
        Received::Closed => WorkerState::Stopped,
    }
}

/// The step a worker takes on what a receive returned.
pub open spec fn step_after<J>(r: Received<J>) -> Step<J> {
    match r {
        Received::Message(Message::NewJob(j)) => Step::Run(j),
        Received::Message(Message::Terminate) => Step::Stop,
        Received::Empty => Step::Wait,
        Received::Closed => Step::Stop,
    }
}

/// The transition of an idle worker on what a receive returned.
pub fn on_received<J>(r: Received<J>) -> (out: (WorkerState, Step<J>))
    ensures
        out.0 == state_after(r),
        out.1 == step_after(r),
{
    match r {
        Received::Message(Message::NewJob(j)) => (WorkerState::Running, Step::Run(j)),
        Received::Message(Message::Terminate) => (WorkerState::Stopped, Step::Stop),
        Received::Empty => (WorkerState::Idle, Step::Wait),
        Received::Closed => (WorkerState::Stopped, Step::Stop),
    }
}

/// How many workers of `s` stand in state `st`.
pub open spec fn count_state(s: Seq<WorkerState>, st: WorkerState) -> nat
    decreases s.len(),
{
    if s.len() == 0 {
        0
    } else {
        count_state(s.drop_last(), st) + if s.last() == st {
            1nat
        } else {
            0nat
        }
    }
}

/// Changing one worker's state moves the count by at most one each way.
pub proof fn lemma_count_update(s: Seq<WorkerState>, i: int, v: WorkerState, st: WorkerState)
    requires
        0 <= i < s.len(),
    ensures
        count_state(s.update(i, v), st) + (if s[i] == st {
            1int
        } else {
            0int
        }) == count_state(s, st) + (if v == st {
            1int
        } else {
            0int
        }),
    decreases s.len(),
{
    let t = s.update(i, v);
    if i == s.len() - 1 {
        assert(t.drop_last() =~= s.drop_last());
    } else {
        assert(t.drop_last() =~= s.drop_last().update(i, v));
        lemma_count_update(s.drop_last(), i, v, st);
    }
}

/// Every worker of `s` stands in `st` exactly when all of them are counted.
pub proof fn lemma_count_all(s: Seq<WorkerState>, st: WorkerState)
    ensures
        count_state(s, st) <= s.len(),
        count_state(s, st) == s.len() <==> forall|i: int| 0 <= i < s.len() ==> s[i] == st,
        count_state(s, st) == 0 <==> forall|i: int| 0 <= i < s.len() ==> s[i] != st,
    decreases s.len(),
{
    if s.len() > 0 {
        let d = s.drop_last();
        lemma_count_all(d, st);
        assert forall|i: int| 0 <= i < d.len() implies d[i] == s[i] by {}
        if count_state(s, st) == s.len() {
            assert forall|i: int| 0 <= i < s.len() implies s[i] == st by {
                if i < d.len() {
                    assert(d[i] == s[i]);
                }
            }
        }
        if count_state(s, st) == 0 {
            assert forall|i: int| 0 <= i < s.len() implies s[i] != st by {
                if i < d.len() {
                    assert(d[i] == s[i]);
                }
            }
        }
        if forall|i: int| 0 <= i < s.len() ==> s[i] == st {
            assert(s[s.len() - 1] == st);
        }
        if forall|i: int| 0 <= i < s.len() ==> s[i] != st {
            assert(s[s.len() - 1] != st);
        }
    }
}

} // verus!
