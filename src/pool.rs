//! The pool: a fixed set of workers, one shared queue, and orderly teardown.

use crate::queue::{JobQueue, Message, Received};
use crate::worker::{
    count_state, lemma_count_all, lemma_count_update, on_received, Step, WorkerState,
};
use vstd::prelude::*;

verus! {

/// Why the pool refused a request.
#[derive(Debug, Clone, Copy, PartialEq, Eq, Structural)]
pub enum PoolError {
    /// A pool needs at least one worker.
    ZeroSize,
    /// Work was submitted after teardown began.
    ShutDown,
}

/// The bookkeeping of a worker pool of fixed size.
///
/// Worker `i` (for `i` below the size) asks `next_message(i)` for work, runs what
/// it is given, and reports back with `finish_job(i)`. `shutdown` queues one
/// `Terminate` per worker behind all submitted work and hands out, once, the
/// workers whose threads are to be joined.
pub struct ThreadPool<J> {
    queue: JobQueue<J>,
    workers: Vec<WorkerState>,
    joined: Vec<bool>,
    shut_down: bool,
    submitted: Ghost<Seq<J>>,
    dispatched: Ghost<Seq<J>>,
    finished: Ghost<nat>,
}

/// `n` termination messages in a row.
pub open spec fn terminates<J>(n: nat) -> Seq<Message<J>> {
    Seq::new(n, |i: int| Message::Terminate)
}

/// The worker indices `0..n`, in order.
pub open spec fn indices(n: nat) -> Seq<usize> {
    Seq::new(n, |i: int| i as usize)
}

impl<J> ThreadPool<J> {
    /// The number of workers, fixed at construction.
    pub open spec fn size(&self) -> nat {
        self.worker_states().len()
    }

    /// The state of each worker, by index.
    pub closed spec fn worker_states(&self) -> Seq<WorkerState> {
        self.workers@
    }

    /// For each worker, whether its thread was already handed out for joining.
    pub closed spec fn joined(&self) -> Seq<bool> {
        self.joined@
    }

    /// Whether teardown has begun.
    pub closed spec fn is_shut_down(&self) -> bool {
        self.shut_down
    }

    /// The messages waiting in the queue, front first.
    pub closed spec fn pending(&self) -> Seq<Message<J>> {
        self.queue@
    }

    /// Every job accepted by `execute`, in order.
    pub closed spec fn submitted(&self) -> Seq<J> {
        self.submitted@
    }

    /// Every job handed to a worker, in order.
    pub closed spec fn dispatched(&self) -> Seq<J> {
        self.dispatched@
    }

    /// How many handed-out jobs were reported finished.
    pub closed spec fn finished(&self) -> nat {
        self.finished@
    }

    /// The number of jobs submitted but not yet handed to a worker.
    pub open spec fn backlog(&self) -> nat {
        (self.submitted().len() - self.dispatched().len()) as nat
    }

    /// The pool's invariant.
    pub closed spec fn wf(&self) -> bool {
        let k = self.backlog();
        &&& self.workers@.len() >= 1
        &&& self.joined@.len() == self.workers@.len()
        &&& self.queue.is_open() == !self.shut_down
        &&& self.dispatched@.len() <= self.submitted@.len()
        &&& self.dispatched@ == self.submitted@.take(self.dispatched@.len() as int)
        &&& self.queue@.len() == k + if self.shut_down {
            self.workers@.len() - count_state(self.workers@, WorkerState::Stopped)
        } else {
            0int
        }
        &&& forall|i: int|
            0 <= i < k ==> #[trigger] self.queue@[i] == Message::NewJob(
                self.submitted@[self.dispatched@.len() + i],
            )
        &&& forall|i: int| k <= i < self.queue@.len() ==> #[trigger] self.queue@[i] is Terminate
        &&& !self.shut_down ==> forall|i: int|
            0 <= i < self.workers@.len() ==> #[trigger] self.workers@[i] != WorkerState::Stopped
        &&& forall|i: int| 0 <= i < self.joined@.len() ==> #[trigger] self.joined@[i] == self.shut_down
        &&& count_state(self.workers@, WorkerState::Stopped) > 0 ==> k == 0
        &&& count_state(self.workers@, WorkerState::Running) + self.finished@
            == self.dispatched@.len()
    }

    /// A pool of `size` workers, all idle, with nothing queued.
    /// Refused, before any worker exists, when `size` is zero.
    pub fn new(size: usize) -> (r: Result<Self, PoolError>)
        ensures
            size == 0 <==> r is Err,
            size == 0 ==> r == Err::<Self, PoolError>(PoolError::ZeroSize),
            r matches Ok(p) ==> {
                &&& p.wf()
                &&& p.size() == size
                &&& p.worker_states() == Seq::new(size as nat, |i: int| WorkerState::Idle)
                &&& p.joined() == Seq::new(size as nat, |i: int| false)
                &&& !p.is_shut_down()
                &&& p.pending() == Seq::<Message<J>>::empty()
                &&& p.submitted() == Seq::<J>::empty()
                &&& p.dispatched() == Seq::<J>::empty()
                &&& p.finished() == 0
            },
    {
        if size == 0 {
            return Err(PoolError::ZeroSize);
        }
        let mut workers: Vec<WorkerState> = Vec::new();
        let mut joined: Vec<bool> = Vec::new();
        let mut i: usize = 0;
        while i < size
            invariant
                i <= size,
                workers@ == Seq::new(i as nat, |j: int| WorkerState::Idle),
                joined@ == Seq::new(i as nat, |j: int| false),
            decreases size - i,
        {
            workers.push(WorkerState::Idle);
            joined.push(false);
            i = i + 1;
            assert(workers@ =~= Seq::new(i as nat, |j: int| WorkerState::Idle));
            assert(joined@ =~= Seq::new(i as nat, |j: int| false));
        }
        proof {
            lemma_count_all(workers@, WorkerState::Stopped);
            lemma_count_all(workers@, WorkerState::Running);
            assert(forall|j: int| 0 <= j < workers@.len() ==> workers@[j] == WorkerState::Idle);
        }
        let p = ThreadPool {
            queue: JobQueue::new(),
            workers,
            joined,
            shut_down: false,
            submitted: Ghost(Seq::empty()),
            dispatched: Ghost(Seq::empty()),
            finished: Ghost(0),
        };
        assert(p.dispatched@ =~= p.submitted@.take(0));
        Ok(p)
    }

    /// The number of workers.
    pub fn worker_count(&self) -> (n: usize)
        ensures
            n == self.size(),
    {
        self.workers.len()
    }

    /// The state of worker `id`, or `None` for an index outside the pool.
    pub fn state_of(&self, id: usize) -> (r: Option<WorkerState>)
        ensures
            id < self.size() ==> r == Some(self.worker_states()[id as int]),
            id >= self.size() ==> r is None,
    {
        if id < self.workers.len() {
            Some(self.workers[id])
        } else {
            None
        }
    }

    /// Whether teardown has begun.
    pub fn shut_down(&self) -> (b: bool)
        ensures
            b == self.is_shut_down(),
    {
        self.shut_down
    }

    /// The number of messages waiting in the queue.
    pub fn pending_len(&self) -> (n: usize)
        ensures
            n == self.pending().len(),
    {
        self.queue.len()
    }

    /// Submits `job`: it is queued behind all earlier work, to run exactly once.
    /// Refused once teardown has begun; nothing else changes then.
    pub fn execute(&mut self, job: J) -> (r: Result<(), PoolError>)
        requires
            old(self).wf(),
        ensures
            final(self).wf(),
            old(self).is_shut_down() <==> r == Err::<(), PoolError>(PoolError::ShutDown),
            old(self).is_shut_down() ==> *final(self) == *old(self),
            !old(self).is_shut_down() ==> {
                &&& final(self).submitted() == old(self).submitted().push(job)
                &&& final(self).pending() == old(self).pending().push(Message::NewJob(job))
                &&& final(self).dispatched() == old(self).dispatched()
                &&& final(self).finished() == old(self).finished()
                &&& final(self).worker_states() == old(self).worker_states()
                &&& final(self).joined() == old(self).joined()
                &&& !final(self).is_shut_down()
            },
    {
        if self.shut_down {
            return Err(PoolError::ShutDown);
        }
        let ghost old_submitted = self.submitted@;
        let ghost d = self.dispatched@.len();
        let sent = self.queue.send(Message::NewJob(job));
        proof {
            self.submitted@ = self.submitted@.push(job);
            lemma_count_all(self.workers@, WorkerState::Stopped);
            assert(self.dispatched@ =~= self.submitted@.take(d as int));
            let k = self.backlog();
            assert forall|i: int| 0 <= i < k implies #[trigger] self.queue@[i] == Message::NewJob(
                self.submitted@[d + i],
            ) by {
                if i < k - 1 {
                    assert(self.submitted@[d + i] == old_submitted[d + i]);
                }
            }
        }
        match sent {
            Ok(()) => Ok(()),
            Err(_) => Err(PoolError::ShutDown),
        }
    }

    /// Worker `id` asks for its next message; only an idle worker of the pool may.
    ///
    /// A job at the front of the queue goes to this worker alone, which is then
    /// running; a `Terminate` there stops it; an empty queue leaves it waiting.
    pub fn next_message(&mut self, id: usize) -> (r: Step<J>)
        requires
            old(self).wf(),
        ensures
            final(self).wf(),
            final(self).submitted() == old(self).submitted(),
            final(self).finished() == old(self).finished(),
            final(self).joined() == old(self).joined(),
            final(self).is_shut_down() == old(self).is_shut_down(),
            id >= old(self).size() || old(self).worker_states()[id as int] != WorkerState::Idle
                ==> r is Refused && *final(self) == *old(self),
            id < old(self).size() && old(self).worker_states()[id as int] == WorkerState::Idle
                ==> {
                let front = old(self).pending()[0];
                &&& old(self).pending().len() == 0 ==> r is Wait && *final(self) == *old(self)
                &&& old(self).pending().len() > 0 ==> final(self).pending() == old(
                    self,
                ).pending().drop_first()
                &&& old(self).pending().len() > 0 && front is NewJob ==> {
                    &&& r == Step::Run(front->NewJob_0)
                    &&& front->NewJob_0 == old(self).submitted()[old(self).dispatched().len() as int]
                    &&& final(self).dispatched() == old(self).dispatched().push(front->NewJob_0)
                    &&& final(self).worker_states() == old(self).worker_states().update(
                        id as int,
                        WorkerState::Running,
                    )
                }
                &&& old(self).pending().len() > 0 && front is Terminate ==> {
                    &&& r is Stop
                    &&& final(self).dispatched() == old(self).dispatched()
                    &&& final(self).worker_states() == old(self).worker_states().update(
                        id as int,
                        WorkerState::Stopped,
                    )
                }
            },
    {
        if id >= self.workers.len() || self.workers[id] != WorkerState::Idle {
            return Step::Refused;
        }
        proof {
            lemma_count_all(self.workers@, WorkerState::Stopped);
            lemma_count_update(self.workers@, id as int, WorkerState::Running, WorkerState::Stopped);
            lemma_count_update(self.workers@, id as int, WorkerState::Running, WorkerState::Running);
            lemma_count_update(self.workers@, id as int, WorkerState::Stopped, WorkerState::Stopped);
            lemma_count_update(self.workers@, id as int, WorkerState::Stopped, WorkerState::Running);
            assert(self.workers@[id as int] != WorkerState::Stopped);
        }
        if self.queue.len() == 0 {
            return Step::Wait;
        }
        let ghost old_queue = self.queue@;
        let ghost d = self.dispatched@.len();
        let received = self.queue.receive();
        let (state, step) = on_received(received);
        self.workers.set(id, state);
        proof {
            if old_queue.len() > 0 {
                let k = (self.submitted@.len() - d) as int;
                if old_queue[0] is NewJob {
                    assert(0 < k) by {
                        if k == 0 {
                            assert(old_queue[0] is Terminate);
                        }
                    }
                    assert(old_queue[0] == Message::NewJob(self.submitted@[d as int]));
                    self.dispatched@ = self.dispatched@.push(self.submitted@[d as int]);
                    assert(self.dispatched@ =~= self.submitted@.take(d as int + 1));
                    assert forall|i: int| 0 <= i < k - 1 implies #[trigger] self.queue@[i]
                        == Message::NewJob(self.submitted@[self.dispatched@.len() + i]) by {
                        assert(old_queue[i + 1] == Message::NewJob(self.submitted@[d + i + 1]));
                    }
                    assert forall|i: int| k - 1 <= i < self.queue@.len() implies #[trigger] self.queue@[i] is Terminate by {
                        assert(old_queue[i + 1] is Terminate);
                    }
                } else {
                    assert(k == 0) by {
                        if k > 0 {
                            assert(old_queue[0] == Message::NewJob(self.submitted@[d as int]));
                        }
                    }
                    assert forall|i: int| 0 <= i < self.queue@.len() implies #[trigger] self.queue@[i] is Terminate by {
                        assert(old_queue[i + 1] is Terminate);
                    }
                    assert(self.shut_down);
                }
            }
        }
        step
    }

    /// Worker `id` reports that its job has returned (or panicked and was caught):
    /// it is idle again. Refused, with nothing changed, unless it was running.
    pub fn finish_job(&mut self, id: usize) -> (r: bool)
        requires
            old(self).wf(),
        ensures
            final(self).wf(),
            r <==> id < old(self).size() && old(self).worker_states()[id as int]
                == WorkerState::Running,
            !r ==> *final(self) == *old(self),
            r ==> {
                &&& final(self).worker_states() == old(self).worker_states().update(
                    id as int,
                    WorkerState::Idle,
                )
                &&& final(self).finished() == old(self).finished() + 1
                &&& final(self).pending() == old(self).pending()
                &&& final(self).submitted() == old(self).submitted()
                &&& final(self).dispatched() == old(self).dispatched()
                &&& final(self).joined() == old(self).joined()
                &&& final(self).is_shut_down() == old(self).is_shut_down()
            },
    {
        if id >= self.workers.len() || self.workers[id] != WorkerState::Running {
            return false;
        }
        proof {
            lemma_count_update(self.workers@, id as int, WorkerState::Idle, WorkerState::Stopped);
            lemma_count_update(self.workers@, id as int, WorkerState::Idle, WorkerState::Running);
        }
        self.workers.set(id, WorkerState::Idle);
        proof {
            self.finished@ = self.finished@ + 1;
            if !self.shut_down {
                assert forall|i: int| 0 <= i < self.workers@.len() implies #[trigger] self.workers@[i]
                    != WorkerState::Stopped by {
                    if i != id {
                        assert(self.workers@[i] == old(self).workers@[i]);
                    }
                }
            }
        }
        true
    }

    /// Begins teardown. The first call queues one `Terminate` per worker behind
    /// all submitted work, closes the queue to new work, and returns every worker
    /// index, in order, for its thread to be joined. A later call changes nothing
    /// and returns no index, so no thread is joined twice.
    pub fn shutdown(&mut self) -> (r: Vec<usize>)
        requires
            old(self).wf(),
        ensures
            final(self).wf(),
            final(self).is_shut_down(),
            final(self).joined() == Seq::new(old(self).size(), |i: int| true),
            old(self).is_shut_down() ==> r@ == Seq::<usize>::empty() && *final(self) == *old(self),
            !old(self).is_shut_down() ==> {
                &&& r@ == indices(old(self).size())
                &&& final(self).pending() == old(self).pending() + terminates(old(self).size())
                &&& final(self).worker_states() == old(self).worker_states()
                &&& final(self).submitted() == old(self).submitted()
                &&& final(self).dispatched() == old(self).dispatched()
                &&& final(self).finished() == old(self).finished()
            },
    {
        let n = self.workers.len();
        if self.shut_down {
            proof {
                assert(self.joined@ =~= Seq::new(n as nat, |i: int| true));
            }
            return Vec::new();
        }
        let ghost q0 = self.queue@;
        let mut ids: Vec<usize> = Vec::new();
        let mut i: usize = 0;
        while i < n
            invariant
                i <= n,
                n == self.workers@.len(),
                n == self.joined@.len(),
                self.queue.is_open(),
                self.queue@ == q0 + terminates(i as nat),
                q0 == old(self).queue@,
                self.workers@ == old(self).workers@,
                self.submitted@ == old(self).submitted@,
                self.dispatched@ == old(self).dispatched@,
                self.finished@ == old(self).finished@,
                !self.shut_down,
                ids@ == indices(i as nat),
                forall|j: int| 0 <= j < i ==> #[trigger] self.joined@[j],
            decreases n - i,
        {
            let _ = self.queue.send(Message::Terminate);
            self.joined.set(i, true);
            ids.push(i);
            i = i + 1;
            assert(self.queue@ =~= q0 + terminates(i as nat));
            assert(ids@ =~= indices(i as nat));
        }
        self.queue.close();
        self.shut_down = true;
        proof {
            lemma_count_all(self.workers@, WorkerState::Stopped);
            let k = self.backlog();
            assert(count_state(self.workers@, WorkerState::Stopped) == 0);
            assert forall|j: int| 0 <= j < k implies #[trigger] self.queue@[j] == Message::NewJob(
                self.submitted@[self.dispatched@.len() + j],
            ) by {
                assert(self.queue@[j] == q0[j]);
            }
            assert forall|j: int| k <= j < self.queue@.len() implies #[trigger] self.queue@[j] is Terminate by {
                if j < q0.len() {
                    assert(self.queue@[j] == q0[j]);
                } else {
                    assert(self.queue@[j] == terminates::<J>(n as nat)[j - q0.len()]);
                }
            }
            assert(self.joined@ =~= Seq::new(n as nat, |j: int| true));
        }
        ids
    }
}

/// Workers start idle and stay so until work arrives: while nothing has been
/// submitted, no worker is running and none has stopped unless teardown began.
pub proof fn lemma_idle_until_work<J>(p: &ThreadPool<J>)
    requires
        p.wf(),
        p.submitted().len() == 0,
    ensures
        forall|i: int| 0 <= i < p.size() ==> #[trigger] p.worker_states()[i] != WorkerState::Running,
        !p.is_shut_down() ==> forall|i: int|
            0 <= i < p.size() ==> #[trigger] p.worker_states()[i] == WorkerState::Idle,
        p.dispatched().len() == 0,
        p.finished() == 0,
{
    lemma_count_all(p.worker_states(), WorkerState::Running);
}

/// No job is lost and none is handed out twice: the jobs handed to workers are
/// exactly the first submissions, in order, each once, and every later
/// submission waits in the queue at its own place, ahead of any `Terminate`.
pub proof fn lemma_each_job_once<J>(p: &ThreadPool<J>)
    requires
        p.wf(),
    ensures
        p.dispatched().len() <= p.submitted().len(),
        p.dispatched() == p.submitted().take(p.dispatched().len() as int),
        p.backlog() <= p.pending().len(),
        forall|i: int|
            0 <= i < p.backlog() ==> #[trigger] p.pending()[i] == Message::NewJob(
                p.submitted()[p.dispatched().len() + i],
            ),
        forall|i: int| p.backlog() <= i < p.pending().len() ==> #[trigger] p.pending()[i] is Terminate,
{
}

/// A worker stops only once every submitted job has been handed out: the
/// `Terminate` messages queue behind all work.
pub proof fn lemma_stop_after_drain<J>(p: &ThreadPool<J>, id: int)
    requires
        p.wf(),
        0 <= id < p.size(),
        p.worker_states()[id] == WorkerState::Stopped,
    ensures
        p.dispatched() == p.submitted(),
        p.is_shut_down(),
{
    lemma_count_all(p.worker_states(), WorkerState::Stopped);
    assert(p.dispatched() =~= p.submitted());
}

/// Once teardown has begun and every worker has stopped, every submitted job
/// was handed out exactly once and has finished, and nothing is left queued.
pub proof fn lemma_teardown_completes_all<J>(p: &ThreadPool<J>)
    requires
        p.wf(),
        p.is_shut_down(),
        forall|i: int| 0 <= i < p.size() ==> #[trigger] p.worker_states()[i] == WorkerState::Stopped,
    ensures
        p.dispatched() == p.submitted(),
        p.finished() == p.submitted().len(),
        p.pending().len() == 0,
{
    lemma_count_all(p.worker_states(), WorkerState::Stopped);
    lemma_count_all(p.worker_states(), WorkerState::Running);
    assert(p.worker_states()[0] == WorkerState::Stopped);
    assert(p.dispatched() =~= p.submitted());
}

} // verus!
