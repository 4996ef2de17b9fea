//! The pool: owner of the fixed worker set and of the producing end of the
//! shared job queue, and the sole submission point.
//!
//! The pool's state carries, besides the queue and the workers, the full
//! ledger of its history: every job accepted (`submitted`), every job handed
//! to a worker (`delivered`, in delivery order) and every job run to
//! completion (`executed`, in completion order). Well-formedness ties the
//! ledger together: what was delivered followed by what is still pending is
//! exactly what was submitted, and what was executed together with what is
//! running now is exactly what was delivered. From these two equations follow
//! the pool's guarantees: first-in-first-out delivery, no job dropped, no job
//! run twice.

use vstd::multiset::Multiset;
use vstd::prelude::*;

use crate::queue::{JobQueue, RecvOutcome, SendError};
use crate::worker::{
    job_of, lemma_running_jobs_none, lemma_running_jobs_update, running_jobs, Worker, WorkerState,
};

verus! {

broadcast use
    vstd::multiset::group_multiset_axioms,
    vstd::multiset::lemma_multiset_empty_len,
    vstd::seq_lib::group_to_multiset_ensures,
    vstd::string::to_string_from_display_ensures_for_str,
;

/// The error a pool constructor reports when asked for zero workers: such a
/// pool could never make progress, so construction refuses it outright.
#[derive(Debug)]
pub struct PoolCreationError(String);

impl PoolCreationError {
    /// The reason construction failed, as ghost text.
    pub closed spec fn text(&self) -> Seq<char> {
        self.0@
    }

    /// The reason construction failed.
    pub fn message(&self) -> (m: &String)
        ensures
            m@ == self.text(),
    {
        &self.0
    }
}

/// Ghost image of a pool: the worker set, the queue's pending jobs and
/// open/closed producing end, and the three ledgers.
pub struct PoolModel {
    /// The fixed worker set; `workers[i]` has identity `i`.
    pub workers: Seq<Worker>,
    /// Jobs queued and not yet delivered, oldest first.
    pub pending: Seq<u64>,
    /// Whether the producing end is still open; closed once teardown begins.
    pub open: bool,
    /// Every job ever accepted by `submit`, in submission order.
    pub submitted: Seq<u64>,
    /// Every job handed to a worker, in delivery order.
    pub delivered: Seq<u64>,
    /// Every job run to completion, in completion order.
    pub executed: Seq<u64>,
}

impl PoolModel {
    /// Whether every worker has terminated.
    pub open spec fn all_terminated(self) -> bool {
        forall|i: int|
            0 <= i < self.workers.len() ==> #[trigger] self.workers[i].state is Terminated
    }

    /// Whether at least one worker has terminated.
    pub open spec fn some_terminated(self) -> bool {
        exists|i: int|
            0 <= i < self.workers.len() && #[trigger] self.workers[i].state is Terminated
    }

    /// The pool's invariant. Workers exist, carry their ordinal identities,
    /// and the ledgers balance: delivery took the front of the queue in
    /// order, and execution accounts for every delivered job exactly once.
    /// A worker terminates only after teardown began and the queue drained.
    pub open spec fn wf(self) -> bool {
        &&& self.workers.len() > 0
        &&& forall|i: int| 0 <= i < self.workers.len() ==> (#[trigger] self.workers[i].id) == i
        &&& self.delivered + self.pending == self.submitted
        &&& self.executed.to_multiset().add(running_jobs(self.workers))
            == self.delivered.to_multiset()
        &&& (self.some_terminated() ==> !self.open)
        &&& (self.all_terminated() ==> self.pending.len() == 0)
    }
}

/// The pool itself. All fields are reached through the ghost image and the
/// observer methods; the ledgers exist so that an embedding program and its
/// tests can check the pool's guarantees on real runs.
pub struct Pool {
    workers: Vec<Worker>,
    queue: JobQueue,
    submitted: Vec<u64>,
    delivered: Vec<u64>,
    executed: Vec<u64>,
}

impl View for Pool {
    type V = PoolModel;

    closed spec fn view(&self) -> PoolModel {
        PoolModel {
            workers: self.workers@,
            pending: self.queue@.pending,
            open: self.queue@.open,
            submitted: self.submitted@,
            delivered: self.delivered@,
            executed: self.executed@,
        }
    }
}

impl Pool {
    /// Create a pool of `size` workers, all idle, sharing one fresh queue.
    /// A pool of zero workers could never run a job, so `size` zero is the
    /// one construction error.
    pub fn new(size: usize) -> (r: Result<Pool, PoolCreationError>)
        ensures
            r is Ok <==> size > 0,
            r matches Ok(p) ==> p@.wf(),
            r matches Ok(p) ==> p@.workers.len() == size,
            r matches Ok(p) ==> forall|i: int|
                0 <= i < size ==> p@.workers[i] == (Worker {
                    id: i as usize,
                    state: WorkerState::Idle,
                }),
            r matches Ok(p) ==> p@.open,
            r matches Ok(p) ==> p@.pending == Seq::<u64>::empty(),
            r matches Ok(p) ==> p@.submitted == Seq::<u64>::empty(),
            r matches Ok(p) ==> p@.delivered == Seq::<u64>::empty(),
            r matches Ok(p) ==> p@.executed == Seq::<u64>::empty(),
            r matches Err(e) ==> e.text() == "Cannot create pool with zero threads."@,
    {
        if size == 0 {
            let msg = "Cannot create pool with zero threads.";
            return Err(PoolCreationError(msg.to_string()));
        }
        let mut workers: Vec<Worker> = Vec::new();
        let mut i: usize = 0;
        while i < size
            invariant
                i <= size,
                workers@.len() == i,
                forall|k: int|
                    0 <= k < i ==> workers@[k] == (Worker {
                        id: k as usize,
                        state: WorkerState::Idle,
                    }),
            decreases size - i,
        {
            workers.push(Worker { id: i, state: WorkerState::Idle });
            i += 1;
        }
        let pool = Pool {
            workers,
            queue: JobQueue::new(),
            submitted: Vec::new(),
            delivered: Vec::new(),
            executed: Vec::new(),
        };
        proof {
            lemma_running_jobs_none(pool@.workers);
            assert(pool@.executed.to_multiset().add(running_jobs(pool@.workers)) =~= pool
                @.delivered.to_multiset());
            assert(pool@.delivered + pool@.pending =~= pool@.submitted);
        }
        Ok(pool)
    }

    /// Accept a job for eventual execution by whichever worker next receives
    /// it. Never waits for execution; it only queues. Succeeds exactly while
    /// the pool's producing end is open, and fails with the
    /// submission-after-teardown error once teardown has begun, leaving the
    /// pool unchanged.
    pub fn submit(&mut self, job: u64) -> (r: Result<(), SendError>)
        requires
            old(self)@.wf(),
        ensures
            final(self)@.wf(),
            final(self)@.workers == old(self)@.workers,
            final(self)@.open == old(self)@.open,
            final(self)@.delivered == old(self)@.delivered,
            final(self)@.executed == old(self)@.executed,
            old(self)@.open ==> r is Ok,
            old(self)@.open ==> final(self)@.pending == old(self)@.pending.push(job),
            old(self)@.open ==> final(self)@.submitted == old(self)@.submitted.push(job),
            !old(self)@.open ==> r is Err,
            !old(self)@.open ==> final(self)@ == old(self)@,
    {
        match self.queue.send(job) {
            Ok(()) => {
                self.submitted.push(job);
                proof {
                    assert(self@.delivered + self@.pending =~= self@.submitted);
                }
                Ok(())
            },
            Err(e) => {
                proof {
                    assert(self@ == old(self)@);
                }
                Err(e)
            },
        }
    }

    /// One receive attempt by worker `w`, who must be idle. In a running
    /// pool the worker blocks inside the queue; here the step is taken only
    /// once it would return, which the precondition states: a job is pending
    /// or the producing end is closed. If a job is pending the worker gets
    /// the oldest one — delivered to this worker alone, and struck from the
    /// queue, so no other worker can ever receive it. Only with the queue
    /// closed and drained does the worker observe closure and terminate.
    pub fn step_worker(&mut self, w: usize) -> (r: RecvOutcome)
        requires
            old(self)@.wf(),
            w < old(self)@.workers.len(),
            old(self)@.workers[w as int].state is Idle,
            old(self)@.pending.len() > 0 || !old(self)@.open,
        ensures
            final(self)@.wf(),
            final(self)@.workers.len() == old(self)@.workers.len(),
            forall|i: int|
                0 <= i < old(self)@.workers.len() && i != w ==> final(self)@.workers[i] == old(
                    self,
                )@.workers[i],
            final(self)@.open == old(self)@.open,
            final(self)@.submitted == old(self)@.submitted,
            final(self)@.executed == old(self)@.executed,
            old(self)@.pending.len() > 0 ==> r == RecvOutcome::Job(old(self)@.pending[0]),
            old(self)@.pending.len() > 0 ==> final(self)@.workers[w as int] == (Worker {
                id: w,
                state: WorkerState::Running(old(self)@.pending[0]),
            }),
            old(self)@.pending.len() > 0 ==> final(self)@.pending == old(self)@.pending.skip(1),
            old(self)@.pending.len() > 0 ==> final(self)@.delivered == old(self)@.delivered.push(
                old(self)@.pending[0],
            ),
            old(self)@.pending.len() == 0 ==> r == RecvOutcome::Closed,
            old(self)@.pending.len() == 0 ==> final(self)@.workers[w as int] == (Worker {
                id: w,
                state: WorkerState::Terminated,
            }),
            old(self)@.pending.len() == 0 ==> final(self)@.pending == old(self)@.pending,
            old(self)@.pending.len() == 0 ==> final(self)@.delivered == old(self)@.delivered,
    {
        match self.queue.receive() {
            RecvOutcome::Job(j) => {
                self.workers[w] = Worker { id: w, state: WorkerState::Running(j) };
                self.delivered.push(j);
                proof {
                    let ws = old(self)@.workers;
                    let oldw = ws[w as int];
                    let neww = Worker { id: w, state: WorkerState::Running(j) };
                    lemma_running_jobs_update(ws, w as int, neww);
                    assert(self@.workers =~= ws.update(w as int, neww));
                    assert(self@.delivered + self@.pending =~= old(self)@.submitted);
                    assert forall|x: u64|
                        self@.executed.to_multiset().add(running_jobs(self@.workers)).count(x)
                            == self@.delivered.to_multiset().count(x) by {
                        assert(running_jobs(self@.workers).add(job_of(oldw)).count(x)
                            == running_jobs(ws).add(job_of(neww)).count(x));
                        assert(old(self)@.executed.to_multiset().add(running_jobs(ws)).count(x)
                            == old(self)@.delivered.to_multiset().count(x));
                        assert(self@.delivered.to_multiset() =~= old(
                            self,
                        )@.delivered.to_multiset().insert(j));
                    }
                    assert(self@.executed.to_multiset().add(running_jobs(self@.workers))
                        =~= self@.delivered.to_multiset());
                }
                RecvOutcome::Job(j)
            },
            RecvOutcome::Closed => {
                self.workers[w] = Worker { id: w, state: WorkerState::Terminated };
                proof {
                    let ws = old(self)@.workers;
                    let oldw = ws[w as int];
                    let neww = Worker { id: w, state: WorkerState::Terminated };
                    lemma_running_jobs_update(ws, w as int, neww);
                    assert(self@.workers =~= ws.update(w as int, neww));
                    assert(running_jobs(self@.workers) =~= running_jobs(ws)) by {
                        assert forall|x: u64|
                            running_jobs(self@.workers).count(x) == running_jobs(ws).count(x) by {
                            assert(running_jobs(self@.workers).add(job_of(oldw)).count(x)
                                == running_jobs(ws).add(job_of(neww)).count(x));
                        }
                    }
                    assert(self@.executed.to_multiset().add(running_jobs(self@.workers))
                        == self@.delivered.to_multiset());
                }
                RecvOutcome::Closed
            },
        }
    }

    /// Worker `w`, who must be running a job, completes it: the job is
    /// recorded as executed — its one execution — and the worker goes back
    /// to waiting on the queue.
    pub fn finish_job(&mut self, w: usize)
        requires
            old(self)@.wf(),
            w < old(self)@.workers.len(),
            old(self)@.workers[w as int].state is Running,
        ensures
            final(self)@.wf(),
            final(self)@.workers.len() == old(self)@.workers.len(),
            forall|i: int|
                0 <= i < old(self)@.workers.len() && i != w ==> final(self)@.workers[i] == old(
                    self,
                )@.workers[i],
            final(self)@.workers[w as int] == (Worker { id: w, state: WorkerState::Idle }),
            final(self)@.open == old(self)@.open,
            final(self)@.pending == old(self)@.pending,
            final(self)@.submitted == old(self)@.submitted,
            final(self)@.delivered == old(self)@.delivered,
            final(self)@.executed == old(self)@.executed.push(
                old(self)@.workers[w as int].state->Running_0,
            ),
    {
        let job = match self.workers[w].state {
            WorkerState::Running(j) => j,
            _ => {
                proof {
                    assert(false);
                }
                0
            },
        };
        self.workers[w] = Worker { id: w, state: WorkerState::Idle };
        self.executed.push(job);
        proof {
            let ws = old(self)@.workers;
            let oldw = ws[w as int];
            let neww = Worker { id: w, state: WorkerState::Idle };
            lemma_running_jobs_update(ws, w as int, neww);
            assert(self@.workers =~= ws.update(w as int, neww));
            assert forall|x: u64|
                self@.executed.to_multiset().add(running_jobs(self@.workers)).count(x)
                    == self@.delivered.to_multiset().count(x) by {
                assert(running_jobs(self@.workers).add(job_of(oldw)).count(x) == running_jobs(
                    ws,
                ).add(job_of(neww)).count(x));
                assert(old(self)@.executed.to_multiset().add(running_jobs(ws)).count(x) == old(
                    self,
                )@.delivered.to_multiset().count(x));
                assert(self@.executed.to_multiset() =~= old(
                    self,
                )@.executed.to_multiset().insert(job));
            }
            assert(self@.executed.to_multiset().add(running_jobs(self@.workers))
                =~= self@.delivered.to_multiset());
        }
    }

    /// Begin teardown: close the producing end, so that no further job can
    /// be submitted. Jobs already queued stay queued and will still be
    /// delivered and run before any worker observes closure.
    pub fn begin_teardown(&mut self)
        requires
            old(self)@.wf(),
        ensures
            final(self)@.wf(),
            !final(self)@.open,
            final(self)@.workers == old(self)@.workers,
            final(self)@.pending == old(self)@.pending,
            final(self)@.submitted == old(self)@.submitted,
            final(self)@.delivered == old(self)@.delivered,
            final(self)@.executed == old(self)@.executed,
    {
        self.queue.close();
    }

    /// Tear the pool down. Closes the producing end, then drives every
    /// worker until it has observed closure and exited. Control returns only
    /// once every queued job has run to completion and every worker has
    /// terminated: teardown drops nothing that `submit` accepted.
    pub fn teardown(&mut self)
        requires
            old(self)@.wf(),
        ensures
            final(self)@.wf(),
            !final(self)@.open,
            final(self)@.workers.len() == old(self)@.workers.len(),
            final(self)@.all_terminated(),
            final(self)@.pending.len() == 0,
            final(self)@.submitted == old(self)@.submitted,
            final(self)@.delivered == old(self)@.submitted,
            final(self)@.executed.to_multiset() == old(self)@.submitted.to_multiset(),
    {
        self.begin_teardown();
        let n = self.workers.len();
        let mut w: usize = 0;
        while w < n
            invariant
                self@.wf(),
                !self@.open,
                n == self@.workers.len(),
                w <= n,
                self@.submitted == old(self)@.submitted,
                forall|i: int| 0 <= i < w ==> (#[trigger] self@.workers[i].state) is Terminated,
            decreases n - w,
        {
            let mut done = false;
            while !done
                invariant
                    self@.wf(),
                    !self@.open,
                    n == self@.workers.len(),
                    w < n,
                    self@.submitted == old(self)@.submitted,
                    forall|i: int|
                        0 <= i < w ==> (#[trigger] self@.workers[i].state) is Terminated,
                    done ==> self@.workers[w as int].state is Terminated,
                decreases drive_measure(self@, w as int, done),
            {
                match self.workers[w].state {
                    WorkerState::Idle => {
                        let _ = self.step_worker(w);
                    },
                    WorkerState::Running(_) => {
                        self.finish_job(w);
                    },
                    WorkerState::Terminated => {
                        done = true;
                    },
                }
            }
            w += 1;
        }
        proof {
            lemma_terminated_pool_drained(self@);
        }
    }

    /// How many workers the pool owns; fixed at construction.
    pub fn num_workers(&self) -> (n: usize)
        ensures
            n == self@.workers.len(),
    {
        self.workers.len()
    }

    /// Worker `w`: its identity and the current state of its thread.
    pub fn worker(&self, w: usize) -> (r: Worker)
        requires
            w < self@.workers.len(),
        ensures
            r == self@.workers[w as int],
    {
        self.workers[w]
    }

    /// Whether the producing end is still open, that is, teardown has not
    /// begun.
    pub fn is_open(&self) -> (b: bool)
        ensures
            b == self@.open,
    {
        self.queue.is_open()
    }

    /// How many jobs are queued and not yet delivered to any worker.
    pub fn pending_count(&self) -> (n: usize)
        ensures
            n == self@.pending.len(),
    {
        self.queue.len()
    }

    /// Every job accepted by `submit`, in submission order.
    pub fn submitted_jobs(&self) -> (v: &Vec<u64>)
        ensures
            v@ == self@.submitted,
    {
        &self.submitted
    }

    /// Every job handed to a worker so far, in delivery order.
    pub fn delivered_jobs(&self) -> (v: &Vec<u64>)
        ensures
            v@ == self@.delivered,
    {
        &self.delivered
    }

    /// Every job run to completion so far, in completion order.
    pub fn executed_jobs(&self) -> (v: &Vec<u64>)
        ensures
            v@ == self@.executed,
    {
        &self.executed
    }
}

/// Termination measure while one worker is driven to its exit: every step —
/// a delivery, a completion, the observation of closure — brings it down.
spec fn drive_measure(m: PoolModel, w: int, done: bool) -> int {
    2 * m.pending.len() + (if m.workers[w].state is Running {
        1int
    } else {
        0int
    }) + (if m.workers[w].state is Terminated {
        0int
    } else {
        1int
    }) + (if done {
        0int
    } else {
        1int
    })
}

/// First-in-first-out delivery: in every well-formed pool state, the jobs
/// delivered so far are exactly the oldest submitted jobs, in submission
/// order. Completion order across workers may differ; delivery order cannot.
pub proof fn lemma_delivery_is_fifo(m: PoolModel)
    requires
        m.wf(),
    ensures
        m.delivered.is_prefix_of(m.submitted),
{
    assert(m.delivered =~= m.submitted.subrange(0, m.delivered.len() as int));
}

/// Exactly-once accounting: in every well-formed pool state, each job tag
/// stands in the executed ledger, on a worker, or in the queue together
/// exactly as often as it was submitted — no job is run twice, none is
/// silently dropped.
pub proof fn lemma_jobs_conserved(m: PoolModel, job: u64)
    requires
        m.wf(),
    ensures
        m.executed.to_multiset().count(job) + running_jobs(m.workers).count(job)
            + m.pending.to_multiset().count(job) == m.submitted.to_multiset().count(job),
{
    vstd::seq_lib::lemma_multiset_commutative(m.delivered, m.pending);
}

/// Workers really are as many as requested: in every well-formed pool state
/// each worker carries its ordinal identity, so no two share one.
pub proof fn lemma_worker_identities_distinct(m: PoolModel)
    requires
        m.wf(),
    ensures
        forall|i: int, j: int|
            0 <= i < m.workers.len() && 0 <= j < m.workers.len() && i != j ==> (
            #[trigger] m.workers[i].id) != (#[trigger] m.workers[j].id),
{
}

/// A fully terminated pool is fully drained: nothing is pending any more,
/// every submitted job was delivered, and the executed ledger accounts for
/// every job ever submitted.
pub proof fn lemma_terminated_pool_drained(m: PoolModel)
    requires
        m.wf(),
        m.all_terminated(),
    ensures
        m.pending.len() == 0,
        m.delivered == m.submitted,
        m.executed.to_multiset() == m.submitted.to_multiset(),
{
    assert forall|i: int| 0 <= i < m.workers.len() implies !(#[trigger] m.workers[i].state
        is Running) by {
        assert(m.workers[i].state is Terminated);
    }
    lemma_running_jobs_none(m.workers);
    assert(m.delivered =~= m.submitted);
    assert(m.executed.to_multiset() =~= m.executed.to_multiset().add(Multiset::empty()));
}

} // verus!
