//! The shared job channel: an unbounded queue carrying jobs from any number
//! of submitters to the workers, each job delivered to exactly one receiver,
//! in first-in-first-out order.

use vstd::prelude::*;

verus! {

/// What one receive attempt yields: the oldest queued job, or the signal that
/// the queue is closed and fully drained, after which a worker exits.
#[derive(Clone, Copy, Debug, PartialEq, Eq, Structural)]
pub enum RecvOutcome {
    Job(u64),
    Closed,
}

/// The error `send` reports once the producing end has been closed and the
/// job can therefore never be received.
#[derive(Clone, Copy, Debug, PartialEq, Eq, Structural)]
pub struct SendError;

/// Ghost image of a queue: the jobs still pending, oldest first, and whether
/// the producing end is still open.
pub struct QueueModel {
    pub pending: Seq<u64>,
    pub open: bool,
}

/// The job queue. Jobs are tags chosen by the submitter; the queue never
/// inspects them. It is unbounded: `send` never waits, it only fails once the
/// queue has been closed.
pub struct JobQueue {
    jobs: Vec<u64>,
    open: bool,
}

impl View for JobQueue {
    type V = QueueModel;

    closed spec fn view(&self) -> QueueModel {
        QueueModel { pending: self.jobs@, open: self.open }
    }
}

impl JobQueue {
    /// A fresh queue: empty, with the producing end open.
    pub fn new() -> (q: JobQueue)
        ensures
            q@.pending == Seq::<u64>::empty(),
            q@.open,
    {
        JobQueue { jobs: Vec::new(), open: true }
    }

    /// Enqueue a job behind all those already pending. Succeeds exactly when
    /// the producing end is still open; a queued job is not yet delivered.
    pub fn send(&mut self, job: u64) -> (r: Result<(), SendError>)
        ensures
            final(self)@.open == old(self)@.open,
            old(self)@.open ==> r is Ok && final(self)@.pending == old(self)@.pending.push(job),
            !old(self)@.open ==> r is Err && final(self)@.pending == old(self)@.pending,
    {
        if self.open {
            self.jobs.push(job);
            Ok(())
        } else {
            Err(SendError)
        }
    }

    /// One receive by a worker. In a running pool the receiving call blocks
    /// until a job arrives or the queue closes; here it is made only once one
    /// of those holds, which the precondition states. The oldest job is
    /// handed out if any is pending — even after close, so that queued work
    /// drains before closure is ever reported.
    pub fn receive(&mut self) -> (r: RecvOutcome)
        requires
            old(self)@.pending.len() > 0 || !old(self)@.open,
        ensures
            final(self)@.open == old(self)@.open,
            old(self)@.pending.len() > 0 ==> r == RecvOutcome::Job(old(self)@.pending[0]),
            old(self)@.pending.len() > 0 ==> final(self)@.pending == old(self)@.pending.skip(1),
            old(self)@.pending.len() == 0 ==> r == RecvOutcome::Closed,
            old(self)@.pending.len() == 0 ==> final(self)@.pending == old(self)@.pending,
    {
        if self.jobs.len() > 0 {
            let j = self.jobs.remove(0);
            proof {
                assert(self.jobs@ =~= old(self).jobs@.skip(1));
            }
            RecvOutcome::Job(j)
        } else {
            RecvOutcome::Closed
        }
    }

    /// Close the producing end. Pending jobs stay queued and can still be
    /// received; only further `send` calls fail.
    pub fn close(&mut self)
        ensures
            !final(self)@.open,
            final(self)@.pending == old(self)@.pending,
    {
        self.open = false;
    }

    /// How many jobs are queued and not yet delivered.
    pub fn len(&self) -> (n: usize)
        ensures
            n == self@.pending.len(),
    {
        self.jobs.len()
    }

    /// Whether the producing end is still open.
    pub fn is_open(&self) -> (b: bool)
        ensures
            b == self@.open,
    {
        self.open
    }
}

} // verus!
