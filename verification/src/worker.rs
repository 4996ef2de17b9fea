//! Workers: each an ordinal identity paired with the state of its thread,
//! which repeatedly pulls one job at a time from the shared queue.

use vstd::multiset::Multiset;
use vstd::prelude::*;

verus! {

broadcast use vstd::multiset::group_multiset_axioms;

/// The lifecycle of one worker thread. A worker is `Idle` while waiting on
/// the queue, `Running` the one job it has pulled, and `Terminated` once the
/// queue has reported closure; termination is final.
#[derive(Clone, Copy, Debug, PartialEq, Eq, Structural)]
pub enum WorkerState {
    Idle,
    Running(u64),
    Terminated,
}

/// One worker: its ordinal identity, fixed at pool construction, and the
/// current state of its thread.
#[derive(Clone, Copy, Debug, PartialEq, Eq, Structural)]
pub struct Worker {
    pub id: usize,
    pub state: WorkerState,
}

/// The jobs a single worker is running: one or none.
pub open spec fn job_of(w: Worker) -> Multiset<u64> {
    match w.state {
        WorkerState::Running(j) => Multiset::empty().insert(j),
        _ => Multiset::empty(),
    }
}

/// All jobs currently running, over the whole worker set. A multiset, since
/// two workers may be running jobs with equal tags.
pub open spec fn running_jobs(ws: Seq<Worker>) -> Multiset<u64>
    decreases ws.len(),
{
    if ws.len() == 0 {
        Multiset::empty()
    } else {
        running_jobs(ws.drop_last()).add(job_of(ws.last()))
    }
}

/// Replacing one worker's entry exchanges exactly that worker's contribution
/// to the running jobs, stated additively.
pub proof fn lemma_running_jobs_update(ws: Seq<Worker>, w: int, v: Worker)
    requires
        0 <= w < ws.len(),
    ensures
        running_jobs(ws.update(w, v)).add(job_of(ws[w])) == running_jobs(ws).add(job_of(v)),
    decreases ws.len(),
{
    let upd = ws.update(w, v);
    if w == ws.len() - 1 {
        assert(upd.drop_last() =~= ws.drop_last());
        assert(running_jobs(upd).add(job_of(ws[w]))
            =~= running_jobs(ws).add(job_of(v)));
    } else {
        let wsd = ws.drop_last();
        assert(upd.drop_last() =~= wsd.update(w, v));
        assert(upd.last() == ws.last());
        assert(wsd[w] == ws[w]);
        lemma_running_jobs_update(wsd, w, v);
        assert(running_jobs(upd) == running_jobs(wsd.update(w, v)).add(job_of(ws.last())));
        assert(running_jobs(ws) == running_jobs(wsd).add(job_of(ws.last())));
        assert forall|x: u64|
            running_jobs(upd).add(job_of(ws[w])).count(x) == running_jobs(ws).add(
                job_of(v),
            ).count(x) by {
            assert(running_jobs(wsd.update(w, v)).add(job_of(wsd[w])).count(x) == running_jobs(
                wsd,
            ).add(job_of(v)).count(x));
        }
        assert(running_jobs(upd).add(job_of(ws[w])) =~= running_jobs(ws).add(job_of(v)));
    }
}

/// A worker set in which nobody is running contributes no running jobs.
pub proof fn lemma_running_jobs_none(ws: Seq<Worker>)
    requires
        forall|i: int| 0 <= i < ws.len() ==> !(#[trigger] ws[i].state is Running),
    ensures
        running_jobs(ws) == Multiset::<u64>::empty(),
    decreases ws.len(),
{
    if ws.len() > 0 {
        lemma_running_jobs_none(ws.drop_last());
        assert(running_jobs(ws) =~= Multiset::<u64>::empty());
    }
}

} // verus!
