use workpool::pool::Pool;
use workpool::queue::RecvOutcome;
use workpool::worker::WorkerState;

#[test]
fn pool_has_requested_worker_count() {
    let pool = Pool::new(4).unwrap();
    assert_eq!(pool.num_workers(), 4);
    for i in 0..4 {
        let w = pool.worker(i);
        assert_eq!(w.id, i);
        assert_eq!(w.state, WorkerState::Idle);
    }
    assert!(pool.is_open());
    assert_eq!(pool.pending_count(), 0);
}

#[test]
fn zero_size_pool_is_refused() {
    let r = Pool::new(0);
    assert!(r.is_err());
    let e = r.err().unwrap();
    assert_eq!(e.message().as_str(), "Cannot create pool with zero threads.");
}

#[test]
fn single_job_executed_exactly_once() {
    let mut pool = Pool::new(3).unwrap();
    assert!(pool.submit(42).is_ok());
    assert_eq!(pool.pending_count(), 1);
    // One worker receives it; the queue no longer holds it, so no other
    // worker ever can.
    assert_eq!(pool.step_worker(0), RecvOutcome::Job(42));
    assert_eq!(pool.pending_count(), 0);
    assert_eq!(pool.worker(0).state, WorkerState::Running(42));
    assert_eq!(pool.worker(1).state, WorkerState::Idle);
    assert_eq!(pool.worker(2).state, WorkerState::Idle);
    pool.finish_job(0);
    assert_eq!(pool.worker(0).state, WorkerState::Idle);
    assert_eq!(pool.delivered_jobs().as_slice(), &[42]);
    assert_eq!(pool.executed_jobs().as_slice(), &[42]);
}

#[test]
fn delivery_preserves_submission_order() {
    let mut pool = Pool::new(2).unwrap();
    assert!(pool.submit(10).is_ok());
    assert!(pool.submit(20).is_ok());
    assert!(pool.submit(30).is_ok());
    // Whichever workers pull, and in whatever interleaving, delivery takes
    // the queue's front: submission order.
    assert_eq!(pool.step_worker(1), RecvOutcome::Job(10));
    assert_eq!(pool.step_worker(0), RecvOutcome::Job(20));
    pool.finish_job(1);
    assert_eq!(pool.step_worker(1), RecvOutcome::Job(30));
    assert_eq!(pool.delivered_jobs().as_slice(), &[10, 20, 30]);
}

#[test]
fn thousand_jobs_all_executed_after_teardown() {
    let mut pool = Pool::new(4).unwrap();
    for j in 0..1000u64 {
        assert!(pool.submit(j).is_ok());
    }
    pool.teardown();
    assert_eq!(pool.executed_jobs().len(), 1000);
    let mut seen = pool.executed_jobs().clone();
    seen.sort();
    let all: Vec<u64> = (0..1000u64).collect();
    assert_eq!(seen, all);
}

#[test]
fn teardown_waits_for_queued_jobs_and_worker_exit() {
    let mut pool = Pool::new(2).unwrap();
    for j in [3u64, 1, 4, 1, 5] {
        assert!(pool.submit(j).is_ok());
    }
    pool.teardown();
    // Every queued job ran before any worker observed closure.
    assert_eq!(pool.pending_count(), 0);
    let mut seen = pool.executed_jobs().clone();
    seen.sort();
    assert_eq!(seen, vec![1, 1, 3, 4, 5]);
    for i in 0..2 {
        assert_eq!(pool.worker(i).state, WorkerState::Terminated);
    }
}

#[test]
fn submit_after_teardown_fails() {
    let mut pool = Pool::new(1).unwrap();
    assert!(pool.submit(1).is_ok());
    pool.begin_teardown();
    assert!(pool.submit(2).is_err());
    // The refused job left no trace; the accepted one is still owed.
    assert_eq!(pool.submitted_jobs().as_slice(), &[1]);
    assert_eq!(pool.pending_count(), 1);
    pool.teardown();
    assert!(pool.submit(3).is_err());
    assert_eq!(pool.executed_jobs().as_slice(), &[1]);
}

#[test]
fn worker_terminates_only_on_drained_closed_queue() {
    let mut pool = Pool::new(1).unwrap();
    pool.begin_teardown();
    assert_eq!(pool.step_worker(0), RecvOutcome::Closed);
    assert_eq!(pool.worker(0).state, WorkerState::Terminated);
}

#[test]
fn two_workers_complete_out_of_order() {
    // Pool of two; job A (tag 1) is slow, job B (tag 2) immediate. B may
    // finish first, yet both run, and delivery kept submission order.
    let mut pool = Pool::new(2).unwrap();
    assert!(pool.submit(1).is_ok());
    assert!(pool.submit(2).is_ok());
    assert_eq!(pool.step_worker(0), RecvOutcome::Job(1));
    assert_eq!(pool.step_worker(1), RecvOutcome::Job(2));
    pool.finish_job(1);
    pool.finish_job(0);
    assert_eq!(pool.delivered_jobs().as_slice(), &[1, 2]);
    assert_eq!(pool.executed_jobs().as_slice(), &[2, 1]);
    assert!(pool.executed_jobs().contains(&1));
    assert!(pool.executed_jobs().contains(&2));
}
