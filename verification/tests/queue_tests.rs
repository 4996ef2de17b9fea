use workpool::queue::{JobQueue, RecvOutcome};

#[test]
fn queue_delivers_in_fifo_order() {
    let mut q = JobQueue::new();
    assert_eq!(q.len(), 0);
    assert!(q.is_open());
    assert!(q.send(1).is_ok());
    assert!(q.send(2).is_ok());
    assert!(q.send(3).is_ok());
    assert_eq!(q.len(), 3);
    assert_eq!(q.receive(), RecvOutcome::Job(1));
    assert_eq!(q.receive(), RecvOutcome::Job(2));
    assert_eq!(q.len(), 1);
}

#[test]
fn closed_queue_refuses_send_but_drains() {
    let mut q = JobQueue::new();
    assert!(q.send(7).is_ok());
    q.close();
    assert!(!q.is_open());
    assert!(q.send(8).is_err());
    assert_eq!(q.len(), 1);
    // The job queued before close is still delivered before closure shows.
    assert_eq!(q.receive(), RecvOutcome::Job(7));
    assert_eq!(q.receive(), RecvOutcome::Closed);
}

#[test]
fn empty_closed_queue_reports_closure() {
    let mut q = JobQueue::new();
    q.close();
    assert_eq!(q.receive(), RecvOutcome::Closed);
    assert_eq!(q.receive(), RecvOutcome::Closed);
}
