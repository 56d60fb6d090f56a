use webserver::error::PoolError;
use webserver::queue::{JobQueue, Taken};

#[test]
fn new_queue_is_open_and_empty() {
    let q: JobQueue<u32> = JobQueue::new();
    assert_eq!(q.len(), 0);
    assert!(q.is_empty());
    assert!(!q.is_closed());
}

#[test]
fn queue_hands_jobs_out_in_submission_order() {
    let mut q: JobQueue<u32> = JobQueue::new();
    assert_eq!(q.submit(7), Ok(()));
    assert_eq!(q.submit(3), Ok(()));
    assert_eq!(q.submit(9), Ok(()));
    assert_eq!(q.len(), 3);
    assert!(!q.is_empty());
    assert_eq!(q.take(), Taken::Job(7));
    assert_eq!(q.take(), Taken::Job(3));
    assert_eq!(q.len(), 1);
    assert_eq!(q.submit(5), Ok(()));
    assert_eq!(q.take(), Taken::Job(9));
    assert_eq!(q.take(), Taken::Job(5));
    assert_eq!(q.take(), Taken::Empty);
}

#[test]
fn open_empty_queue_reports_empty_and_stays_usable() {
    let mut q: JobQueue<String> = JobQueue::new();
    assert_eq!(q.take(), Taken::Empty);
    assert_eq!(q.take(), Taken::Empty);
    assert_eq!(q.submit(String::from("late")), Ok(()));
    assert_eq!(q.take(), Taken::Job(String::from("late")));
}

#[test]
fn closed_queue_refuses_submissions() {
    let mut q: JobQueue<u32> = JobQueue::new();
    assert_eq!(q.submit(1), Ok(()));
    q.close();
    assert!(q.is_closed());
    assert_eq!(q.submit(2), Err(PoolError::PoolClosed));
    assert_eq!(q.len(), 1);
}

#[test]
fn closed_queue_is_drained_before_it_reports_closed() {
    let mut q: JobQueue<u32> = JobQueue::new();
    assert_eq!(q.submit(1), Ok(()));
    assert_eq!(q.submit(2), Ok(()));
    q.close();
    assert_eq!(q.len(), 2);
    assert_eq!(q.take(), Taken::Job(1));
    assert_eq!(q.take(), Taken::Job(2));
    assert_eq!(q.take(), Taken::Closed);
    assert_eq!(q.take(), Taken::Closed);
    assert!(q.is_closed());
    assert!(q.is_empty());
}

#[test]
fn closing_twice_is_closing_once() {
    let mut q: JobQueue<u32> = JobQueue::new();
    assert_eq!(q.submit(4), Ok(()));
    q.close();
    q.close();
    assert!(q.is_closed());
    assert_eq!(q.take(), Taken::Job(4));
    assert_eq!(q.take(), Taken::Closed);
}
