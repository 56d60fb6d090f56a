use webserver::error::PoolError;
use webserver::model::{Dispatch, Phase, WorkerState};
use webserver::pool::Pool;

/// Lets the workers of `pool` take turns, each asking for work and ending
/// what it was given before the next one asks, until every worker has
/// stopped; then joins them. Returns the jobs in the order in which they
/// ended.
fn drive_to_stop(pool: &mut Pool<u32>) -> Vec<u32> {
    let size = pool.size();
    let mut ended = Vec::new();
    let mut stopped = 0;
    let mut rounds = 0;
    while stopped < size {
        rounds += 1;
        assert!(rounds < 100_000, "the pool does not drain");
        for w in 0..size {
            if pool.worker_state(w) == Some(WorkerState::Idle) {
                match pool.take(w) {
                    Dispatch::Run(job) => {
                        assert!(pool.running() <= size);
                        pool.finish(w, false);
                        ended.push(job);
                    }
                    Dispatch::Wait => panic!("a worker waits on a pool that is shut down"),
                    Dispatch::Exit => stopped += 1,
                }
            }
        }
    }
    for w in 0..size {
        assert_eq!(pool.worker_state(w), Some(WorkerState::Stopped));
        pool.join(w);
    }
    ended
}

#[test]
fn pool_of_size_zero_is_refused() {
    let r: Result<Pool<u32>, PoolError> = Pool::new(0);
    assert_eq!(r.err(), Some(PoolError::InvalidPoolSize));
}

#[test]
fn pool_of_negative_size_is_refused() {
    let r: Result<Pool<u32>, PoolError> = Pool::new(-1);
    assert_eq!(r.err(), Some(PoolError::InvalidPoolSize));
    let r: Result<Pool<u32>, PoolError> = Pool::new(isize::MIN);
    assert_eq!(r.err(), Some(PoolError::InvalidPoolSize));
}

#[test]
fn new_pool_is_active_with_idle_workers_and_nothing_queued() {
    let pool: Pool<u32> = Pool::new(4).ok().unwrap();
    assert_eq!(pool.size(), 4);
    assert_eq!(pool.phase(), Phase::Active);
    assert!(!pool.is_closed());
    assert_eq!(pool.queued(), 0);
    assert_eq!(pool.running(), 0);
    for w in 0..4 {
        assert_eq!(pool.worker_state(w), Some(WorkerState::Idle));
    }
    assert_eq!(pool.worker_state(4), None);
    assert_eq!(pool.worker_state(usize::MAX), None);
}

#[test]
fn pool_of_size_one_is_accepted() {
    let pool: Pool<u32> = Pool::new(1).ok().unwrap();
    assert_eq!(pool.size(), 1);
    assert_eq!(pool.worker_state(0), Some(WorkerState::Idle));
    assert_eq!(pool.worker_state(1), None);
}

#[test]
fn every_submitted_job_runs_exactly_once() {
    for size in 1..=5isize {
        for jobs in 0..=23u32 {
            let mut pool: Pool<u32> = Pool::new(size).ok().unwrap();
            for j in 0..jobs {
                assert_eq!(pool.execute(j), Ok(()));
            }
            assert_eq!(pool.queued(), jobs as usize);
            pool.shutdown();
            let mut ended = drive_to_stop(&mut pool);
            assert_eq!(pool.phase(), Phase::Stopped);
            assert_eq!(pool.queued(), 0);
            assert_eq!(pool.running(), 0);
            ended.sort();
            let expected: Vec<u32> = (0..jobs).collect();
            assert_eq!(ended, expected);
        }
    }
}

#[test]
fn jobs_submitted_while_others_run_are_not_lost() {
    let mut pool: Pool<u32> = Pool::new(2).ok().unwrap();
    assert_eq!(pool.execute(1), Ok(()));
    assert_eq!(pool.take(0), Dispatch::Run(1));
    assert_eq!(pool.execute(2), Ok(()));
    assert_eq!(pool.execute(3), Ok(()));
    assert_eq!(pool.take(1), Dispatch::Run(2));
    assert_eq!(pool.queued(), 1);
    pool.finish(1, false);
    assert_eq!(pool.take(1), Dispatch::Run(3));
    assert_eq!(pool.execute(4), Ok(()));
    pool.finish(0, false);
    assert_eq!(pool.take(0), Dispatch::Run(4));
    pool.finish(0, false);
    pool.finish(1, false);
    assert_eq!(pool.take(0), Dispatch::Wait);
    assert_eq!(pool.take(1), Dispatch::Wait);
    assert_eq!(pool.queued(), 0);
    assert_eq!(pool.running(), 0);
}

#[test]
fn never_more_jobs_run_than_there_are_workers() {
    let mut pool: Pool<u32> = Pool::new(3).ok().unwrap();
    for j in 0..10 {
        assert_eq!(pool.execute(j), Ok(()));
    }
    assert_eq!(pool.running(), 0);
    assert_eq!(pool.take(0), Dispatch::Run(0));
    assert_eq!(pool.running(), 1);
    assert_eq!(pool.take(1), Dispatch::Run(1));
    assert_eq!(pool.running(), 2);
    assert_eq!(pool.take(2), Dispatch::Run(2));
    assert_eq!(pool.running(), 3);
    assert_eq!(pool.queued(), 7);
    for w in 0..3 {
        assert_eq!(pool.worker_state(w), Some(WorkerState::Busy));
    }
    pool.finish(1, false);
    assert_eq!(pool.running(), 2);
    assert_eq!(pool.take(1), Dispatch::Run(3));
    assert_eq!(pool.running(), 3);
    assert_eq!(pool.size(), 3);
}

#[test]
fn shutdown_with_a_hundred_queued_jobs_runs_them_all() {
    let mut pool: Pool<u32> = Pool::new(4).ok().unwrap();
    for j in 0..100 {
        assert_eq!(pool.execute(j), Ok(()));
    }
    pool.shutdown();
    assert_eq!(pool.phase(), Phase::Draining);
    assert_eq!(pool.queued(), 100);
    let mut ended = drive_to_stop(&mut pool);
    assert_eq!(pool.phase(), Phase::Stopped);
    assert_eq!(ended.len(), 100);
    ended.sort();
    ended.dedup();
    let expected: Vec<u32> = (0..100).collect();
    assert_eq!(ended, expected);
}

#[test]
fn shutdown_lets_running_jobs_end() {
    let mut pool: Pool<u32> = Pool::new(2).ok().unwrap();
    assert_eq!(pool.execute(11), Ok(()));
    assert_eq!(pool.execute(12), Ok(()));
    assert_eq!(pool.execute(13), Ok(()));
    assert_eq!(pool.take(0), Dispatch::Run(11));
    pool.shutdown();
    assert_eq!(pool.phase(), Phase::Draining);
    assert_eq!(pool.worker_state(0), Some(WorkerState::Busy));
    assert_eq!(pool.running(), 1);
    assert_eq!(pool.take(1), Dispatch::Run(12));
    pool.finish(0, false);
    assert_eq!(pool.take(0), Dispatch::Run(13));
    pool.finish(1, false);
    assert_eq!(pool.take(1), Dispatch::Exit);
    assert_eq!(pool.worker_state(1), Some(WorkerState::Stopped));
    assert_eq!(pool.phase(), Phase::Draining);
    pool.join(1);
    assert_eq!(pool.phase(), Phase::Draining);
    pool.finish(0, false);
    assert_eq!(pool.take(0), Dispatch::Exit);
    pool.join(0);
    assert_eq!(pool.phase(), Phase::Stopped);
}

#[test]
fn a_fault_does_not_keep_later_jobs_from_running() {
    let mut pool: Pool<u32> = Pool::new(1).ok().unwrap();
    assert_eq!(pool.execute(666), Ok(()));
    for j in 0..10 {
        assert_eq!(pool.execute(j), Ok(()));
    }
    assert_eq!(pool.take(0), Dispatch::Run(666));
    pool.finish(0, true);
    assert_eq!(pool.worker_state(0), Some(WorkerState::Idle));
    assert_eq!(pool.phase(), Phase::Active);
    assert_eq!(pool.queued(), 10);
    let mut ended = Vec::new();
    for _ in 0..10 {
        match pool.take(0) {
            Dispatch::Run(job) => {
                pool.finish(0, false);
                ended.push(job);
            }
            _ => panic!("a queued job was not handed out"),
        }
    }
    assert_eq!(ended, vec![0, 1, 2, 3, 4, 5, 6, 7, 8, 9]);
}

#[test]
fn a_fault_on_one_worker_leaves_the_others_alone() {
    let mut pool: Pool<u32> = Pool::new(3).ok().unwrap();
    for j in 0..5 {
        assert_eq!(pool.execute(j), Ok(()));
    }
    assert_eq!(pool.take(0), Dispatch::Run(0));
    assert_eq!(pool.take(1), Dispatch::Run(1));
    pool.finish(0, true);
    assert_eq!(pool.worker_state(0), Some(WorkerState::Idle));
    assert_eq!(pool.worker_state(1), Some(WorkerState::Busy));
    assert_eq!(pool.worker_state(2), Some(WorkerState::Idle));
    assert_eq!(pool.running(), 1);
    assert_eq!(pool.take(2), Dispatch::Run(2));
    assert_eq!(pool.take(0), Dispatch::Run(3));
    pool.finish(1, true);
    assert_eq!(pool.take(1), Dispatch::Run(4));
    pool.finish(0, false);
    pool.finish(1, false);
    pool.finish(2, false);
    pool.shutdown();
    assert_eq!(drive_to_stop(&mut pool), Vec::<u32>::new());
    assert_eq!(pool.phase(), Phase::Stopped);
}

#[test]
fn a_faulting_and_a_sound_job_leave_the_same_pool() {
    let mut a: Pool<u32> = Pool::new(2).ok().unwrap();
    let mut b: Pool<u32> = Pool::new(2).ok().unwrap();
    for pool in [&mut a, &mut b] {
        assert_eq!(pool.execute(1), Ok(()));
        assert_eq!(pool.execute(2), Ok(()));
        assert_eq!(pool.take(1), Dispatch::Run(1));
    }
    a.finish(1, true);
    b.finish(1, false);
    assert_eq!(a.phase(), b.phase());
    assert_eq!(a.queued(), b.queued());
    assert_eq!(a.running(), b.running());
    for w in 0..2 {
        assert_eq!(a.worker_state(w), b.worker_state(w));
    }
    assert_eq!(a.take(1), Dispatch::Run(2));
    assert_eq!(b.take(1), Dispatch::Run(2));
}

#[test]
fn single_worker_runs_two_jobs_in_submission_order() {
    let mut pool: Pool<&str> = Pool::new(1).ok().unwrap();
    assert_eq!(pool.execute("first"), Ok(()));
    assert_eq!(pool.execute("second"), Ok(()));
    assert_eq!(pool.take(0), Dispatch::Run("first"));
    pool.finish(0, false);
    assert_eq!(pool.take(0), Dispatch::Run("second"));
    pool.finish(0, false);
    assert_eq!(pool.take(0), Dispatch::Wait);
}

#[test]
fn single_worker_ends_all_jobs_in_submission_order() {
    let mut pool: Pool<u32> = Pool::new(1).ok().unwrap();
    let jobs = vec![5, 3, 9, 3, 0, 7];
    for j in &jobs {
        assert_eq!(pool.execute(*j), Ok(()));
    }
    pool.shutdown();
    assert_eq!(drive_to_stop(&mut pool), jobs);
}

#[test]
fn jobs_are_handed_out_oldest_first_whoever_asks() {
    let mut pool: Pool<u32> = Pool::new(3).ok().unwrap();
    for j in [40, 10, 30, 20] {
        assert_eq!(pool.execute(j), Ok(()));
    }
    assert_eq!(pool.take(2), Dispatch::Run(40));
    assert_eq!(pool.take(0), Dispatch::Run(10));
    pool.finish(2, false);
    assert_eq!(pool.take(2), Dispatch::Run(30));
    assert_eq!(pool.take(1), Dispatch::Run(20));
}

#[test]
fn no_worker_is_alive_after_teardown() {
    let mut pool: Pool<u32> = Pool::new(4).ok().unwrap();
    for j in 0..6 {
        assert_eq!(pool.execute(j), Ok(()));
    }
    pool.shutdown();
    drive_to_stop(&mut pool);
    assert_eq!(pool.phase(), Phase::Stopped);
    assert_eq!(pool.size(), 4);
    assert_eq!(pool.running(), 0);
    for w in 0..4 {
        assert_eq!(pool.worker_state(w), Some(WorkerState::Joined));
    }
}

#[test]
fn pool_is_stopped_only_when_the_last_worker_is_joined() {
    let mut pool: Pool<u32> = Pool::new(3).ok().unwrap();
    pool.shutdown();
    for w in 0..3 {
        assert_eq!(pool.take(w), Dispatch::Exit);
        assert_eq!(pool.phase(), Phase::Draining);
    }
    pool.join(2);
    assert_eq!(pool.phase(), Phase::Draining);
    pool.join(0);
    assert_eq!(pool.phase(), Phase::Draining);
    pool.join(1);
    assert_eq!(pool.phase(), Phase::Stopped);
}

#[test]
fn execute_after_shutdown_is_refused_and_changes_nothing() {
    let mut pool: Pool<u32> = Pool::new(2).ok().unwrap();
    assert_eq!(pool.execute(1), Ok(()));
    pool.shutdown();
    assert!(pool.is_closed());
    assert_eq!(pool.execute(2), Err(PoolError::PoolClosed));
    assert_eq!(pool.queued(), 1);
    assert_eq!(pool.phase(), Phase::Draining);
    assert_eq!(drive_to_stop(&mut pool), vec![1]);
    assert_eq!(pool.execute(3), Err(PoolError::PoolClosed));
    assert_eq!(pool.phase(), Phase::Stopped);
    assert_eq!(pool.queued(), 0);
}

#[test]
fn shutdown_twice_is_shutdown_once() {
    let mut pool: Pool<u32> = Pool::new(2).ok().unwrap();
    assert_eq!(pool.execute(8), Ok(()));
    pool.shutdown();
    pool.shutdown();
    assert_eq!(pool.phase(), Phase::Draining);
    assert_eq!(pool.queued(), 1);
    assert_eq!(drive_to_stop(&mut pool), vec![8]);
    pool.shutdown();
    assert_eq!(pool.phase(), Phase::Stopped);
    for w in 0..2 {
        assert_eq!(pool.worker_state(w), Some(WorkerState::Joined));
    }
}

#[test]
fn idle_worker_waits_while_the_pool_is_active_and_empty() {
    let mut pool: Pool<u32> = Pool::new(2).ok().unwrap();
    assert_eq!(pool.take(0), Dispatch::Wait);
    assert_eq!(pool.worker_state(0), Some(WorkerState::Idle));
    assert_eq!(pool.take(0), Dispatch::Wait);
    assert_eq!(pool.execute(77), Ok(()));
    assert_eq!(pool.take(0), Dispatch::Run(77));
    assert_eq!(pool.worker_state(0), Some(WorkerState::Busy));
    assert_eq!(pool.take(1), Dispatch::Wait);
    assert_eq!(pool.phase(), Phase::Active);
}

#[test]
fn error_messages_name_the_cause() {
    assert_eq!(PoolError::InvalidPoolSize.message(), "pool size must be at least 1");
    assert_eq!(PoolError::PoolClosed.message(), "pool is shut down");
    assert_ne!(PoolError::InvalidPoolSize, PoolError::PoolClosed);
}

#[test]
fn teardown_takes_one_act_for_every_step_left() {
    let mut pool: Pool<u32> = Pool::new(2).ok().unwrap();
    for j in 0..3 {
        assert_eq!(pool.execute(j), Ok(()));
    }
    assert_eq!(pool.take(0), Dispatch::Run(0));
    pool.shutdown();
    // Two waiting jobs at two acts each, three for the busy worker, two for the idle one.
    let mut acts = 0;
    while pool.phase() != Phase::Stopped {
        assert!(acts < 9);
        let w = (0..2)
            .find(|w| pool.worker_state(*w) != Some(WorkerState::Joined))
            .unwrap();
        match pool.worker_state(w).unwrap() {
            WorkerState::Idle => {
                assert_ne!(pool.take(w), Dispatch::Wait);
            }
            WorkerState::Busy => pool.finish(w, false),
            WorkerState::Stopped => pool.join(w),
            WorkerState::Joined => unreachable!(),
        }
        acts += 1;
    }
    assert_eq!(acts, 9);
    assert_eq!(pool.queued(), 0);
}
