use drive_mirror::queue::{Pool, WorkerStep};
use drive_mirror::walker::Job;

fn job(n: usize) -> Job {
    Job { path: format!("/root/f{}", n), parent_id: "R".to_string() }
}

/// Polls the workers in turn until none is left, and says who got which job.
fn drain(pool: &mut Pool, workers: usize) -> Vec<(usize, Job)> {
    let mut taken = Vec::new();
    let mut live: Vec<bool> = vec![true; workers];
    let mut rounds = 0;
    while live.iter().any(|l| *l) {
        rounds += 1;
        assert!(rounds < 10_000);
        for w in 0..workers {
            if !live[w] {
                continue;
            }
            match pool.poll(w) {
                WorkerStep::Transfer(j) => taken.push((w, j)),
                WorkerStep::Wait => panic!("a closed queue never makes a worker wait"),
                WorkerStep::Exit => live[w] = false,
            }
        }
    }
    taken
}

#[test]
fn pool_without_jobs_terminates() {
    for workers in 1..=8 {
        let mut pool = Pool::new(workers);
        assert!(!pool.is_drained());
        pool.close();
        let taken = drain(&mut pool, workers);
        assert!(taken.is_empty());
        assert!(pool.is_drained());
    }
}

#[test]
fn every_job_goes_to_exactly_one_worker() {
    for workers in [1usize, 2, 3, 8] {
        for jobs in [0usize, 1, 5, 17] {
            let mut pool = Pool::new(workers);
            for n in 0..jobs {
                assert_eq!(pool.submit(job(n)), Ok(()));
            }
            assert_eq!(pool.waiting_jobs(), jobs);
            pool.close();
            let taken = drain(&mut pool, workers);
            let got: Vec<Job> = taken.iter().map(|t| t.1.clone()).collect();
            let want: Vec<Job> = (0..jobs).map(job).collect();
            assert_eq!(got, want);
            assert_eq!(pool.waiting_jobs(), 0);
            assert!(pool.is_drained());
        }
    }
}

#[test]
fn open_empty_queue_makes_workers_wait() {
    let mut pool = Pool::new(2);
    assert_eq!(pool.poll(0), WorkerStep::Wait);
    assert_eq!(pool.poll(1), WorkerStep::Wait);
    assert_eq!(pool.submit(job(1)), Ok(()));
    assert_eq!(pool.poll(1), WorkerStep::Transfer(job(1)));
    assert_eq!(pool.poll(0), WorkerStep::Wait);
    assert!(!pool.is_drained());
}

#[test]
fn closed_queue_refuses_jobs() {
    let mut pool = Pool::new(1);
    pool.close();
    assert_eq!(pool.submit(job(3)), Err(job(3)));
    assert_eq!(pool.waiting_jobs(), 0);
}

#[test]
fn jobs_submitted_before_close_are_still_handed_out() {
    let mut pool = Pool::new(1);
    assert_eq!(pool.submit(job(1)), Ok(()));
    assert_eq!(pool.submit(job(2)), Ok(()));
    pool.close();
    assert!(!pool.is_drained());
    assert_eq!(pool.poll(0), WorkerStep::Transfer(job(1)));
    assert_eq!(pool.poll(0), WorkerStep::Transfer(job(2)));
    assert!(!pool.is_drained());
    assert_eq!(pool.poll(0), WorkerStep::Exit);
    assert!(pool.is_drained());
    assert_eq!(pool.poll(0), WorkerStep::Exit);
}

#[test]
fn unknown_worker_is_told_to_leave() {
    let mut pool = Pool::new(2);
    assert_eq!(pool.submit(job(1)), Ok(()));
    assert_eq!(pool.poll(2), WorkerStep::Exit);
    assert_eq!(pool.poll(usize::MAX), WorkerStep::Exit);
    assert_eq!(pool.waiting_jobs(), 1);
}

#[test]
fn pool_of_no_workers_is_drained_once_closed_and_empty() {
    let mut pool = Pool::new(0);
    assert!(!pool.is_drained());
    pool.close();
    assert!(pool.is_drained());
}
