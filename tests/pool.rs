use worker_pool::pool::{PoolError, ThreadPool};
use worker_pool::worker::{Step, WorkerState};

fn run_label(step: Step<u32>) -> u32 {
    match step {
        Step::Run(j) => j,
        _ => panic!("expected a job"),
    }
}

#[test]
fn zero_size_is_refused() {
    let r = ThreadPool::<u32>::new(0);
    assert!(matches!(r, Err(PoolError::ZeroSize)));
}

#[test]
fn new_pool_has_size_idle_workers() {
    for size in 1usize..6 {
        let mut p = ThreadPool::<u32>::new(size).unwrap();
        assert_eq!(p.worker_count(), size);
        assert_eq!(p.pending_len(), 0);
        assert!(!p.shut_down());
        for id in 0..size {
            assert_eq!(p.state_of(id), Some(WorkerState::Idle));
            assert!(matches!(p.next_message(id), Step::Wait));
            assert_eq!(p.state_of(id), Some(WorkerState::Idle));
        }
        assert_eq!(p.state_of(size), None);
    }
}

#[test]
fn each_job_runs_exactly_once() {
    let mut p = ThreadPool::<u32>::new(3).unwrap();
    let n: u32 = 10;
    for j in 0..n {
        assert!(p.execute(j).is_ok());
    }
    assert_eq!(p.pending_len(), 10);
    let mut seen: Vec<u32> = Vec::new();
    let mut id = 0usize;
    while seen.len() < n as usize {
        match p.next_message(id) {
            Step::Run(j) => {
                seen.push(j);
                assert_eq!(p.state_of(id), Some(WorkerState::Running));
                assert!(p.finish_job(id));
            }
            _ => panic!("work was left in the queue"),
        }
        id = (id + 1) % 3;
    }
    assert_eq!(seen, (0..n).collect::<Vec<u32>>());
    assert_eq!(p.shutdown(), vec![0, 1, 2]);
    for id in 0..3 {
        assert!(matches!(p.next_message(id), Step::Stop));
        assert_eq!(p.state_of(id), Some(WorkerState::Stopped));
    }
    assert_eq!(p.pending_len(), 0);
}

#[test]
fn teardown_drains_work_before_terminating() {
    let mut p = ThreadPool::<u32>::new(2).unwrap();
    for j in 0..3 {
        assert!(p.execute(j).is_ok());
    }
    assert_eq!(p.shutdown(), vec![0, 1]);
    assert_eq!(p.pending_len(), 5);
    assert_eq!(run_label(p.next_message(0)), 0);
    assert_eq!(run_label(p.next_message(1)), 1);
    assert!(p.finish_job(1));
    assert_eq!(run_label(p.next_message(1)), 2);
    assert!(p.finish_job(0));
    assert!(matches!(p.next_message(0), Step::Stop));
    assert!(p.finish_job(1));
    assert!(matches!(p.next_message(1), Step::Stop));
    assert_eq!(p.pending_len(), 0);
}

#[test]
fn second_shutdown_joins_nothing() {
    let mut p = ThreadPool::<u32>::new(4).unwrap();
    assert!(p.execute(1).is_ok());
    assert_eq!(p.shutdown(), vec![0, 1, 2, 3]);
    let pending = p.pending_len();
    assert_eq!(pending, 5);
    assert_eq!(p.shutdown(), Vec::<usize>::new());
    assert_eq!(p.pending_len(), pending);
    assert!(p.shut_down());
}

#[test]
fn execute_after_shutdown_is_refused() {
    let mut p = ThreadPool::<u32>::new(1).unwrap();
    p.shutdown();
    assert!(matches!(p.execute(9), Err(PoolError::ShutDown)));
    assert_eq!(p.pending_len(), 1);
}

#[test]
fn interleaved_submitters_lose_nothing() {
    let mut p = ThreadPool::<u32>::new(2).unwrap();
    for k in 0..5u32 {
        assert!(p.execute(100 + k).is_ok());
        assert!(p.execute(200 + k).is_ok());
        if k % 2 == 0 {
            assert!(matches!(p.next_message(0), Step::Run(_)));
            assert!(p.finish_job(0));
        }
    }
    let mut seen: Vec<u32> = Vec::new();
    p.shutdown();
    loop {
        match p.next_message(1) {
            Step::Run(j) => {
                seen.push(j);
                assert!(p.finish_job(1));
            }
            Step::Stop => break,
            _ => panic!("unexpected step"),
        }
    }
    assert_eq!(seen, vec![201, 102, 202, 103, 203, 104, 204]);
}

#[test]
fn busy_or_unknown_worker_is_refused() {
    let mut p = ThreadPool::<u32>::new(2).unwrap();
    assert!(p.execute(1).is_ok());
    assert!(p.execute(2).is_ok());
    assert!(matches!(p.next_message(5), Step::Refused));
    assert_eq!(run_label(p.next_message(0)), 1);
    assert!(matches!(p.next_message(0), Step::Refused));
    assert_eq!(p.pending_len(), 1);
    assert!(!p.finish_job(1));
    assert!(!p.finish_job(7));
    assert!(p.finish_job(0));
    assert!(!p.finish_job(0));
}

#[test]
fn two_workers_drain_four_jobs_in_two_waves() {
    let mut p = ThreadPool::<u32>::new(2).unwrap();
    for j in 0..4 {
        assert!(p.execute(j).is_ok());
    }
    let mut log: Vec<u32> = Vec::new();
    let mut waves = 0;
    while p.pending_len() > 0 {
        let a = run_label(p.next_message(0));
        let b = run_label(p.next_message(1));
        // both lanes are busy: no third job starts in this wave
        assert!(matches!(p.next_message(0), Step::Refused));
        assert!(matches!(p.next_message(1), Step::Refused));
        log.push(a);
        log.push(b);
        assert!(p.finish_job(1));
        assert!(p.finish_job(0));
        waves += 1;
    }
    assert_eq!(waves, 2);
    let mut sorted = log.clone();
    sorted.sort();
    assert_eq!(sorted, vec![0, 1, 2, 3]);
    assert_eq!(p.shutdown(), vec![0, 1]);
}

#[derive(Debug, Clone, Copy, PartialEq)]
enum Job {
    Panics,
    Increments,
}

#[test]
fn worker_keeps_serving_after_a_failed_job() {
    let mut p = ThreadPool::<Job>::new(4).unwrap();
    assert!(p.execute(Job::Panics).is_ok());
    assert!(p.execute(Job::Increments).is_ok());
    let mut counter = 0;
    // worker 2 takes the failing job; its failure is caught and reported as done
    assert!(matches!(p.next_message(2), Step::Run(Job::Panics)));
    assert!(p.finish_job(2));
    assert_eq!(p.state_of(2), Some(WorkerState::Idle));
    match p.next_message(2) {
        Step::Run(Job::Increments) => counter += 1,
        _ => panic!("the counter job was not handed out"),
    }
    assert!(p.finish_job(2));
    assert_eq!(counter, 1);
    assert_eq!(p.shutdown(), vec![0, 1, 2, 3]);
    for id in 0..4 {
        assert!(matches!(p.next_message(id), Step::Stop));
    }
}

#[test]
fn teardown_without_work_stops_every_worker_at_once() {
    let mut p = ThreadPool::<u32>::new(3).unwrap();
    assert_eq!(p.shutdown(), vec![0, 1, 2]);
    assert_eq!(p.pending_len(), 3);
    for id in 0..3 {
        assert!(matches!(p.next_message(id), Step::Stop));
    }
    assert_eq!(p.pending_len(), 0);
    assert!(matches!(p.next_message(0), Step::Refused));
}
