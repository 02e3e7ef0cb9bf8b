use std::cell::Cell;
use std::rc::Rc;

use thread_pool::{Message, PoolClosed, Step, ThreadPool, Worker, WorkerState};

type Job = Box<dyn FnOnce()>;

/// Drives every running worker in turn until all have stopped, running each
/// job handed out; returns the jobs' results in the order they were taken.
fn drain<T>(pool: &mut ThreadPool<Box<dyn FnOnce() -> T>>) -> Vec<T> {
    let mut out = Vec::new();
    let mut rounds = 0;
    while !pool.all_stopped() {
        rounds += 1;
        assert!(rounds < 100_000, "the pool did not drain");
        for w in 0..pool.size() {
            if pool.worker_state(w) == WorkerState::Running {
                match pool.next_step(w) {
                    Step::Run(job) => out.push(job()),
                    Step::Wait => panic!("a running worker waited after shutdown"),
                    Step::Exit => {}
                }
            }
        }
    }
    out
}

#[test]
fn zero_size_is_refused() {
    let r = ThreadPool::<u32>::new(0);
    match r {
        Err(e) => assert_eq!(e.message(), "size must be greater than 0"),
        Ok(_) => panic!("a pool of size 0 was built"),
    }
}

#[test]
fn positive_size_starts_every_worker() {
    for size in [1usize, 2, 4, 7] {
        let pool = ThreadPool::<u32>::new(size).ok().unwrap();
        assert_eq!(pool.size(), size);
        assert!(pool.is_open());
        assert_eq!(pool.pending(), 0);
        assert!(!pool.all_stopped());
        for w in 0..size {
            assert_eq!(pool.worker_state(w), WorkerState::Running);
            assert_eq!(pool.worker_id(w), w);
        }
    }
}

#[test]
fn worker_waits_on_empty_queue() {
    let mut pool = ThreadPool::<u32>::new(2).ok().unwrap();
    assert!(pool.next_step(1).is_wait());
    assert_eq!(pool.worker_state(1), WorkerState::Running);
    assert_eq!(pool.pending(), 0);
}

#[test]
fn every_job_is_taken_once_in_order() {
    let mut pool = ThreadPool::<Box<dyn FnOnce() -> u32>>::new(3).ok().unwrap();
    for i in 0..10u32 {
        assert!(pool.execute(Box::new(move || i)).is_ok());
    }
    assert_eq!(pool.pending(), 10);
    assert!(pool.shutdown());
    assert_eq!(pool.pending(), 13);
    let taken = drain(&mut pool);
    assert_eq!(taken, (0..10).collect::<Vec<u32>>());
    assert_eq!(pool.pending(), 0);
    assert!(pool.all_stopped());
}

#[test]
fn shutdown_twice_changes_nothing() {
    let mut pool = ThreadPool::<u32>::new(3).ok().unwrap();
    assert!(pool.execute(7).is_ok());
    assert!(pool.shutdown());
    assert_eq!(pool.pending(), 4);
    assert!(!pool.shutdown());
    assert_eq!(pool.pending(), 4);
    assert!(!pool.is_open());
    let mut exits = 0;
    for w in 0..3 {
        loop {
            match pool.next_step(w) {
                Step::Run(j) => assert_eq!(j, 7),
                Step::Wait => panic!("a running worker waited after shutdown"),
                Step::Exit => {
                    exits += 1;
                    break;
                }
            }
        }
    }
    assert_eq!(exits, 3);
    assert!(pool.all_stopped());
    assert!(!pool.shutdown());
    assert_eq!(pool.pending(), 0);
}

#[test]
fn execute_after_shutdown_is_refused() {
    let mut pool = ThreadPool::<Job>::new(2).ok().unwrap();
    let ran = Rc::new(Cell::new(false));
    assert!(pool.shutdown());
    let flag = ran.clone();
    assert_eq!(pool.execute(Box::new(move || flag.set(true))), Err(PoolClosed));
    assert_eq!(pool.pending(), 2);
    for w in 0..2 {
        assert!(pool.next_step(w).is_exit());
    }
    assert!(pool.all_stopped());
    assert!(!ran.get());
    let flag = ran.clone();
    assert_eq!(pool.execute(Box::new(move || flag.set(true))), Err(PoolClosed));
    assert!(!ran.get());
}

#[test]
fn hundred_jobs_on_four_workers() {
    let mut pool = ThreadPool::<Box<dyn FnOnce()>>::new(4).ok().unwrap();
    let counter = Rc::new(Cell::new(0u32));
    for _ in 0..100 {
        let c = counter.clone();
        assert!(pool.execute(Box::new(move || c.set(c.get() + 1))).is_ok());
    }
    assert!(pool.shutdown());
    drain(&mut pool);
    assert_eq!(counter.get(), 100);
    assert!(pool.all_stopped());
}

#[test]
fn in_flight_job_is_not_preempted_by_shutdown() {
    let mut pool = ThreadPool::<u32>::new(2).ok().unwrap();
    assert!(pool.execute(1).is_ok());
    assert!(pool.execute(2).is_ok());
    // worker 0 takes the long job and is busy with it
    let long = pool.next_step(0);
    assert!(matches!(long, Step::Run(1)));
    assert!(matches!(pool.next_step(1), Step::Run(2)));
    assert!(pool.shutdown());
    assert!(pool.next_step(1).is_exit());
    // the other terminate waits until the busy worker asks again
    assert!(!pool.all_stopped());
    assert_eq!(pool.pending(), 1);
    assert_eq!(pool.worker_state(0), WorkerState::Running);
    assert!(pool.next_step(0).is_exit());
    assert!(pool.all_stopped());
    assert_eq!(pool.pending(), 0);
}

#[test]
fn worker_stops_only_on_terminate() {
    let mut w = Worker::new(5);
    assert_eq!(w.id(), 5);
    assert_eq!(w.state(), WorkerState::Running);
    assert_eq!(w.handle(Message::NewJob(9u32)), Some(9));
    assert_eq!(w.state(), WorkerState::Running);
    assert_eq!(w.handle(Message::<u32>::Terminate), None);
    assert_eq!(w.state(), WorkerState::Stopped);
    assert_eq!(w.id(), 5);
}
