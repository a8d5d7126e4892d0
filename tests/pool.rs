use hello::{FnBox, Message, PoolCreationError, ThreadPool};
use std::sync::{Arc, Mutex};

fn take_job(pool: &mut ThreadPool<u32>, worker: usize) -> Option<u32> {
    match pool.next_message(worker) {
        Some(Message::NewJob(j)) => Some(j),
        Some(Message::Terminate) => panic!("unexpected terminate"),
        None => None,
    }
}

#[test]
fn create_zero_fails() {
    let r = ThreadPool::<u32>::new(0);
    assert!(matches!(r, Err(PoolCreationError::ZeroWorkers)));
}

#[test]
fn create_yields_n_live_workers() {
    for n in 1..6usize {
        let pool = ThreadPool::<u32>::new(n).unwrap();
        assert_eq!(pool.worker_count(), n);
        assert_eq!(pool.live_workers(), n);
        assert_eq!(pool.pending(), 0);
    }
}

#[test]
fn more_jobs_than_workers_each_delivered_once_in_order() {
    let mut pool = ThreadPool::<u32>::new(2).unwrap();
    for j in 0..5u32 {
        pool.execute(j);
    }
    assert_eq!(pool.pending(), 5);
    let mut seen = Vec::new();
    let mut w = 0usize;
    while let Some(j) = take_job(&mut pool, w) {
        seen.push(j);
        w = 1 - w;
    }
    assert_eq!(seen, vec![0, 1, 2, 3, 4]);
    assert_eq!(pool.pending(), 0);
    assert_eq!(take_job(&mut pool, 0), None);
}

#[test]
fn empty_queue_gives_nothing() {
    let mut pool = ThreadPool::<u32>::new(3).unwrap();
    assert_eq!(take_job(&mut pool, 2), None);
    assert_eq!(pool.live_workers(), 3);
}

#[test]
fn shutdown_sends_one_terminate_per_worker() {
    let mut pool = ThreadPool::<u32>::new(3).unwrap();
    pool.execute(7);
    pool.shutdown();
    assert_eq!(pool.pending(), 4);
    assert_eq!(take_job(&mut pool, 1), Some(7));
    for w in 0..3usize {
        assert!(matches!(pool.next_message(w), Some(Message::Terminate)));
    }
    assert_eq!(pool.pending(), 0);
    assert_eq!(pool.live_workers(), 0);
}

#[test]
fn stopped_worker_takes_nothing_more() {
    let mut pool = ThreadPool::<u32>::new(2).unwrap();
    pool.shutdown();
    assert!(matches!(pool.next_message(0), Some(Message::Terminate)));
    pool.execute(9);
    assert!(pool.next_message(0).is_none());
    assert_eq!(pool.live_workers(), 1);
    assert!(matches!(pool.next_message(1), Some(Message::Terminate)));
    assert!(pool.next_message(1).is_none());
    assert_eq!(pool.pending(), 1);
}

#[test]
fn busy_worker_does_not_hold_up_others() {
    let mut pool = ThreadPool::<u32>::new(2).unwrap();
    pool.execute(1);
    pool.execute(2);
    pool.execute(3);
    // worker 0 takes a slow job and has not come back yet
    assert_eq!(take_job(&mut pool, 0), Some(1));
    assert_eq!(take_job(&mut pool, 1), Some(2));
    assert_eq!(take_job(&mut pool, 1), Some(3));
}

#[test]
fn boxed_jobs_run_once_through_the_pool() {
    let log = Arc::new(Mutex::new(Vec::new()));
    let mut pool = ThreadPool::<Box<dyn FnBox + Send>>::new(2).unwrap();
    for i in 0..4u32 {
        let log = Arc::clone(&log);
        pool.execute(Box::new(move || log.lock().unwrap().push(i)));
    }
    let mut w = 0usize;
    while let Some(m) = pool.next_message(w) {
        match m {
            Message::NewJob(job) => job.call_box(),
            Message::Terminate => panic!("unexpected terminate"),
        }
        w = (w + 1) % 2;
    }
    assert_eq!(*log.lock().unwrap(), vec![0, 1, 2, 3]);
}

#[test]
fn worker_stays_alive_after_unsupported_request() {
    let replies = Arc::new(Mutex::new(Vec::new()));
    let mut pool = ThreadPool::<Box<dyn FnBox + Send>>::new(1).unwrap();
    for raw in [&b"PUT /x HTTP/1.1\r\n"[..], &b"GET /y HTTP/1.1\r\n"[..]] {
        let replies = Arc::clone(&replies);
        pool.execute(Box::new(move || {
            let a = hello::plan_connection(raw, &hello::Setting::default());
            replies.lock().unwrap().push(a);
        }));
    }
    for _ in 0..2 {
        match pool.next_message(0) {
            Some(Message::NewJob(job)) => job.call_box(),
            _ => panic!("expected a job"),
        }
        assert_eq!(pool.live_workers(), 1);
    }
    let got = replies.lock().unwrap();
    assert_eq!(got[0], hello::Action::Reply(String::from("HTTP/1.1 405 METHOD NOT ALLOWED\r\n\r\n")));
    assert_eq!(got[1], hello::Action::ReadFile(String::from("./y")));
}
