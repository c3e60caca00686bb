use tokio_events::dispatcher::{
    answer_try_send, hashed_worker, hold_back, routing_key, worker_for_hash, queue_length, DispatchCounters, DispatcherStats,
    NoOpDispatcher, RoundRobin, TrySendOutcome, WorkerConfig,
};
use tokio_events::error::Error;

#[test]
fn test_dispatcher_stats() {
    let mut stats = DispatcherStats::new();

    stats.update_dispatch_time(100);
    assert_eq!(stats.avg_dispatch_time_us, 100);

    stats.events_dispatched = 1;
    stats.update_dispatch_time(200);
    assert_eq!(stats.avg_dispatch_time_us, 150);
}

#[test]
fn test_running_average_rounds_down() {
    let mut stats = DispatcherStats::new();
    stats.events_dispatched = 2;
    stats.avg_dispatch_time_us = 10;
    stats.update_dispatch_time(11);
    assert_eq!(stats.avg_dispatch_time_us, 10);
    assert_eq!(stats.events_dispatched, 2);
}

#[test]
fn test_counters_snapshot() {
    let mut c = DispatchCounters::new();
    let s = c.snapshot(0);
    assert_eq!(s.avg_dispatch_time_us, 0);
    c.record_success(30);
    c.record_success(50);
    c.record_errors(1);
    c.observe_queue_size(7);
    c.observe_queue_size(3);
    let s = c.snapshot(2);
    assert_eq!(s.events_dispatched, 2);
    assert_eq!(s.dispatch_errors, 1);
    assert_eq!(s.avg_dispatch_time_us, 40);
    assert_eq!(s.max_queue_size, 7);
    assert_eq!(s.queue_size, 2);
}

#[test]
fn test_counters_wrap_like_atomics() {
    let mut c = DispatchCounters::new();
    c.total_dispatch_time_us = u64::MAX;
    c.record_success(2);
    assert_eq!(c.total_dispatch_time_us, 1);
    assert_eq!(c.events_dispatched, 1);
}

#[test]
fn test_queue_length() {
    assert_eq!(queue_length(100, 60), 40);
    assert_eq!(queue_length(100, 100), 0);
    assert_eq!(queue_length(10, 20), 0);
}

#[test]
fn test_hold_back_future_events() {
    assert_eq!(hold_back(Some(1_500), 1_000), Some(500));
    assert_eq!(hold_back(Some(1_000), 1_000), None);
    assert_eq!(hold_back(Some(900), 1_000), None);
    assert_eq!(hold_back(None, 1_000), None);
    assert_eq!(hold_back(Some(i64::MAX), i64::MIN), Some(u64::MAX));
}

#[test]
fn test_full_queue_drops_closed_queue_fails() {
    let mut c = DispatchCounters::new();
    assert!(answer_try_send(TrySendOutcome::Sent, &mut c).is_ok());
    assert_eq!(c.dispatch_errors, 0);
    assert!(answer_try_send(TrySendOutcome::Full, &mut c).is_ok());
    assert_eq!(c.dispatch_errors, 1);
    let r = answer_try_send(TrySendOutcome::Closed, &mut c);
    assert!(matches!(r, Err(Error::Internal(ref m)) if m == "Event channel closed"));
    assert_eq!(c.dispatch_errors, 1);
}

#[test]
fn test_noop_dispatcher() {
    let d = NoOpDispatcher;
    assert!(d.is_running());
    assert!(d.accept().is_ok());
    let s = d.stats();
    assert_eq!(s.events_dispatched, 0);
    assert_eq!(s.max_queue_size, 0);
}

#[test]
fn test_round_robin() {
    let mut rr = RoundRobin::new();
    let picks: Vec<usize> = (0..5).map(|_| rr.next_index(2)).collect();
    assert_eq!(picks, vec![0, 1, 0, 1, 0]);
    let mut edge = RoundRobin { next_worker: usize::MAX };
    let i = edge.next_index(4);
    assert_eq!(i, usize::MAX % 4);
    assert_eq!(edge.next_worker, 0);
}

#[test]
fn test_hashed_worker_follows_correlation() {
    let c = 0x1234_5678_9abc_def0_1122_3344_5566_7788u128;
    let expected = (fxhash::hash64(&uuid::Uuid::from_u128(c)) as usize) % 7;
    assert_eq!(hashed_worker(Some(c), 1, 7), expected);
    assert_eq!(hashed_worker(Some(c), 2, 7), expected);
    let by_event = (fxhash::hash64(&uuid::Uuid::from_u128(42)) as usize) % 5;
    assert_eq!(hashed_worker(None, 42, 5), by_event);
}

#[test]
fn test_worker_names() {
    let cfg = WorkerConfig { num_workers: 2, queue_size: 10, name_prefix: "test-worker".to_string() };
    assert_eq!(cfg.worker_name(0), "test-worker-0");
    assert_eq!(cfg.worker_name(17), "test-worker-17");
    let d = WorkerConfig::new();
    assert_eq!(d.num_workers, num_cpus::get());
    assert_eq!(d.queue_size, 1000);
    assert_eq!(d.name_prefix, "event-worker");
}

#[test]
fn test_routing_key_and_worker_choice() {
    assert_eq!(routing_key(Some(9), 4), 9);
    assert_eq!(routing_key(None, 4), 4);
    assert_eq!(worker_for_hash(17, 5), 2);
    assert_eq!(worker_for_hash(u64::MAX, 1), 0);
    assert!(hashed_worker(None, 4, 3) < 3);
}
