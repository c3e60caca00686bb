use tokio_events::config::{DispatcherConfig, EventBusConfig};

#[test]
fn test_high_throughput_config() {
    let config = EventBusConfig::high_throughput();
    assert_eq!(config.dispatcher.worker_threads, num_cpus::get() * 2);
    assert_eq!(config.dispatcher.max_queue_size, 50_000);
    assert_eq!(config.handler_channel_size, 1024);
    assert_eq!(config.max_retries, 1);
    assert!(!config.wait_for_persistence);
}

#[test]
fn test_reliable_config() {
    let config = EventBusConfig::reliable();
    assert!(config.wait_for_persistence);
    assert_eq!(config.max_retries, 5);
    assert!(!config.dispatcher.drop_on_full);
}

#[test]
fn test_ordered_config() {
    let config = EventBusConfig::ordered();
    assert_eq!(config.dispatcher.worker_threads, 1);
    assert!(!config.dispatcher.drop_on_full);
}

#[test]
fn test_dispatcher_config() {
    let config = DispatcherConfig::new()
        .max_queue_size(5000)
        .worker_threads(4)
        .drop_on_full(true);

    assert_eq!(config.max_queue_size, 5000);
    assert_eq!(config.worker_threads, 4);
    assert!(config.drop_on_full);
}

#[test]
fn test_default_config_values() {
    let config = EventBusConfig::for_cpus(8);
    assert_eq!(config.max_retries, 3);
    assert_eq!(config.retry_backoff, 100);
    assert_eq!(config.shutdown_timeout, 30_000);
    assert!(config.enable_tracing);
    assert_eq!(config.handler_channel_size, 256);
    assert_eq!(config.dlq_channel_size, 1000);
    assert!(!config.wait_for_persistence);
    assert_eq!(config.scheduler_tick_rate, 1000);
    assert_eq!(config.dispatcher.max_queue_size, 10_000);
    assert_eq!(config.dispatcher.worker_threads, 8);
    assert!(!config.dispatcher.drop_on_full);
    assert_eq!(config.dispatcher.processing_timeout_ms, 5000);
    assert!(config.dispatcher.enable_metrics);
    let d = DispatcherConfig::default();
    assert_eq!(d.worker_threads, num_cpus::get());
}

#[test]
fn test_preset_details() {
    let r = EventBusConfig::reliable_for(4);
    assert_eq!(r.retry_backoff, 500);
    assert_eq!(r.handler_channel_size, 512);
    assert_eq!(r.dlq_channel_size, 5000);
    assert_eq!(r.dispatcher.processing_timeout_ms, 30_000);
    assert_eq!(r.dispatcher.worker_threads, 4);

    let h = EventBusConfig::high_throughput_for(3);
    assert_eq!(h.dispatcher.worker_threads, 6);
    assert!(h.dispatcher.drop_on_full);
    assert_eq!(h.dispatcher.processing_timeout_ms, 1000);
    let huge = EventBusConfig::high_throughput_for(usize::MAX);
    assert_eq!(huge.dispatcher.worker_threads, usize::MAX);

    let t = EventBusConfig::test_for(16);
    assert_eq!(t.dispatcher.max_queue_size, 100);
    assert_eq!(t.dispatcher.worker_threads, 2);
    assert_eq!(t.shutdown_timeout, 5000);
    assert!(!t.enable_tracing);
    assert_eq!(t.handler_channel_size, 64);

    let o = EventBusConfig::ordered_for(16);
    assert_eq!(o.dispatcher.worker_threads, 1);
    assert_eq!(o.max_retries, 3);
}

#[test]
fn test_config_builders() {
    let c = EventBusConfig::for_cpus(2)
        .max_retries(7)
        .retry_backoff(250)
        .shutdown_timeout(10)
        .enable_tracing(false)
        .handler_channel_size(9)
        .dlq_channel_size(11)
        .wait_for_persistence(true)
        .scheduler_tick_rate(20)
        .dispatcher_config(|d| d.processing_timeout_ms(0).enable_metrics(false));
    assert_eq!(c.max_retries, 7);
    assert_eq!(c.retry_backoff, 250);
    assert_eq!(c.shutdown_timeout, 10);
    assert!(!c.enable_tracing);
    assert_eq!(c.handler_channel_size, 9);
    assert_eq!(c.dlq_channel_size, 11);
    assert!(c.wait_for_persistence);
    assert_eq!(c.scheduler_tick_rate, 20);
    assert_eq!(c.dispatcher.processing_timeout_ms, 0);
    assert!(!c.dispatcher.enable_metrics);
    assert_eq!(c.dispatcher.worker_threads, 2);
}
