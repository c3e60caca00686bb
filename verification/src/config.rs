//! Configuration of the dispatcher and of the event bus, with the presets the bus offers.
//! Durations are whole milliseconds.
use vstd::prelude::*;
use crate::foreign::cpu_count;

verus! {

/// How the dispatcher queues and processes events.
#[derive(Debug, Clone, Copy)]
pub struct DispatcherConfig {
    /// Capacity of the dispatch queue.
    pub max_queue_size: usize,
    /// Number of worker tasks.
    pub worker_threads: usize,
    /// Drop events when the queue is full instead of waiting.
    pub drop_on_full: bool,
    /// Time allowed to dispatch one event, in milliseconds (0: no limit).
    pub processing_timeout_ms: u64,
    /// Collect metrics.
    pub enable_metrics: bool,
}

/// The dispatcher's defaults on a machine with `cpus` CPUs.
pub open spec fn default_dispatcher(cpus: usize) -> DispatcherConfig {
    DispatcherConfig {
        max_queue_size: 10_000,
        worker_threads: cpus,
        drop_on_full: false,
        processing_timeout_ms: 5_000,
        enable_metrics: true,
    }
}

impl DispatcherConfig {
    /// The defaults on a machine with `cpus` CPUs: a queue of 10 000, one worker per CPU,
    /// waiting when full, 5 s per event, metrics on.
    pub fn for_cpus(cpus: usize) -> (c: DispatcherConfig)
        ensures
            c == default_dispatcher(cpus),
    {
        DispatcherConfig {
            max_queue_size: 10_000,
            worker_threads: cpus,
            drop_on_full: false,
            processing_timeout_ms: 5_000,
            enable_metrics: true,
        }
    }

    /// The defaults on this machine.
    pub fn new() -> (c: DispatcherConfig)
        ensures
            c.worker_threads >= 1,
            c == default_dispatcher(c.worker_threads),
    {
        DispatcherConfig::for_cpus(cpu_count())
    }

    /// Set the queue capacity.
    pub fn max_queue_size(self, size: usize) -> (c: DispatcherConfig)
        ensures
            c == (DispatcherConfig { max_queue_size: size, ..self }),
    {
        DispatcherConfig { max_queue_size: size, ..self }
    }

    /// Set the number of workers.
    pub fn worker_threads(self, threads: usize) -> (c: DispatcherConfig)
        ensures
            c == (DispatcherConfig { worker_threads: threads, ..self }),
    {
        DispatcherConfig { worker_threads: threads, ..self }
    }

    /// Set whether events are dropped when the queue is full.
    pub fn drop_on_full(self, drop: bool) -> (c: DispatcherConfig)
        ensures
            c == (DispatcherConfig { drop_on_full: drop, ..self }),
    {
        DispatcherConfig { drop_on_full: drop, ..self }
    }

    /// Set the time allowed per event, in milliseconds.
    pub fn processing_timeout_ms(self, timeout: u64) -> (c: DispatcherConfig)
        ensures
            c == (DispatcherConfig { processing_timeout_ms: timeout, ..self }),
    {
        DispatcherConfig { processing_timeout_ms: timeout, ..self }
    }

    /// Set whether metrics are collected.
    pub fn enable_metrics(self, enable: bool) -> (c: DispatcherConfig)
        ensures
            c == (DispatcherConfig { enable_metrics: enable, ..self }),
    {
        DispatcherConfig { enable_metrics: enable, ..self }
    }
}

/// How the event bus retries, buffers and shuts down.
#[derive(Debug, Clone, Copy)]
pub struct EventBusConfig {
    /// The dispatcher's configuration.
    pub dispatcher: DispatcherConfig,
    /// Retries of a failing handler before the event goes to the dead letter queue.
    pub max_retries: u32,
    /// Backoff before the first retry, in milliseconds; it doubles with each retry.
    pub retry_backoff: u64,
    /// Time allowed for shutdown, in milliseconds.
    pub shutdown_timeout: u64,
    /// Emit tracing.
    pub enable_tracing: bool,
    /// Capacity of each handler's queue.
    pub handler_channel_size: usize,
    /// Capacity of the dead letter queue.
    pub dlq_channel_size: usize,
    /// Publishing waits until a persistent dispatcher has stored the event.
    pub wait_for_persistence: bool,
    /// How often scheduled events are polled, in milliseconds.
    pub scheduler_tick_rate: u64,
}

/// The bus's defaults on a machine with `cpus` CPUs.
pub open spec fn default_bus(cpus: usize) -> EventBusConfig {
    EventBusConfig {
        dispatcher: default_dispatcher(cpus),
        max_retries: 3,
        retry_backoff: 100,
        shutdown_timeout: 30_000,
        enable_tracing: true,
        handler_channel_size: 256,
        dlq_channel_size: 1000,
        wait_for_persistence: false,
        scheduler_tick_rate: 1000,
    }
}

/// Twice `cpus`, capped at the largest `usize`.
pub open spec fn doubled_cpus(cpus: usize) -> usize {
    if cpus * 2 <= usize::MAX {
        (cpus * 2) as usize
    } else {
        usize::MAX
    }
}

/// The high-throughput preset on a machine with `cpus` CPUs.
pub open spec fn high_throughput_bus(cpus: usize) -> EventBusConfig {
    EventBusConfig {
        dispatcher: DispatcherConfig {
            max_queue_size: 50_000,
            worker_threads: doubled_cpus(cpus),
            drop_on_full: true,
            processing_timeout_ms: 1000,
            ..default_dispatcher(cpus)
        },
        max_retries: 1,
        handler_channel_size: 1024,
        ..default_bus(cpus)
    }
}

/// The reliable preset on a machine with `cpus` CPUs.
pub open spec fn reliable_bus(cpus: usize) -> EventBusConfig {
    EventBusConfig {
        dispatcher: DispatcherConfig {
            max_queue_size: 10_000,
            drop_on_full: false,
            processing_timeout_ms: 30_000,
            ..default_dispatcher(cpus)
        },
        max_retries: 5,
        retry_backoff: 500,
        handler_channel_size: 512,
        dlq_channel_size: 5000,
        wait_for_persistence: true,
        ..default_bus(cpus)
    }
}

/// The ordered preset on a machine with `cpus` CPUs.
pub open spec fn ordered_bus(cpus: usize) -> EventBusConfig {
    EventBusConfig {
        dispatcher: DispatcherConfig { worker_threads: 1, drop_on_full: false, ..default_dispatcher(cpus) },
        ..default_bus(cpus)
    }
}

/// The testing preset on a machine with `cpus` CPUs.
pub open spec fn test_bus(cpus: usize) -> EventBusConfig {
    EventBusConfig {
        dispatcher: DispatcherConfig {
            max_queue_size: 100,
            worker_threads: 2,
            processing_timeout_ms: 1000,
            ..default_dispatcher(cpus)
        },
        shutdown_timeout: 5000,
        enable_tracing: false,
        handler_channel_size: 64,
        ..default_bus(cpus)
    }
}

impl EventBusConfig {
    /// The defaults on a machine with `cpus` CPUs: three retries from a 100 ms backoff,
    /// 30 s to shut down, tracing on, handler queues of 256, a dead letter queue of 1000,
    /// no waiting for persistence, scheduled events polled every second.
    pub fn for_cpus(cpus: usize) -> (c: EventBusConfig)
        ensures
            c == default_bus(cpus),
    {
        EventBusConfig {
            dispatcher: DispatcherConfig::for_cpus(cpus),
            max_retries: 3,
            retry_backoff: 100,
            shutdown_timeout: 30_000,
            enable_tracing: true,
            handler_channel_size: 256,
            dlq_channel_size: 1000,
            wait_for_persistence: false,
            scheduler_tick_rate: 1000,
        }
    }

    /// The defaults on this machine.
    pub fn new() -> (c: EventBusConfig)
        ensures
            c.dispatcher.worker_threads >= 1,
            c == default_bus(c.dispatcher.worker_threads),
    {
        EventBusConfig::for_cpus(cpu_count())
    }

    /// Set the number of retries.
    pub fn max_retries(self, retries: u32) -> (c: EventBusConfig)
        ensures
            c == (EventBusConfig { max_retries: retries, ..self }),
    {
        EventBusConfig { max_retries: retries, ..self }
    }

    /// Set the backoff before the first retry, in milliseconds.
    pub fn retry_backoff(self, backoff: u64) -> (c: EventBusConfig)
        ensures
            c == (EventBusConfig { retry_backoff: backoff, ..self }),
    {
        EventBusConfig { retry_backoff: backoff, ..self }
    }

    /// Set the time allowed for shutdown, in milliseconds.
    pub fn shutdown_timeout(self, timeout: u64) -> (c: EventBusConfig)
        ensures
            c == (EventBusConfig { shutdown_timeout: timeout, ..self }),
    {
        EventBusConfig { shutdown_timeout: timeout, ..self }
    }

    /// Set whether tracing is emitted.
    pub fn enable_tracing(self, enable: bool) -> (c: EventBusConfig)
        ensures
            c == (EventBusConfig { enable_tracing: enable, ..self }),
    {
        EventBusConfig { enable_tracing: enable, ..self }
    }

    /// Replace the dispatcher configuration by what `f` makes of it.
    pub fn dispatcher_config<F: FnOnce(DispatcherConfig) -> DispatcherConfig>(self, f: F) -> (c: EventBusConfig)
        requires
            call_requires(f, (self.dispatcher,)),
        ensures
            call_ensures(f, (self.dispatcher,), c.dispatcher),
            c == (EventBusConfig { dispatcher: c.dispatcher, ..self }),
    {
        let d = f(self.dispatcher);
        EventBusConfig { dispatcher: d, ..self }
    }

    /// Set the capacity of each handler's queue.
    pub fn handler_channel_size(self, size: usize) -> (c: EventBusConfig)
        ensures
            c == (EventBusConfig { handler_channel_size: size, ..self }),
    {
        EventBusConfig { handler_channel_size: size, ..self }
    }

    /// Set the capacity of the dead letter queue.
    pub fn dlq_channel_size(self, size: usize) -> (c: EventBusConfig)
        ensures
            c == (EventBusConfig { dlq_channel_size: size, ..self }),
    {
        EventBusConfig { dlq_channel_size: size, ..self }
    }

    /// Set whether publishing waits for persistence.
    pub fn wait_for_persistence(self, wait: bool) -> (c: EventBusConfig)
        ensures
            c == (EventBusConfig { wait_for_persistence: wait, ..self }),
    {
        EventBusConfig { wait_for_persistence: wait, ..self }
    }

    /// Set how often scheduled events are polled, in milliseconds.
    pub fn scheduler_tick_rate(self, tick_ms: u64) -> (c: EventBusConfig)
        ensures
            c == (EventBusConfig { scheduler_tick_rate: tick_ms, ..self }),
    {
        EventBusConfig { scheduler_tick_rate: tick_ms, ..self }
    }

    /// Speed over reliability on a machine with `cpus` CPUs: a queue of 50 000, two workers
    /// per CPU, dropping when full, 1 s per event, one retry, handler queues of 1024.
    pub fn high_throughput_for(cpus: usize) -> (c: EventBusConfig)
        ensures
            c == high_throughput_bus(cpus),
    {
        let workers: usize = if cpus <= usize::MAX / 2 { cpus * 2 } else { usize::MAX };
        let d = DispatcherConfig::for_cpus(cpus)
            .max_queue_size(50_000)
            .worker_threads(workers)
            .drop_on_full(true)
            .processing_timeout_ms(1000);
        EventBusConfig { dispatcher: d, ..EventBusConfig::for_cpus(cpus) }
            .max_retries(1)
            .handler_channel_size(1024)
    }

    /// The high-throughput preset on this machine.
    pub fn high_throughput() -> (c: EventBusConfig)
        ensures
            exists|cpus: usize| cpus >= 1 && c == high_throughput_bus(cpus),
    {
        let cpus = cpu_count();
        let c = EventBusConfig::high_throughput_for(cpus);
        assert(cpus >= 1 && c == high_throughput_bus(cpus));
        c
    }

    /// Reliability over speed on a machine with `cpus` CPUs: never dropping, 30 s per event,
    /// five retries from a 500 ms backoff, handler queues of 512, a dead letter queue of
    /// 5000, publishing waits for persistence.
    pub fn reliable_for(cpus: usize) -> (c: EventBusConfig)
        ensures
            c == reliable_bus(cpus),
    {
        let d = DispatcherConfig::for_cpus(cpus)
            .max_queue_size(10_000)
            .drop_on_full(false)
            .processing_timeout_ms(30_000);
        EventBusConfig { dispatcher: d, ..EventBusConfig::for_cpus(cpus) }
            .max_retries(5)
            .retry_backoff(500)
            .handler_channel_size(512)
            .dlq_channel_size(5000)
            .wait_for_persistence(true)
    }

    /// The reliable preset on this machine.
    pub fn reliable() -> (c: EventBusConfig)
        ensures
            c.dispatcher.worker_threads >= 1,
            c == reliable_bus(c.dispatcher.worker_threads),
    {
        EventBusConfig::reliable_for(cpu_count())
    }

    /// Strict ordering on a machine with `cpus` CPUs: one worker, never dropping.
    pub fn ordered_for(cpus: usize) -> (c: EventBusConfig)
        ensures
            c == ordered_bus(cpus),
    {
        let d = DispatcherConfig::for_cpus(cpus).worker_threads(1).drop_on_full(false);
        EventBusConfig { dispatcher: d, ..EventBusConfig::for_cpus(cpus) }
    }

    /// The ordered preset on this machine.
    pub fn ordered() -> (c: EventBusConfig)
        ensures
            exists|cpus: usize| cpus >= 1 && c == ordered_bus(cpus),
    {
        let cpus = cpu_count();
        let c = EventBusConfig::ordered_for(cpus);
        assert(cpus >= 1 && c == ordered_bus(cpus));
        c
    }

    /// For tests, on a machine with `cpus` CPUs: a queue of 100, two workers, 1 s per event,
    /// 5 s to shut down, no tracing, handler queues of 64.
    pub fn test_for(cpus: usize) -> (c: EventBusConfig)
        ensures
            c == test_bus(cpus),
    {
        let d = DispatcherConfig::for_cpus(cpus)
            .max_queue_size(100)
            .worker_threads(2)
            .processing_timeout_ms(1000);
        EventBusConfig { dispatcher: d, ..EventBusConfig::for_cpus(cpus) }
            .shutdown_timeout(5000)
            .enable_tracing(false)
            .handler_channel_size(64)
    }

    /// The testing preset on this machine.
    pub fn test() -> (c: EventBusConfig)
        ensures
            exists|cpus: usize| cpus >= 1 && c == test_bus(cpus),
    {
        let cpus = cpu_count();
        let c = EventBusConfig::test_for(cpus);
        assert(cpus >= 1 && c == test_bus(cpus));
        c
    }
}

impl Default for DispatcherConfig {
    /// The defaults on this machine.
    fn default() -> (c: DispatcherConfig)
        ensures
            c.worker_threads >= 1,
            c == default_dispatcher(c.worker_threads),
    {
        DispatcherConfig::new()
    }
}

impl Default for EventBusConfig {
    /// The defaults on this machine.
    fn default() -> (c: EventBusConfig)
        ensures
            c.dispatcher.worker_threads >= 1,
            c == default_bus(c.dispatcher.worker_threads),
    {
        EventBusConfig::new()
    }
}

} // verus!
