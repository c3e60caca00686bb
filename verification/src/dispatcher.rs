//! The dispatcher's bookkeeping and decisions: its statistics, when an event is held back
//! for later, how a full queue is answered, and which worker receives an event.
use vstd::prelude::*;
use vstd::string::StringExecFns;
use crate::error::Error;
use crate::foreign::{cpu_count, fx_hash64, decimal_text, u64_text};

verus! {

/// Counters a dispatcher reports.
#[derive(Debug, Clone, Copy, Default)]
pub struct DispatcherStats {
    /// Events dispatched.
    pub events_dispatched: u64,
    /// Events now queued.
    pub queue_size: usize,
    /// Dispatches that failed.
    pub dispatch_errors: u64,
    /// Mean dispatch time, in microseconds.
    pub avg_dispatch_time_us: u64,
    /// The most events queued at once.
    pub max_queue_size: usize,
}

/// The running mean after one more sample `time` over `n` earlier samples with mean `avg`.
pub open spec fn next_average(avg: u64, n: u64, time: u64) -> int {
    if n == 0 {
        time as int
    } else {
        (avg * n + time) / (n + 1)
    }
}

impl DispatcherStats {
    /// All counters zero.
    pub fn new() -> (s: DispatcherStats)
        ensures
            s == (DispatcherStats {
                events_dispatched: 0,
                queue_size: 0,
                dispatch_errors: 0,
                avg_dispatch_time_us: 0,
                max_queue_size: 0,
            }),
    {
        DispatcherStats {
            events_dispatched: 0,
            queue_size: 0,
            dispatch_errors: 0,
            avg_dispatch_time_us: 0,
            max_queue_size: 0,
        }
    }

    /// Fold one more dispatch time into the mean: with no event dispatched yet the mean is
    /// that time, else the mean over the dispatched events and this one.
    pub fn update_dispatch_time(&mut self, time_us: u64)
        requires
            old(self).events_dispatched > 0 ==> old(self).avg_dispatch_time_us * old(self).events_dispatched
                + time_us <= u64::MAX,
            old(self).events_dispatched < u64::MAX,
        ensures
            final(self).avg_dispatch_time_us == next_average(
                old(self).avg_dispatch_time_us,
                old(self).events_dispatched,
                time_us,
            ),
            *final(self) == (DispatcherStats {
                avg_dispatch_time_us: final(self).avg_dispatch_time_us,
                ..*old(self)
            }),
    {
        if self.events_dispatched == 0 {
            self.avg_dispatch_time_us = time_us;
        } else {
            let n = self.events_dispatched;
            let avg = self.avg_dispatch_time_us;
            let total = avg * n + time_us;
            let mean = total / (n + 1);
            self.avg_dispatch_time_us = mean;
        }
    }
}

/// A dispatcher that accepts every event and does nothing with it.
#[derive(Debug, Clone, Copy, Default)]
pub struct NoOpDispatcher;

impl NoOpDispatcher {
    /// It is always running.
    pub fn is_running(&self) -> (r: bool)
        ensures
            r,
    {
        true
    }

    /// Its statistics are all zero.
    pub fn stats(&self) -> (s: DispatcherStats)
        ensures
            s == DispatcherStats::new_spec(),
    {
        DispatcherStats::new()
    }

    /// Starting, stopping and dispatching always succeed.
    pub fn accept(&self) -> (r: Result<(), Error>)
        ensures
            r is Ok,
    {
        Ok(())
    }
}

impl DispatcherStats {
    /// All counters zero.
    pub open spec fn new_spec() -> DispatcherStats {
        DispatcherStats {
            events_dispatched: 0,
            queue_size: 0,
            dispatch_errors: 0,
            avg_dispatch_time_us: 0,
            max_queue_size: 0,
        }
    }
}

/// The counters a running dispatcher keeps. Like the atomic counters they stand for, they
/// wrap around on overflow.
#[derive(Debug, Clone, Copy)]
pub struct DispatchCounters {
    /// Events dispatched.
    pub events_dispatched: u64,
    /// Dispatches that failed or events that were dropped.
    pub dispatch_errors: u64,
    /// Total dispatch time, in microseconds.
    pub total_dispatch_time_us: u64,
    /// The most events queued at once.
    pub max_queue_size: usize,
}

/// `a + b` wrapped to 64 bits.
pub open spec fn wrapped_add(a: u64, b: u64) -> u64 {
    if a + b <= u64::MAX {
        (a + b) as u64
    } else {
        (a + b - u64::MAX - 1) as u64
    }
}

/// `a + b` wrapped to 64 bits.
fn add_wrapping(a: u64, b: u64) -> (r: u64)
    ensures
        r == wrapped_add(a, b),
{
    if a <= u64::MAX - b {
        a + b
    } else {
        b - (u64::MAX - a) - 1
    }
}

impl DispatchCounters {
    /// All counters zero.
    pub fn new() -> (c: DispatchCounters)
        ensures
            c == (DispatchCounters {
                events_dispatched: 0,
                dispatch_errors: 0,
                total_dispatch_time_us: 0,
                max_queue_size: 0,
            }),
    {
        DispatchCounters { events_dispatched: 0, dispatch_errors: 0, total_dispatch_time_us: 0, max_queue_size: 0 }
    }

    /// Count a dispatch that succeeded after `elapsed_us` microseconds.
    pub fn record_success(&mut self, elapsed_us: u64)
        ensures
            *final(self) == (DispatchCounters {
                events_dispatched: wrapped_add(old(self).events_dispatched, 1),
                total_dispatch_time_us: wrapped_add(old(self).total_dispatch_time_us, elapsed_us),
                ..*old(self)
            }),
    {
        self.events_dispatched = add_wrapping(self.events_dispatched, 1);
        self.total_dispatch_time_us = add_wrapping(self.total_dispatch_time_us, elapsed_us);
    }

    /// Count `n` failed or dropped dispatches.
    pub fn record_errors(&mut self, n: u64)
        ensures
            *final(self) == (DispatchCounters {
                dispatch_errors: wrapped_add(old(self).dispatch_errors, n),
                ..*old(self)
            }),
    {
        self.dispatch_errors = add_wrapping(self.dispatch_errors, n);
    }

    /// Note that `current` events are queued: the maximum grows to it if it is larger.
    pub fn observe_queue_size(&mut self, current: usize)
        ensures
            *final(self) == (DispatchCounters {
                max_queue_size: if current > old(self).max_queue_size {
                    current
                } else {
                    old(self).max_queue_size
                },
                ..*old(self)
            }),
    {
        if current > self.max_queue_size {
            self.max_queue_size = current;
        }
    }

    /// The statistics with `queue_size` events now queued; the mean dispatch time is the
    /// total over the dispatched events, 0 where none was dispatched.
    pub fn snapshot(&self, queue_size: usize) -> (s: DispatcherStats)
        ensures
            s.events_dispatched == self.events_dispatched,
            s.queue_size == queue_size,
            s.dispatch_errors == self.dispatch_errors,
            s.avg_dispatch_time_us == (if self.events_dispatched == 0 {
                0
            } else {
                self.total_dispatch_time_us / self.events_dispatched
            }),
            s.max_queue_size == self.max_queue_size,
    {
        let avg: u64 = if self.events_dispatched == 0 {
            0
        } else {
            self.total_dispatch_time_us / self.events_dispatched
        };
        DispatcherStats {
            events_dispatched: self.events_dispatched,
            queue_size,
            dispatch_errors: self.dispatch_errors,
            avg_dispatch_time_us: avg,
            max_queue_size: self.max_queue_size,
        }
    }
}

/// The number of events in a queue of capacity `max_capacity` with `free` free slots
/// (0 where the free slots exceed the capacity).
pub fn queue_length(max_capacity: usize, free: usize) -> (r: usize)
    ensures
        r == (if free <= max_capacity {
            max_capacity - free
        } else {
            0
        }),
{
    if free <= max_capacity {
        max_capacity - free
    } else {
        0
    }
}

/// How long to hold back an event to be delivered at `deliver_at` when it is `now`
/// (milliseconds after the epoch): `None` where it is due.
pub fn hold_back(deliver_at: Option<i64>, now: i64) -> (r: Option<u64>)
    ensures
        match deliver_at {
            Some(t) => if t > now {
                r == Some((t - now) as u64)
            } else {
                r is None
            },
            None => r is None,
        },
{
    match deliver_at {
        Some(t) => {
            if t > now {
                let d = (t as i128 - now as i128) as u64;
                Some(d)
            } else {
                None
            }
        },
        None => None,
    }
}

/// What became of an attempt to put an event in a bounded queue without waiting.
#[derive(Debug, Clone, Copy, PartialEq, Eq)]
pub enum TrySendOutcome {
    /// The event is queued.
    Sent,
    /// The queue is full.
    Full,
    /// The queue is closed.
    Closed,
}

/// The answer to a dispatch that tried to queue without waiting: a full queue drops the
/// event (and counts it as an error) without failing the dispatch; a closed one fails.
pub fn answer_try_send(outcome: TrySendOutcome, counters: &mut DispatchCounters) -> (r: Result<(), Error>)
    ensures
        match outcome {
            TrySendOutcome::Sent => r is Ok && *final(counters) == *old(counters),
            TrySendOutcome::Full => r is Ok && *final(counters) == (DispatchCounters {
                dispatch_errors: wrapped_add(old(counters).dispatch_errors, 1),
                ..*old(counters)
            }),
            TrySendOutcome::Closed => *final(counters) == *old(counters) && (r matches Err(Error::Internal(m))
                && m@ == "Event channel closed"@),
        },
{
    match outcome {
        TrySendOutcome::Sent => Ok(()),
        TrySendOutcome::Full => {
            counters.record_errors(1);
            Ok(())
        },
        TrySendOutcome::Closed => Err(Error::internal("Event channel closed")),
    }
}

/// How the worker pool is sized and named.
#[derive(Debug, Clone)]
pub struct WorkerConfig {
    /// Number of workers.
    pub num_workers: usize,
    /// Capacity of each worker's queue.
    pub queue_size: usize,
    /// Prefix of the workers' names.
    pub name_prefix: String,
}

impl WorkerConfig {
    /// One worker per CPU of this machine, queues of 1000, names starting `event-worker`.
    pub fn new() -> (c: WorkerConfig)
        ensures
            c.num_workers >= 1,
            c.queue_size == 1000,
            c.name_prefix@ == "event-worker"@,
    {
        WorkerConfig { num_workers: cpu_count(), queue_size: 1000, name_prefix: "event-worker".to_owned() }
    }

    /// The name of worker `index`: the prefix, a hyphen and the index.
    pub fn worker_name(&self, index: usize) -> (s: String)
        ensures
            s@ == self.name_prefix@ + "-"@ + decimal_text(index as nat),
    {
        let digits = u64_text(index as u64);
        self.name_prefix.clone().concat("-").concat(digits.as_str())
    }
}

/// Hands events to workers in turn.
#[derive(Debug, Clone, Copy)]
pub struct RoundRobin {
    /// How many events were handed out (wrapping around).
    pub next_worker: usize,
}

impl RoundRobin {
    /// No event handed out yet.
    pub fn new() -> (r: RoundRobin)
        ensures
            r.next_worker == 0,
    {
        RoundRobin { next_worker: 0 }
    }

    /// The worker of `workers` that receives the next event; the turn advances by one.
    pub fn next_index(&mut self, workers: usize) -> (i: usize)
        requires
            workers > 0,
        ensures
            i == old(self).next_worker % workers,
            i < workers,
            final(self).next_worker == (if old(self).next_worker == usize::MAX {
                0
            } else {
                old(self).next_worker + 1
            }),
    {
        let i = self.next_worker % workers;
        self.next_worker = if self.next_worker == usize::MAX { 0 } else { self.next_worker + 1 };
        i
    }
}

/// The identifier an event is spread over workers by: its correlation identifier, or its
/// own identifier where it has none, so that correlated events share one.
pub fn routing_key(correlation_id: Option<u128>, event_id: u128) -> (k: u128)
    ensures
        k == match correlation_id {
            Some(c) => c,
            None => event_id,
        },
{
    match correlation_id {
        Some(c) => c,
        None => event_id,
    }
}

/// The worker of `workers` that an event whose routing key hashes to `hash` goes to.
pub fn worker_for_hash(hash: u64, workers: usize) -> (i: usize)
    requires
        workers > 0,
    ensures
        i == (hash as usize) % workers,
        i < workers,
{
    (hash as usize) % workers
}

/// The worker of `workers` that receives an event: the one `worker_for_hash` picks for
/// the FxHash of its routing key. That hash depends on the machine's byte order, so the
/// contract states only that some hash picked the worker.
pub fn hashed_worker(correlation_id: Option<u128>, event_id: u128, workers: usize) -> (i: usize)
    requires
        workers > 0,
    ensures
        exists|h: u64| i == #[trigger] ((h as usize) % workers),
        i < workers,
{
    let key = routing_key(correlation_id, event_id);
    let h = fx_hash64(key);
    let i = worker_for_hash(h, workers);
    assert(i == ((h as usize) % workers));
    i
}

/// Where a dispatched event goes.
#[derive(Debug, Clone, Copy, PartialEq, Eq, Structural)]
pub enum DispatchRoute {
    /// Held back for this many milliseconds, then queued.
    Delay(u64),
    /// Queued now.
    Enqueue,
}

/// Whether a dispatcher runs, and whether it still has the two ends of its queue.
#[derive(Debug, Clone, Copy, PartialEq, Eq, Structural)]
pub struct DispatcherLifecycle {
    /// The dispatcher has been started and not stopped.
    pub running: bool,
    /// The receiving end has not been handed to a worker yet.
    pub has_receiver: bool,
    /// The sending end is still open.
    pub has_sender: bool,
}

impl DispatcherLifecycle {
    /// A dispatcher not started yet, with both ends of its queue.
    pub fn new() -> (l: DispatcherLifecycle)
        ensures
            l == (DispatcherLifecycle { running: false, has_receiver: true, has_sender: true }),
    {
        DispatcherLifecycle { running: false, has_receiver: true, has_sender: true }
    }

    /// Start the in-memory dispatcher: it must not run already and can start only once,
    /// since its worker takes the receiving end.
    pub fn start_channel(&mut self) -> (r: Result<(), Error>)
        ensures
            old(self).running ==> (r matches Err(Error::Internal(m)) && m@ == "Dispatcher already running"@)
                && *final(self) == *old(self),
            !old(self).running && !old(self).has_receiver ==> (r matches Err(Error::Internal(m)) && m@
                == "Dispatcher already started"@) && *final(self) == *old(self),
            !old(self).running && old(self).has_receiver ==> r is Ok && *final(self) == (DispatcherLifecycle {
                running: true,
                has_receiver: false,
                has_sender: old(self).has_sender,
            }),
    {
        if self.running {
            return Err(Error::internal("Dispatcher already running"));
        }
        if !self.has_receiver {
            return Err(Error::internal("Dispatcher already started"));
        }
        self.has_receiver = false;
        self.running = true;
        Ok(())
    }

    /// Start the persistent dispatcher: starting it again does nothing. Whether its workers
    /// are to be spawned now (the receiving end was still there).
    pub fn start_persistent(&mut self) -> (spawn: bool)
        ensures
            old(self).running ==> !spawn && *final(self) == *old(self),
            !old(self).running ==> spawn == old(self).has_receiver && *final(self) == (DispatcherLifecycle {
                running: true,
                has_receiver: false,
                has_sender: old(self).has_sender,
            }),
    {
        if self.running {
            return false;
        }
        self.running = true;
        let spawn = self.has_receiver;
        self.has_receiver = false;
        spawn
    }

    /// Stop: the dispatcher no longer runs and its queue is closed. Whether there was
    /// anything to stop.
    pub fn stop(&mut self) -> (was_running: bool)
        ensures
            was_running == old(self).running,
            final(self).running == false,
            final(self).has_sender == (old(self).has_sender && !old(self).running),
            final(self).has_receiver == old(self).has_receiver,
    {
        if !self.running {
            return false;
        }
        self.running = false;
        self.has_sender = false;
        true
    }

    /// Shut down gracefully: the queue is closed so that the worker drains it, then the
    /// dispatcher no longer runs.
    pub fn close(&mut self)
        ensures
            *final(self) == (DispatcherLifecycle { running: false, has_sender: false, ..*old(self) }),
    {
        self.has_sender = false;
        self.running = false;
    }

    /// Where the in-memory dispatcher sends an event to be delivered at `deliver_at` when
    /// it is `now`: refused unless running; held back while it is not due; else queued,
    /// which needs the queue to be open.
    pub fn route(&self, deliver_at: Option<i64>, now: i64) -> (r: Result<DispatchRoute, Error>)
        ensures
            !self.running ==> (r matches Err(Error::Internal(m)) && m@ == "Dispatcher not running"@),
            self.running && (deliver_at matches Some(t) && t > now) ==> r == Ok::<DispatchRoute, Error>(
                DispatchRoute::Delay((deliver_at->0 - now) as u64),
            ),
            self.running && !(deliver_at matches Some(t) && t > now) && !self.has_sender ==> r
                == Err::<DispatchRoute, Error>(Error::ShuttingDown),
            self.running && !(deliver_at matches Some(t) && t > now) && self.has_sender ==> r == Ok::<
                DispatchRoute,
                Error,
            >(DispatchRoute::Enqueue),
    {
        if !self.running {
            return Err(Error::internal("Dispatcher not running"));
        }
        match hold_back(deliver_at, now) {
            Some(d) => Ok(DispatchRoute::Delay(d)),
            None => if self.has_sender {
                Ok(DispatchRoute::Enqueue)
            } else {
                Err(Error::ShuttingDown)
            },
        }
    }
}

/// The most messages the persistent dispatcher stores in one write.
pub const GROUP_COMMIT_LIMIT: usize = 1000;

/// The time a dispatch may take, in milliseconds (`None`: no limit).
pub fn dispatch_deadline(processing_timeout_ms: u64) -> (r: Option<u64>)
    ensures
        processing_timeout_ms == 0 ==> r is None,
        processing_timeout_ms > 0 ==> r == Some(processing_timeout_ms),
{
    if processing_timeout_ms > 0 {
        Some(processing_timeout_ms)
    } else {
        None
    }
}

/// The error for a dispatch that took longer than allowed.
pub fn dispatch_timeout_error() -> (e: Error)
    ensures
        e matches Error::Internal(m) && m@ == "Dispatch timeout"@,
{
    Error::internal("Dispatch timeout")
}

} // verus!
