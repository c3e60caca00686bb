//! The decisions of the event bus itself: when publishing is refused, how a reply to a
//! request is addressed, which dispatcher and transport a bus is built with, and the
//! statistics it reports.
use vstd::prelude::*;
use vstd::string::StringExecFns;
use crate::dispatcher::DispatcherStats;
use crate::error::Error;
use crate::foreign::{decimal_text, u64_text, uuid_string, uuid_text};
use crate::metadata::{EventMetadata, opt_text};
use crate::subscription::SubscriptionStats;

verus! {

/// What the bus reports about itself.
#[derive(Debug, Clone, Copy)]
pub struct EventBusStats {
    /// Registered subscriptions.
    pub total_subscriptions: usize,
    /// Event types with subscriptions.
    pub event_types: usize,
    /// The dispatcher's counters.
    pub dispatcher_stats: DispatcherStats,
    /// The subscription manager's counters.
    pub subscription_stats: SubscriptionStats,
}

impl EventBusStats {
    /// `EventBus Stats: s subscriptions, t event types, d events dispatched`.
    pub fn summary(&self) -> (s: String)
        ensures
            s@ == "EventBus Stats: "@ + decimal_text(self.total_subscriptions as nat) + " subscriptions, "@
                + decimal_text(self.event_types as nat) + " event types, "@ + decimal_text(
                self.dispatcher_stats.events_dispatched as nat,
            ) + " events dispatched"@,
    {
        let a = u64_text(self.total_subscriptions as u64);
        let b = u64_text(self.event_types as u64);
        let c = u64_text(self.dispatcher_stats.events_dispatched);
        String::from_str("EventBus Stats: ").concat(a.as_str()).concat(" subscriptions, ").concat(b.as_str()).concat(
            " event types, ",
        ).concat(c.as_str()).concat(" events dispatched")
    }
}

/// Whether the bus is shutting down and whether it still has its dispatcher.
#[derive(Debug, Clone, Copy, PartialEq, Eq, Structural)]
pub struct BusLifecycle {
    /// Shutdown has begun: nothing new is accepted.
    pub shutting_down: bool,
    /// The dispatcher has not been taken away by a shutdown.
    pub has_dispatcher: bool,
}

impl BusLifecycle {
    /// A bus that runs, with its dispatcher.
    pub fn running() -> (l: BusLifecycle)
        ensures
            l == (BusLifecycle { shutting_down: false, has_dispatcher: true }),
    {
        BusLifecycle { shutting_down: false, has_dispatcher: true }
    }

    /// Shutdown begins: nothing new is accepted from now on. Answers whether this is the
    /// first shutdown, the one that runs the shutdown hooks, so that they run exactly once.
    pub fn begin_shutdown(&mut self) -> (first: bool)
        ensures
            *final(self) == (BusLifecycle { shutting_down: true, ..*old(self) }),
            first == !old(self).shutting_down,
    {
        let first = !self.shutting_down;
        self.shutting_down = true;
        first
    }

    /// The dispatcher is taken away to be stopped.
    pub fn release_dispatcher(&mut self)
        ensures
            *final(self) == (BusLifecycle { has_dispatcher: false, ..*old(self) }),
    {
        self.has_dispatcher = false;
    }

    /// Whether new subscriptions and requests are accepted: refused once shutdown began.
    pub fn accept_new(&self) -> (r: Result<(), Error>)
        ensures
            self.shutting_down ==> r == Err::<(), Error>(Error::ShuttingDown),
            !self.shutting_down ==> r is Ok,
    {
        if self.shutting_down {
            Err(Error::ShuttingDown)
        } else {
            Ok(())
        }
    }

    /// Whether an event may be published: not once shutdown began, nor without a
    /// dispatcher.
    pub fn accept_publish(&self) -> (r: Result<(), Error>)
        ensures
            self.shutting_down || !self.has_dispatcher ==> r == Err::<(), Error>(Error::ShuttingDown),
            !self.shutting_down && self.has_dispatcher ==> r is Ok,
    {
        if self.shutting_down || !self.has_dispatcher {
            Err(Error::ShuttingDown)
        } else {
            Ok(())
        }
    }

    /// Whether pending events can be replayed: only while the dispatcher is there.
    pub fn accept_replay(&self) -> (r: Result<(), Error>)
        ensures
            !self.has_dispatcher ==> (r matches Err(Error::Internal(m)) && m@ == "Dispatcher has been shut down"@),
            self.has_dispatcher ==> r is Ok,
    {
        if self.has_dispatcher {
            Ok(())
        } else {
            Err(Error::internal("Dispatcher has been shut down"))
        }
    }
}

/// The private topic on which the reply to request `id` arrives: `_INBOX.` and the id.
pub fn inbox_topic(id: u128) -> (s: String)
    ensures
        s@ == "_INBOX."@ + uuid_text(id),
{
    let t = uuid_string(id);
    String::from_str("_INBOX.").concat(t.as_str())
}

/// The metadata of the reply to a request with metadata `request`, made from `fresh`:
/// routed to the request's reply topic, correlated with the request's correlation (or
/// the request itself) and caused by the request. `None` where the request asks for no
/// reply.
pub fn reply_metadata(request: &EventMetadata, fresh: EventMetadata) -> (r: Option<EventMetadata>)
    ensures
        match request.reply_to {
            Some(t) => r matches Some(m) && {
                &&& opt_text(m.topic) == Some(t@)
                &&& m.correlation_id == Some(match request.correlation_id {
                    Some(c) => c,
                    None => request.event_id,
                })
                &&& m.causation_id == Some(request.event_id)
                &&& m == (EventMetadata {
                    topic: m.topic,
                    correlation_id: m.correlation_id,
                    causation_id: m.causation_id,
                    ..fresh
                })
            },
            None => r is None,
        },
{
    match &request.reply_to {
        Some(t) => {
            let mut m = fresh.with_topic(t.as_str());
            m.correlation_id = match request.correlation_id {
                Some(c) => Some(c),
                None => Some(request.event_id),
            };
            m.causation_id = Some(request.event_id);
            Some(m)
        },
        None => None,
    }
}

/// How waiting for a reply ended.
#[derive(Debug, Clone)]
pub enum ReplyOutcome<R> {
    /// The reply arrived.
    Replied(R),
    /// The responder went away without replying.
    Dropped,
    /// No reply came in time.
    TimedOut,
}

/// The answer to a request: the reply, or the error for how waiting ended.
pub fn request_answer<R>(outcome: ReplyOutcome<R>) -> (r: Result<R, Error>)
    ensures
        match outcome {
            ReplyOutcome::Replied(v) => r == Ok::<R, Error>(v),
            ReplyOutcome::Dropped => r matches Err(Error::Internal(m)) && m@ == "Responder dropped the channel without replying"@,
            ReplyOutcome::TimedOut => r matches Err(Error::Internal(m)) && m@ == "Request timed out after 30 seconds"@,
        },
{
    match outcome {
        ReplyOutcome::Replied(v) => Ok(v),
        ReplyOutcome::Dropped => Err(Error::internal("Responder dropped the channel without replying")),
        ReplyOutcome::TimedOut => Err(Error::internal("Request timed out after 30 seconds")),
    }
}

/// Which dispatcher a bus is built with.
#[derive(Debug, Clone, Copy, PartialEq, Eq, Structural)]
pub enum DispatcherKind {
    /// The one the user supplied.
    Custom,
    /// The persistent one, over the database.
    Persistent,
    /// The in-memory channel.
    Channel,
}

/// A supplied dispatcher wins; else a database makes the bus persistent; else events go
/// through an in-memory channel.
pub fn choose_dispatcher(has_custom: bool, has_database: bool) -> (k: DispatcherKind)
    ensures
        k == (if has_custom {
            DispatcherKind::Custom
        } else if has_database {
            DispatcherKind::Persistent
        } else {
            DispatcherKind::Channel
        }),
{
    if has_custom {
        DispatcherKind::Custom
    } else if has_database {
        DispatcherKind::Persistent
    } else {
        DispatcherKind::Channel
    }
}

/// Which remote transport a bus is built with.
#[derive(Debug, Clone, Copy, PartialEq, Eq, Structural)]
pub enum TransportKind {
    /// None: events stay local.
    Local,
    /// The one the user supplied.
    Custom,
    /// NATS with JetStream persistence.
    JetStream,
    /// Core NATS.
    CoreNats,
}

/// A supplied transport wins; else a NATS address gives JetStream where a stream and its
/// subjects are named, core NATS otherwise; else there is none.
pub fn choose_transport(has_custom: bool, has_url: bool, has_stream: bool, has_subjects: bool) -> (k: TransportKind)
    ensures
        k == (if has_custom {
            TransportKind::Custom
        } else if has_url {
            if has_stream && has_subjects {
                TransportKind::JetStream
            } else {
                TransportKind::CoreNats
            }
        } else {
            TransportKind::Local
        }),
{
    if has_custom {
        TransportKind::Custom
    } else if has_url {
        if has_stream && has_subjects {
            TransportKind::JetStream
        } else {
            TransportKind::CoreNats
        }
    } else {
        TransportKind::Local
    }
}

} // verus!
