//! Errors of the event bus.
use vstd::prelude::*;
use vstd::string::StringExecFns;
use crate::foreign::{decimal_text, uuid_text, utc_instant_text, u64_text, uuid_string, utc_string, now_millis};

verus! {

/// The errors that the event bus reports.
#[derive(Debug, Clone)]
pub enum Error {
    /// Event publishing failed.
    PublishError(String),
    /// Subscription failed.
    SubscriptionError(String),
    /// The envelope holds an event of another type than the one asked for.
    EventNotRegistered { event_type: String },
    /// No subscription has this identifier.
    SubscriptionNotFound { id: u128 },
    /// An event handler failed.
    HandlerError(String),
    /// The event bus is shutting down.
    ShuttingDown,
    /// Sending through a channel failed.
    ChannelSendError,
    /// Receiving from a channel failed.
    ChannelReceiveError,
    /// Serializing or deserializing an event failed.
    SerializationError(String),
    /// The configuration is not usable.
    ConfigError(String),
    /// Any other failure.
    Internal(String),
    /// A payload is larger than the transport accepts.
    PayloadTooLarge { size: usize, max: usize },
}

/// The text of an error, as its `Display` shows it.
pub open spec fn error_text(e: Error) -> Seq<char> {
    match e {
        Error::PublishError(s) => "Failed to publish event: "@ + s@,
        Error::SubscriptionError(s) => "Failed to subscribe: "@ + s@,
        Error::EventNotRegistered { event_type } => "Event type not registered: "@ + event_type@,
        Error::SubscriptionNotFound { id } => "Subscription not found: "@ + uuid_text(id),
        Error::HandlerError(s) => "Handler error: "@ + s@,
        Error::ShuttingDown => "Event bus is shutting down"@,
        Error::ChannelSendError => "Failed to send through channel"@,
        Error::ChannelReceiveError => "Failed to receive from channel"@,
        Error::SerializationError(s) => "Serialization error: "@ + s@,
        Error::ConfigError(s) => "Configuration error: "@ + s@,
        Error::Internal(s) => "Internal error: "@ + s@,
        Error::PayloadTooLarge { size, max } => "Payload too large: "@ + decimal_text(size as nat)
            + " bytes exceeds the maximum of "@ + decimal_text(max as nat) + " bytes"@,
    }
}

impl Error {
    /// An internal error with a message.
    pub fn internal(msg: &str) -> (e: Error)
        ensures
            e matches Error::Internal(s) && s@ == msg@,
    {
        Error::Internal(msg.to_owned())
    }

    /// A handler error with a message.
    pub fn handler(msg: &str) -> (e: Error)
        ensures
            e matches Error::HandlerError(s) && s@ == msg@,
    {
        Error::HandlerError(msg.to_owned())
    }

    /// Whether this error reports that the bus is shutting down.
    pub fn is_shutdown(&self) -> (r: bool)
        ensures
            r == (*self is ShuttingDown),
    {
        match self {
            Error::ShuttingDown => true,
            _ => false,
        }
    }

    /// Whether this error comes from a channel.
    pub fn is_channel_error(&self) -> (r: bool)
        ensures
            r == (*self is ChannelSendError || *self is ChannelReceiveError),
    {
        match self {
            Error::ChannelSendError | Error::ChannelReceiveError => true,
            _ => false,
        }
    }

    /// The text of the error (what `Display` shows).
    pub fn message(&self) -> (s: String)
        ensures
            s@ == error_text(*self),
    {
        match self {
            Error::PublishError(m) => String::from_str("Failed to publish event: ").concat(m.as_str()),
            Error::SubscriptionError(m) => String::from_str("Failed to subscribe: ").concat(m.as_str()),
            Error::EventNotRegistered { event_type } => String::from_str(
                "Event type not registered: ",
            ).concat(event_type.as_str()),
            Error::SubscriptionNotFound { id } => {
                let t = uuid_string(*id);
                String::from_str("Subscription not found: ").concat(t.as_str())
            },
            Error::HandlerError(m) => String::from_str("Handler error: ").concat(m.as_str()),
            Error::ShuttingDown => String::from_str("Event bus is shutting down"),
            Error::ChannelSendError => String::from_str("Failed to send through channel"),
            Error::ChannelReceiveError => String::from_str("Failed to receive from channel"),
            Error::SerializationError(m) => String::from_str("Serialization error: ").concat(m.as_str()),
            Error::ConfigError(m) => String::from_str("Configuration error: ").concat(m.as_str()),
            Error::Internal(m) => String::from_str("Internal error: ").concat(m.as_str()),
            Error::PayloadTooLarge { size, max } => {
                let a = u64_text(*size as u64);
                let b = u64_text(*max as u64);
                String::from_str("Payload too large: ").concat(a.as_str()).concat(
                    " bytes exceeds the maximum of ",
                ).concat(b.as_str()).concat(" bytes")
            },
        }
    }
}

/// Where and when an error happened, for logs.
#[derive(Debug, Clone)]
pub struct ErrorContext {
    /// The event being handled.
    pub event_id: Option<u128>,
    /// The type name of that event.
    pub event_type: Option<String>,
    /// The handler that failed.
    pub handler_name: Option<String>,
    /// When the context was made, in milliseconds after the Unix epoch.
    pub timestamp: i64,
}

/// The text of an optional bracketed part of an error context.
pub open spec fn context_part(label: Seq<char>, v: Option<Seq<char>>) -> Seq<char> {
    match v {
        Some(t) => " ["@ + label + ": "@ + t + "]"@,
        None => Seq::empty(),
    }
}

/// The text of an instant in an error context.
pub open spec fn instant_text(ms: i64) -> Seq<char> {
    match utc_instant_text(ms) {
        Some(t) => t,
        None => if ms >= 0 {
            decimal_text(ms as nat) + " ms"@
        } else {
            "-"@ + decimal_text((-ms) as nat) + " ms"@
        },
    }
}

/// The text of an error context.
pub open spec fn context_text(c: ErrorContext) -> Seq<char> {
    "Error at "@ + instant_text(c.timestamp) + context_part(
        "event_id"@,
        match c.event_id {
            Some(id) => Some(uuid_text(id)),
            None => None,
        },
    ) + context_part(
        "type"@,
        match c.event_type {
            Some(t) => Some(t@),
            None => None,
        },
    ) + context_part(
        "handler"@,
        match c.handler_name {
            Some(t) => Some(t@),
            None => None,
        },
    )
}

fn part_string(label: &str, v: Option<String>) -> (s: String)
    ensures
        s@ == context_part(
            label@,
            match v {
                Some(t) => Some(t@),
                None => None,
            },
        ),
{
    match v {
        Some(t) => String::from_str(" [").concat(label).concat(": ").concat(t.as_str()).concat("]"),
        None => String::new(),
    }
}

impl ErrorContext {
    /// A context made now, with nothing else known.
    pub fn new() -> (c: ErrorContext)
        ensures
            c.event_id is None,
            c.event_type is None,
            c.handler_name is None,
            c.timestamp >= 0,
    {
        ErrorContext { event_id: None, event_type: None, handler_name: None, timestamp: now_millis() }
    }

    /// Set the event identifier.
    pub fn with_event_id(self, id: u128) -> (c: ErrorContext)
        ensures
            c == (ErrorContext { event_id: Some(id), ..self }),
    {
        ErrorContext { event_id: Some(id), ..self }
    }

    /// Set the event type name.
    pub fn with_event_type(self, event_type: &str) -> (c: ErrorContext)
        ensures
            c.event_type matches Some(t) && t@ == event_type@,
            c.event_id == self.event_id,
            c.handler_name == self.handler_name,
            c.timestamp == self.timestamp,
    {
        ErrorContext { event_type: Some(event_type.to_owned()), ..self }
    }

    /// Set the handler name.
    pub fn with_handler(self, name: &str) -> (c: ErrorContext)
        ensures
            c.handler_name matches Some(t) && t@ == name@,
            c.event_id == self.event_id,
            c.event_type == self.event_type,
            c.timestamp == self.timestamp,
    {
        ErrorContext { handler_name: Some(name.to_owned()), ..self }
    }

    /// The text of the context (what `Display` shows).
    pub fn describe(&self) -> (s: String)
        ensures
            s@ == context_text(*self),
    {
        let when = match utc_string(self.timestamp) {
            Some(t) => t,
            None => {
                if self.timestamp >= 0 {
                    u64_text(self.timestamp as u64).concat(" ms")
                } else {
                    let mag: u64 = if self.timestamp == i64::MIN {
                        9223372036854775808u64
                    } else {
                        (-self.timestamp) as u64
                    };
                    String::from_str("-").concat(u64_text(mag).as_str()).concat(" ms")
                }
            },
        };
        let id_text = match self.event_id {
            Some(id) => Some(uuid_string(id)),
            None => None,
        };
        let type_text = match &self.event_type {
            Some(t) => Some(t.clone()),
            None => None,
        };
        let handler_text = match &self.handler_name {
            Some(t) => Some(t.clone()),
            None => None,
        };
        let s = String::from_str("Error at ").concat(when.as_str());
        let s = s.concat(part_string("event_id", id_text).as_str());
        let s = s.concat(part_string("type", type_text).as_str());
        let s = s.concat(part_string("handler", handler_text).as_str());
        s
    }
}

impl Default for ErrorContext {
    /// A context made now, with nothing else known.
    fn default() -> (c: ErrorContext)
        ensures
            c.event_id is None,
            c.event_type is None,
            c.handler_name is None,
            c.timestamp >= 0,
    {
        ErrorContext::new()
    }
}

} // verus!
