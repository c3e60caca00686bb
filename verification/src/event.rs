//! Events: the trait every event type implements, priorities, and the built-in broadcast
//! event.
use vstd::prelude::*;
use std::any::TypeId;
use crate::error::Error;
use crate::foreign::{
    JsonValue, JsonValueView, json_array_items, json_array_values, json_string_bytes, json_string_encoding,
    json_object_entries, json_object_members, type_id_of,
};
use crate::json::{
    ascii_bytes, ascii_of, find_member, invalid_field, item_as_text, item_text, member_value, missing_field,
    not_an_object, wrong_length,
};

verus! {

/// What every event type provides: a stable name, a byte encoding, and its type identity.
/// Implemented by the users of the bus (usually by deriving it).
pub trait Event: Sized + Clone + Send + Sync + 'static {
    /// The stable name of the event type.
    fn event_type() -> &'static str;

    /// The event encoded as bytes.
    fn serialize_event(&self) -> Result<Vec<u8>, Error>;

    /// An event decoded from bytes.
    fn deserialize_event(bytes: &[u8]) -> Result<Self, Error>;

    /// The type identity used to route events of this type.
    fn type_id() -> TypeId {
        type_id_of::<Self>()
    }
}

/// How urgent an event is.
#[derive(Debug, Clone, Copy, PartialEq, Eq, Structural, PartialOrd, Ord, Hash)]
pub enum EventPriority {
    /// Processed last.
    Low,
    /// The default.
    Normal,
    /// Processed before normal events.
    High,
    /// Processed first.
    Critical,
}

/// The rank of a priority: higher ranks go first.
pub open spec fn priority_rank(p: EventPriority) -> int {
    match p {
        EventPriority::Low => 0,
        EventPriority::Normal => 1,
        EventPriority::High => 2,
        EventPriority::Critical => 3,
    }
}

impl EventPriority {
    /// The rank of this priority: 0 for `Low` up to 3 for `Critical`.
    pub fn rank(&self) -> (r: u8)
        ensures
            r == priority_rank(*self),
    {
        match self {
            EventPriority::Low => 0,
            EventPriority::Normal => 1,
            EventPriority::High => 2,
            EventPriority::Critical => 3,
        }
    }

    /// Whether this priority goes before `other`.
    pub fn outranks(&self, other: &EventPriority) -> (r: bool)
        ensures
            r == (priority_rank(*self) > priority_rank(*other)),
    {
        self.rank() > other.rank()
    }
}

impl Default for EventPriority {
    fn default() -> (p: EventPriority)
        ensures
            p == EventPriority::Normal,
    {
        EventPriority::Normal
    }
}

/// An event type that carries its own priority.
pub trait HasPriority {
    /// The event's priority; `Normal` unless the type says otherwise.
    fn priority(&self) -> (p: EventPriority)
        default_ensures
            p == EventPriority::Normal,
    {
        EventPriority::Normal
    }
}

/// An event for every subscriber of the system.
#[derive(Debug, Clone)]
pub struct BroadcastEvent {
    /// The message broadcast.
    pub message: String,
}

/// The JSON encoding of a broadcast event with message `m`: an object whose one member is
/// `message`.
pub open spec fn broadcast_json(m: Seq<char>) -> Seq<u8> {
    ascii_of("{\"message\":"@) + json_string_encoding(m) + ascii_of("}"@)
}

/// The broadcast event `bytes` decode to: the object's `message`, which must be a string,
/// or the one item, a string, of an array.
pub open spec fn broadcast_from_json(bytes: Seq<u8>) -> Option<Seq<char>> {
    match json_object_members(bytes) {
        Some(entries) => match member_value(entries, "message"@) {
            Some(JsonValueView::Text(m)) => Some(m),
            _ => None,
        },
        None => match json_array_values(bytes) {
            Some(items) => if items.len() == 1 {
                item_text(items[0])
            } else {
                None
            },
            None => None,
        },
    }
}

impl Event for BroadcastEvent {
    fn event_type() -> (r: &'static str)
        ensures
            r@ == "BroadcastEvent"@,
    {
        "BroadcastEvent"
    }

    fn serialize_event(&self) -> (r: Result<Vec<u8>, Error>)
        ensures
            r matches Ok(b) && b@ == broadcast_json(self.message@),
    {
        proof {
            reveal_strlit("{\"message\":");
            reveal_strlit("}");
        }
        let mut out = ascii_bytes("{\"message\":");
        let mut body = json_string_bytes(self.message.as_str());
        out.append(&mut body);
        let mut tail = ascii_bytes("}");
        out.append(&mut tail);
        Ok(out)
    }

    fn deserialize_event(bytes: &[u8]) -> (r: Result<BroadcastEvent, Error>)
        ensures
            match broadcast_from_json(bytes@) {
                Some(m) => r matches Ok(e) && e.message@ == m,
                None => r matches Err(Error::SerializationError(_)),
            },
    {
        proof {
            reveal_strlit("message");
        }
        match json_object_entries(bytes) {
            Some(entries) => match find_member(&entries, "message") {
                Some(JsonValue::Text(m)) => Ok(BroadcastEvent { message: m.clone() }),
                Some(_) => Err(invalid_field("message")),
                None => Err(missing_field("message")),
            },
            None => match json_array_items(bytes) {
                Some(items) => if items.len() == 1 {
                    match item_as_text(&items[0], "message") {
                        Ok(m) => Ok(BroadcastEvent { message: m }),
                        Err(e) => Err(e),
                    }
                } else {
                    Err(wrong_length())
                },
                None => Err(not_an_object()),
            },
        }
    }
}

/// An event that also travels between processes over a remote transport.
pub trait Remote: Event {
    /// The routing topic on the network: at least three non-empty segments separated by
    /// dots, such as `domain.service.entity`.
    fn remote_topic() -> &'static str;
}

} // verus!
