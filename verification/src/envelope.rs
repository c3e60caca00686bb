//! The envelope an event travels in: its payload (in memory, or as bytes after a trip
//! through storage or the network), its type, its metadata and its priority.
use vstd::prelude::*;
use std::any::TypeId;
use crate::error::Error;
use crate::event::{Event, EventPriority, HasPriority};
use crate::foreign::type_ids_equal;
use crate::metadata::{EventMetadata, opt_text};

verus! {

/// An event with its type, metadata and priority. `P` is how the payload is held in
/// memory: the event itself, or a type-erased handle to it.
#[derive(Debug, Clone)]
pub struct EventEnvelope<P> {
    /// The payload held in memory, where the envelope was made from an event.
    pub payload: Option<P>,
    /// The payload as bytes, where the envelope was rebuilt from storage or the network.
    pub payload_bytes: Option<Vec<u8>>,
    /// The type identity of the payload.
    pub type_id: TypeId,
    /// The name of the payload's type.
    pub event_name: String,
    /// The event's metadata.
    pub metadata: EventMetadata,
    /// The event's priority.
    pub priority: EventPriority,
}

/// Where a payload of a wanted type comes from.
#[derive(Debug, Clone, Copy, PartialEq, Eq, Structural)]
pub enum PayloadSource {
    /// The envelope holds another type.
    WrongType,
    /// The payload is in memory.
    InMemory,
    /// The payload is decoded from the envelope's bytes.
    Bytes,
    /// The envelope holds neither.
    Empty,
}

impl<P> EventEnvelope<P> {
    /// An envelope for an in-memory payload with the given type, name and metadata, at
    /// normal priority.
    pub fn from_parts(payload: P, type_id: TypeId, event_name: &str, metadata: EventMetadata) -> (e: EventEnvelope<P>)
        ensures
            e.payload == Some(payload),
            e.payload_bytes is None,
            e.type_id == type_id,
            e.event_name@ == event_name@,
            e.metadata == metadata,
            e.priority == EventPriority::Normal,
    {
        EventEnvelope {
            payload: Some(payload),
            payload_bytes: None,
            type_id,
            event_name: event_name.to_owned(),
            metadata,
            priority: EventPriority::Normal,
        }
    }

    /// An envelope rebuilt from bytes read back from storage or the network.
    pub fn from_serialized(
        type_id: TypeId,
        event_name: String,
        metadata: EventMetadata,
        priority: EventPriority,
        payload_bytes: Vec<u8>,
    ) -> (e: EventEnvelope<P>)
        ensures
            e.payload is None,
            e.payload_bytes == Some(payload_bytes),
            e.type_id == type_id,
            e.event_name@ == event_name@,
            e.metadata == metadata,
            e.priority == priority,
    {
        EventEnvelope { payload: None, payload_bytes: Some(payload_bytes), type_id, event_name, metadata, priority }
    }

    /// The payload bytes, where the envelope holds any.
    pub fn payload_bytes(&self) -> (r: Option<&[u8]>)
        ensures
            match self.payload_bytes {
                Some(b) => r matches Some(s) && s@ == b@,
                None => r is None,
            },
    {
        match &self.payload_bytes {
            Some(b) => Some(b.as_slice()),
            None => None,
        }
    }

    /// The name of the payload's type.
    pub fn event_type(&self) -> (r: &str)
        ensures
            r@ == self.event_name@,
    {
        self.event_name.as_str()
    }

    /// The type identity of the payload.
    pub fn type_id(&self) -> (r: TypeId)
        ensures
            r == self.type_id,
    {
        self.type_id
    }

    /// The payload held in memory, if any.
    pub fn payload(&self) -> (r: Option<&P>)
        ensures
            match self.payload {
                Some(p) => r == Some(&p),
                None => r is None,
            },
    {
        match &self.payload {
            Some(p) => Some(p),
            None => None,
        }
    }

    /// Whether the payload is of type `wanted`.
    pub fn is_type(&self, wanted: &TypeId) -> (r: bool)
        ensures
            r == (self.type_id == *wanted),
    {
        type_ids_equal(&self.type_id, wanted)
    }

    /// Where a payload of type `wanted` comes from, given whether the in-memory payload is
    /// one: not from this envelope if its type differs; else from memory, else from the
    /// bytes, else nowhere.
    pub fn payload_source(&self, wanted: &TypeId, in_memory: bool) -> (r: PayloadSource)
        ensures
            r == (if self.type_id != *wanted {
                PayloadSource::WrongType
            } else if in_memory {
                PayloadSource::InMemory
            } else if self.payload_bytes is Some {
                PayloadSource::Bytes
            } else {
                PayloadSource::Empty
            }),
    {
        if !type_ids_equal(&self.type_id, wanted) {
            PayloadSource::WrongType
        } else if in_memory {
            PayloadSource::InMemory
        } else if self.payload_bytes.is_some() {
            PayloadSource::Bytes
        } else {
            PayloadSource::Empty
        }
    }

    /// The error for asking this envelope for a payload of another type.
    pub fn wrong_type_error(&self) -> (e: Error)
        ensures
            e matches Error::EventNotRegistered { event_type } && event_type@ == self.event_name@,
    {
        Error::EventNotRegistered { event_type: self.event_name.clone() }
    }

    /// The payload as bytes: the bytes held, else what `serializer` makes of the in-memory
    /// payload, else an error.
    pub fn into_bytes<F: Fn(&P) -> Result<Vec<u8>, Error>>(&self, serializer: F) -> (r: Result<Vec<u8>, Error>)
        requires
            self.payload_bytes is None ==> (self.payload matches Some(p) ==> call_requires(serializer, (&p,))),
        ensures
            match self.payload_bytes {
                Some(b) => r matches Ok(v) && v@ == b@,
                None => match self.payload {
                    Some(p) => call_ensures(serializer, (&p,), r),
                    None => r matches Err(Error::Internal(m)) && m@ == "Event envelope is empty"@,
                },
            },
    {
        match &self.payload_bytes {
            Some(b) => Ok(b.clone()),
            None => match &self.payload {
                Some(p) => serializer(p),
                None => Err(Error::internal("Event envelope is empty")),
            },
        }
    }

    /// The correlation identifier of the event.
    pub fn correlation_id(&self) -> (r: Option<u128>)
        ensures
            r == self.metadata.correlation_id,
    {
        self.metadata.correlation_id
    }

    /// The identifier of the event.
    pub fn event_id(&self) -> (r: u128)
        ensures
            r == self.metadata.event_id,
    {
        self.metadata.event_id
    }

    /// The same envelope with its in-memory payload turned into another form by `f`.
    pub fn map_payload<Q, F: FnOnce(P) -> Q>(self, f: F) -> (e: EventEnvelope<Q>)
        requires
            self.payload matches Some(p) ==> call_requires(f, (p,)),
        ensures
            match self.payload {
                Some(p) => e.payload matches Some(q) && call_ensures(f, (p,), q),
                None => e.payload is None,
            },
            e.payload_bytes == self.payload_bytes,
            e.type_id == self.type_id,
            e.event_name@ == self.event_name@,
            e.metadata == self.metadata,
            e.priority == self.priority,
    {
        let payload = match self.payload {
            Some(p) => Some(f(p)),
            None => None,
        };
        EventEnvelope {
            payload,
            payload_bytes: self.payload_bytes,
            type_id: self.type_id,
            event_name: self.event_name,
            metadata: self.metadata,
            priority: self.priority,
        }
    }
}

impl<T: Event> EventEnvelope<T> {
    /// The envelope carries `T`'s identity: the type identity `T::type_id` gives and a
    /// name `T::event_type` gives, as far as their contracts say.
    pub open spec fn identifies_payload_type(&self) -> bool {
        &&& call_ensures(T::type_id, (), self.type_id)
        &&& exists|n: &'static str| #[trigger] call_ensures(T::event_type, (), n) && self.event_name@ == n@
    }

    /// An envelope for `event` with fresh metadata, at normal priority.
    pub fn new(event: T) -> (e: EventEnvelope<T>)
        ensures
            e.identifies_payload_type(),
            e.payload == Some(event),
            e.payload_bytes is None,
            e.priority == EventPriority::Normal,
            e.metadata.wf(),
            e.metadata.event_id != 0,
            e.metadata.correlation_id is None,
            e.metadata.causation_id is None,
            e.metadata.deliver_at is None,
            e.metadata.topic is None,
            e.metadata.reply_to is None,
    {
        EventEnvelope::with_metadata(event, EventMetadata::new())
    }

    /// An envelope for `event` with the given metadata, at normal priority.
    pub fn with_metadata(event: T, metadata: EventMetadata) -> (e: EventEnvelope<T>)
        ensures
            e.identifies_payload_type(),
            e.payload == Some(event),
            e.payload_bytes is None,
            e.metadata == metadata,
            e.priority == EventPriority::Normal,
    {
        let identify = T::type_id;
        let t = identify();
        let name_of = T::event_type;
        let n = name_of();
        let e = EventEnvelope::from_parts(event, t, n, metadata);
        assert(call_ensures(T::event_type, (), n) && e.event_name@ == n@);
        e
    }

    /// Whether `r` is a result `T`'s decoder can give for the bytes `bytes`.
    pub open spec fn decoded_from(bytes: Seq<u8>, r: Result<T, Error>) -> bool {
        exists|s: &[u8]| s@ == bytes && #[trigger] call_ensures(T::deserialize_event, (s,), r)
    }

    /// What asking this envelope for its event as the type identified by `wanted` gives:
    /// the wrong-type error where the envelope holds another type; where it holds that
    /// type, a clone of the in-memory payload, else what `T` decodes from the bytes, else
    /// the empty-envelope error.
    pub open spec fn outcome_as(&self, wanted: TypeId, r: Result<T, Error>) -> bool {
        if self.type_id != wanted {
            r matches Err(Error::EventNotRegistered { event_type }) && event_type@ == self.event_name@
        } else {
            match self.payload {
                Some(p) => r matches Ok(v) && cloned(p, v),
                None => match self.payload_bytes {
                    Some(b) => Self::decoded_from(b@, r),
                    None => r matches Err(Error::Internal(m)) && m@ == "Event envelope is empty"@,
                },
            }
        }
    }

    /// The event in the envelope, taken as being of the type identified by `wanted`:
    /// an error if the envelope holds another type; else a copy of the in-memory payload,
    /// else what `T` decodes from the bytes, else an error.
    pub fn get_event_as(&self, wanted: &TypeId) -> (r: Result<T, Error>)
        ensures
            self.outcome_as(*wanted, r),
    {
        match self.payload_source(wanted, self.payload.is_some()) {
            PayloadSource::WrongType => Err(self.wrong_type_error()),
            PayloadSource::InMemory => match &self.payload {
                Some(p) => Ok(p.clone()),
                None => Err(Error::internal("Event envelope is empty")),
            },
            PayloadSource::Bytes => match &self.payload_bytes {
                Some(b) => {
                    let decode = T::deserialize_event;
                    let s = b.as_slice();
                    let r = decode(s);
                    assert(call_ensures(T::deserialize_event, (s,), r));
                    r
                },
                None => Err(Error::internal("Event envelope is empty")),
            },
            PayloadSource::Empty => Err(Error::internal("Event envelope is empty")),
        }
    }

    /// The event in the envelope as a `T`: what `get_event_as` gives for the identity that
    /// `T::type_id` returns. Which identity that is rests on `std::any::TypeId::of`, of
    /// which nothing is stated, so the contract ties it to `T::type_id`'s own contract.
    pub fn get_event(&self) -> (r: Result<T, Error>)
        ensures
            exists|w: TypeId| call_ensures(T::type_id, (), w) && #[trigger] self.outcome_as(w, r),
            self.payload is None && self.payload_bytes is None ==> r is Err,
    {
        let identify = T::type_id;
        let wanted = identify();
        let r = self.get_event_as(&wanted);
        assert(self.outcome_as(wanted, r));
        r
    }

    /// An envelope for `event`, caused by this one: its causation is this event, its
    /// correlation this event's correlation (or this event where it has none), and it
    /// inherits this event's user and session.
    pub fn chain<U: Event>(&self, event: U) -> (e: EventEnvelope<U>)
        ensures
            e.identifies_payload_type(),
            e.payload == Some(event),
            e.metadata.causation_id == Some(self.metadata.event_id),
            e.metadata.correlation_id == Some(match self.metadata.correlation_id {
                Some(c) => c,
                None => self.metadata.event_id,
            }),
            e.metadata.user_id == self.metadata.user_id,
            e.metadata.session_id == self.metadata.session_id,
            e.priority == EventPriority::Normal,
    {
        let mut metadata = EventMetadata::new();
        metadata.chain_from(&self.metadata);
        EventEnvelope::with_metadata(event, metadata)
    }
}

impl<T: Event + HasPriority> EventEnvelope<T> {
    /// An envelope for `event` with the given metadata, at the event's own priority.
    pub fn with_priority(event: T, metadata: EventMetadata) -> (e: EventEnvelope<T>)
        ensures
            e.identifies_payload_type(),
            call_ensures(T::priority, (&event,), e.priority),
            e.payload == Some(event),
            e.payload_bytes is None,
            e.metadata == metadata,
    {
        let priority_of = T::priority;
        let priority = priority_of(&event);
        let mut e = EventEnvelope::with_metadata(event, metadata);
        e.priority = priority;
        e
    }
}

/// Builds an envelope step by step.
#[derive(Debug)]
pub struct EnvelopeBuilder<T> {
    event: T,
    metadata: EventMetadata,
    priority: Option<EventPriority>,
}

impl<T: Event> EnvelopeBuilder<T> {
    /// The event being wrapped.
    pub closed spec fn event_spec(&self) -> T {
        self.event
    }

    /// The metadata so far.
    pub closed spec fn metadata_spec(&self) -> EventMetadata {
        self.metadata
    }

    /// The priority chosen, if any.
    pub closed spec fn priority_spec(&self) -> Option<EventPriority> {
        self.priority
    }

    /// A builder for `event` with fresh metadata and no priority chosen.
    pub fn new(event: T) -> (b: EnvelopeBuilder<T>)
        ensures
            b.event_spec() == event,
            b.metadata_spec().wf(),
            b.metadata_spec().correlation_id is None,
            b.metadata_spec().causation_id is None,
            b.metadata_spec().source is None,
            b.priority_spec() is None,
    {
        EnvelopeBuilder { event, metadata: EventMetadata::new(), priority: None }
    }

    /// Use `metadata`.
    pub fn metadata(self, metadata: EventMetadata) -> (b: EnvelopeBuilder<T>)
        ensures
            b.event_spec() == self.event_spec(),
            b.metadata_spec() == metadata,
            b.priority_spec() == self.priority_spec(),
    {
        EnvelopeBuilder { metadata, ..self }
    }

    /// Set the correlation identifier.
    pub fn correlation_id(self, id: u128) -> (b: EnvelopeBuilder<T>)
        ensures
            b.event_spec() == self.event_spec(),
            b.metadata_spec() == (EventMetadata { correlation_id: Some(id), ..self.metadata_spec() }),
            b.priority_spec() == self.priority_spec(),
    {
        let m = self.metadata.set_correlation_id(id);
        EnvelopeBuilder { metadata: m, ..self }
    }

    /// Set the causation identifier.
    pub fn causation_id(self, id: u128) -> (b: EnvelopeBuilder<T>)
        ensures
            b.event_spec() == self.event_spec(),
            b.metadata_spec() == (EventMetadata { causation_id: Some(id), ..self.metadata_spec() }),
            b.priority_spec() == self.priority_spec(),
    {
        let m = self.metadata.set_causation_id(id);
        EnvelopeBuilder { metadata: m, ..self }
    }

    /// Set the source.
    pub fn source(self, source: &str) -> (b: EnvelopeBuilder<T>)
        ensures
            b.event_spec() == self.event_spec(),
            opt_text(b.metadata_spec().source) == Some(source@),
            b.metadata_spec() == (EventMetadata { source: b.metadata_spec().source, ..self.metadata_spec() }),
            b.priority_spec() == self.priority_spec(),
    {
        let m = self.metadata.set_source(source);
        EnvelopeBuilder { metadata: m, ..self }
    }

    /// Set the priority.
    pub fn priority(self, priority: EventPriority) -> (b: EnvelopeBuilder<T>)
        ensures
            b.event_spec() == self.event_spec(),
            b.metadata_spec() == self.metadata_spec(),
            b.priority_spec() == Some(priority),
    {
        EnvelopeBuilder { priority: Some(priority), ..self }
    }

    /// The envelope: the event with the metadata built, at the priority chosen, or normal
    /// priority where none was.
    pub fn build(self) -> (e: EventEnvelope<T>)
        ensures
            e.identifies_payload_type(),
            e.payload == Some(self.event_spec()),
            e.payload_bytes is None,
            e.metadata == self.metadata_spec(),
            e.priority == match self.priority_spec() {
                Some(p) => p,
                None => EventPriority::Normal,
            },
    {
        let mut e = EventEnvelope::with_metadata(self.event, self.metadata);
        if let Some(p) = self.priority {
            e.priority = p;
        }
        e
    }
}

} // verus!
