use std::any::TypeId;
use tokio_events::envelope::{EnvelopeBuilder, EventEnvelope, PayloadSource};
use tokio_events::error::Error;
use tokio_events::event::{BroadcastEvent, Event, EventPriority};
use tokio_events::metadata::EventMetadata;
use uuid::Uuid;

#[derive(Debug, Clone)]
struct TestEvent {
    id: u64,
    message: String,
}

impl Event for TestEvent {
    fn event_type() -> &'static str {
        "TestEvent"
    }

    fn serialize_event(&self) -> Result<Vec<u8>, Error> {
        Ok(format!("{}|{}", self.id, self.message).into_bytes())
    }

    fn deserialize_event(bytes: &[u8]) -> Result<Self, Error> {
        let text = String::from_utf8(bytes.to_vec()).map_err(|e| Error::SerializationError(e.to_string()))?;
        let (id, message) = text.split_once('|').ok_or_else(|| Error::SerializationError("no separator".to_string()))?;
        let id = id.parse::<u64>().map_err(|e| Error::SerializationError(e.to_string()))?;
        Ok(TestEvent { id, message: message.to_string() })
    }
}

#[derive(Debug, Clone)]
struct StringEvent(String);

impl Event for StringEvent {
    fn event_type() -> &'static str {
        "StringEvent"
    }

    fn serialize_event(&self) -> Result<Vec<u8>, Error> {
        Ok(self.0.clone().into_bytes())
    }

    fn deserialize_event(bytes: &[u8]) -> Result<Self, Error> {
        String::from_utf8(bytes.to_vec())
            .map(StringEvent)
            .map_err(|e| Error::SerializationError(e.to_string()))
    }
}

#[test]
fn test_envelope_creation() {
    let event = TestEvent { id: 123, message: "test".to_string() };

    let envelope = EventEnvelope::new(event.clone());
    assert_eq!(envelope.event_type(), "TestEvent");
    assert_eq!(envelope.type_id(), TypeId::of::<TestEvent>());
    assert!(envelope.is_type(&TypeId::of::<TestEvent>()));
    assert!(!envelope.is_type(&TypeId::of::<StringEvent>()));
}

#[test]
fn test_envelope_downcast() {
    let event = TestEvent { id: 456, message: "downcast test".to_string() };

    let envelope = EventEnvelope::new(event);

    let downcast = envelope.get_event();
    assert!(downcast.is_ok());
    assert_eq!(downcast.unwrap().id, 456);
    let wrong_downcast = envelope.get_event_as(&TypeId::of::<StringEvent>());
    assert!(wrong_downcast.is_err());
    assert!(matches!(wrong_downcast, Err(Error::EventNotRegistered { ref event_type }) if event_type == "TestEvent"));
}

#[test]
fn test_envelope_builder() {
    let correlation_id = Uuid::max().as_u128();
    let event = TestEvent { id: 789, message: "builder test".to_string() };

    let envelope = EnvelopeBuilder::new(event)
        .correlation_id(correlation_id)
        .source("test-source")
        .priority(EventPriority::High)
        .build();

    assert_eq!(envelope.correlation_id(), Some(correlation_id));
    assert_eq!(envelope.metadata.source, Some("test-source".to_string()));
    assert_eq!(envelope.priority, EventPriority::High);
}

#[test]
fn test_envelope_chaining() {
    let parent_event = TestEvent { id: 1, message: "parent".to_string() };
    let parent_envelope = EventEnvelope::new(parent_event);

    let child_event = TestEvent { id: 2, message: "child".to_string() };
    let child_envelope = parent_envelope.chain(child_event);

    assert_eq!(child_envelope.metadata.causation_id, Some(parent_envelope.event_id()));
    assert_eq!(child_envelope.metadata.correlation_id, Some(parent_envelope.event_id()));
}

#[test]
fn test_envelope_poison_pill() {
    let mut envelope = EventEnvelope::new(BroadcastEvent { message: "Poison Pill".to_string() });

    let broken_bytes = b"{\"broken\": \"json\"";
    envelope.payload_bytes = Some(broken_bytes.to_vec());

    assert_eq!(envelope.payload_bytes.as_deref(), Some(broken_bytes.as_slice()));
    assert_eq!(envelope.payload_bytes(), Some(broken_bytes.as_slice()));
}

#[test]
fn test_serialized_envelope_round_trip() {
    let event = TestEvent { id: 9, message: "disk".to_string() };
    let bytes = event.serialize_event().unwrap();
    let env: EventEnvelope<TestEvent> = EventEnvelope::from_serialized(
        TypeId::of::<TestEvent>(),
        "TestEvent".to_string(),
        EventMetadata::with_identity(3, 0),
        EventPriority::Low,
        bytes.clone(),
    );
    assert_eq!(env.payload_source(&TypeId::of::<TestEvent>(), false), PayloadSource::Bytes);
    let back = env.get_event().unwrap();
    assert_eq!(back.id, 9);
    assert_eq!(back.message, "disk");
    let again = env.into_bytes(|e: &TestEvent| e.serialize_event()).unwrap();
    assert_eq!(again, bytes);
    assert_eq!(env.event_id(), 3);
}

#[test]
fn test_in_memory_into_bytes_and_empty() {
    let env = EventEnvelope::new(TestEvent { id: 4, message: "m".to_string() });
    let bytes = env.into_bytes(|e: &TestEvent| e.serialize_event()).unwrap();
    assert_eq!(bytes, b"4|m".to_vec());
    let empty: EventEnvelope<TestEvent> = EventEnvelope::from_serialized(
        TypeId::of::<TestEvent>(),
        "TestEvent".to_string(),
        EventMetadata::with_identity(3, 0),
        EventPriority::Normal,
        Vec::new(),
    );
    let mut empty = empty;
    empty.payload_bytes = None;
    assert_eq!(empty.payload_source(&TypeId::of::<TestEvent>(), false), PayloadSource::Empty);
    assert!(matches!(empty.get_event(), Err(Error::Internal(ref m)) if m == "Event envelope is empty"));
    assert!(matches!(empty.into_bytes(|e: &TestEvent| e.serialize_event()), Err(Error::Internal(_))));
    let erased = env.map_payload(|e| e.id);
    assert_eq!(erased.payload, Some(4));
    assert_eq!(erased.event_type(), "TestEvent");
}
