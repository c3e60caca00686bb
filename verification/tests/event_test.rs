use tokio_events::error::Error;
use tokio_events::event::{BroadcastEvent, Event, EventPriority};

#[derive(Debug, Clone)]
struct TestEvent {
    id: u64,
    data: String,
}

impl Event for TestEvent {
    fn event_type() -> &'static str {
        "TestEvent"
    }

    fn serialize_event(&self) -> Result<Vec<u8>, Error> {
        Ok(format!("{}|{}", self.id, self.data).into_bytes())
    }

    fn deserialize_event(bytes: &[u8]) -> Result<Self, Error> {
        let text = String::from_utf8(bytes.to_vec()).map_err(|e| Error::SerializationError(e.to_string()))?;
        let (id, data) = text.split_once('|').ok_or_else(|| Error::SerializationError("no separator".to_string()))?;
        let id = id.parse::<u64>().map_err(|e| Error::SerializationError(e.to_string()))?;
        Ok(TestEvent { id, data: data.to_string() })
    }
}

#[test]
fn test_event_type_id() {
    let type_id1 = <TestEvent as Event>::type_id();
    let type_id2 = <TestEvent as Event>::type_id();
    assert_eq!(type_id1, type_id2);
    assert_ne!(type_id1, <BroadcastEvent as Event>::type_id());
    let e = TestEvent { id: 1, data: "x".to_string() };
    assert_eq!(e.data, "x");
}

#[test]
fn test_priority_ordering() {
    assert!(EventPriority::Critical > EventPriority::High);
    assert!(EventPriority::High > EventPriority::Normal);
    assert!(EventPriority::Normal > EventPriority::Low);
}

#[test]
fn test_priority_ranks() {
    assert_eq!(EventPriority::Low.rank(), 0);
    assert_eq!(EventPriority::Normal.rank(), 1);
    assert_eq!(EventPriority::High.rank(), 2);
    assert_eq!(EventPriority::Critical.rank(), 3);
    assert!(EventPriority::Critical.outranks(&EventPriority::High));
    assert!(!EventPriority::Low.outranks(&EventPriority::Low));
    assert_eq!(EventPriority::default(), EventPriority::Normal);
}

#[test]
fn test_broadcast_event_json() {
    let e = BroadcastEvent { message: "Poison \"Pill\"".to_string() };
    let bytes = e.serialize_event().unwrap();
    assert_eq!(bytes, b"{\"message\":\"Poison \\\"Pill\\\"\"}".to_vec());
    let back = BroadcastEvent::deserialize_event(&bytes).unwrap();
    assert_eq!(back.message, "Poison \"Pill\"");
    assert_eq!(BroadcastEvent::event_type(), "BroadcastEvent");
}

#[test]
fn test_broadcast_event_rejects_bad_json() {
    assert!(matches!(
        BroadcastEvent::deserialize_event(b"{\"broken\": \"json\""),
        Err(Error::SerializationError(_))
    ));
    assert!(matches!(
        BroadcastEvent::deserialize_event(b"{\"other\": \"x\"}"),
        Err(Error::SerializationError(_))
    ));
    assert!(matches!(
        BroadcastEvent::deserialize_event(b"{\"message\": 5}"),
        Err(Error::SerializationError(_))
    ));
    let spaced = BroadcastEvent::deserialize_event(b"{ \"message\" : \"hi\", \"extra\": 1 }").unwrap();
    assert_eq!(spaced.message, "hi");
}

#[test]
fn test_test_event_round_trip() {
    let e = TestEvent { id: 123, data: "test".to_string() };
    let back = TestEvent::deserialize_event(&e.serialize_event().unwrap()).unwrap();
    assert_eq!(back.id, 123);
    assert_eq!(back.data, "test");
}

#[test]
fn test_broadcast_from_field_array() {
    let e = BroadcastEvent::deserialize_event(b"[\"hello\"]").unwrap();
    assert_eq!(e.message, "hello");
    assert!(BroadcastEvent::deserialize_event(b"[\"a\", \"b\"]").is_err());
    assert!(BroadcastEvent::deserialize_event(b"[5]").is_err());
}
