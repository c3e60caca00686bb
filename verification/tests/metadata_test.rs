use tokio_events::metadata::{EventMetadata, MetadataBuilder};
use uuid::Uuid;

#[test]
fn test_metadata_creation() {
    let metadata = EventMetadata::new();
    assert_ne!(metadata.event_id, Uuid::nil().as_u128());
    assert!(metadata.correlation_id.is_none());
    assert!(metadata.custom.is_empty());
}

#[test]
fn test_metadata_builder() {
    let correlation_id = Uuid::max().as_u128();
    let metadata = MetadataBuilder::new()
        .correlation_id(correlation_id)
        .source("test-service")
        .user_id("user123")
        .custom("environment", "test")
        .build();

    assert_eq!(metadata.correlation_id, Some(correlation_id));
    assert_eq!(metadata.source, Some("test-service".to_string()));
    assert_eq!(metadata.user_id, Some("user123".to_string()));
    assert_eq!(metadata.get_custom("environment"), Some(&"test".to_string()));
}

#[test]
fn test_metadata_chaining() {
    let parent = EventMetadata::new().set_user_id("user123").set_session_id("session456");

    let mut child = EventMetadata::new();
    child.chain_from(&parent);

    assert_eq!(child.causation_id, Some(parent.event_id));
    assert_eq!(child.correlation_id, Some(parent.event_id));
    assert_eq!(child.user_id, Some("user123".to_string()));
    assert_eq!(child.session_id, Some("session456".to_string()));
}

#[test]
fn test_chain_keeps_correlation_and_own_user() {
    let root = EventMetadata::with_correlation(77).set_user_id("root-user");
    let mut child = EventMetadata::new().set_user_id("child-user");
    child.chain_from(&root);
    assert_eq!(child.correlation_id, Some(77));
    assert_eq!(child.user_id, Some("child-user".to_string()));
    assert_eq!(child.session_id, None);
    let mut grandchild = EventMetadata::new();
    grandchild.chain_from(&child);
    assert_eq!(grandchild.correlation_id, Some(77));
    assert_eq!(grandchild.causation_id, Some(child.event_id));
}

#[test]
fn test_custom_pairs_replace() {
    let m = EventMetadata::new()
        .with_custom("tenant_id", "acme-corp")
        .with_custom("region", "eu-west-1")
        .with_custom("tenant_id", "other");
    assert_eq!(m.get_custom("tenant_id"), Some(&"other".to_string()));
    assert_eq!(m.get_custom("region"), Some(&"eu-west-1".to_string()));
    assert_eq!(m.get_custom("missing"), None);
    assert_eq!(m.custom_pairs().len(), 2);
    let list = vec![("a".to_string(), "1".to_string()), ("a".to_string(), "2".to_string())];
    let m2 = EventMetadata::new().with_custom_list(&list);
    assert_eq!(m2.get_custom("a"), Some(&"2".to_string()));
}

#[test]
fn test_schedule_and_routing_fields() {
    let m = EventMetadata::with_identity(5, 1_000)
        .with_topic("orders.eu")
        .with_reply_to("_INBOX.x")
        .with_idempotency_key("order_123")
        .schedule_at(2_000)
        .set_causation_id(4)
        .set_source("svc");
    assert_eq!(m.event_id, 5);
    assert_eq!(m.timestamp, 1_000);
    assert_eq!(m.topic, Some("orders.eu".to_string()));
    assert_eq!(m.reply_to, Some("_INBOX.x".to_string()));
    assert_eq!(m.idempotency_key, Some("order_123".to_string()));
    assert_eq!(m.deliver_at, Some(2_000));
    assert_eq!(m.causation_id, Some(4));
    assert_eq!(m.source, Some("svc".to_string()));
    let d = EventMetadata::with_identity(1, 0).delay_from(1_000, 500);
    assert_eq!(d.deliver_at, Some(1_500));
    let capped = EventMetadata::with_identity(1, 0).delay_from(i64::MAX - 1, 10);
    assert_eq!(capped.deliver_at, Some(i64::MAX));
    let later = EventMetadata::new().delay(60_000);
    assert!(later.deliver_at.unwrap() >= later.timestamp + 60_000 - 1_000);
}

#[test]
fn test_duplicate_copies_everything() {
    let m = EventMetadata::new().with_custom("k", "v").set_user_id("u");
    let d = m.duplicate();
    assert_eq!(d.event_id, m.event_id);
    assert_eq!(d.user_id, m.user_id);
    assert_eq!(d.custom, m.custom);
}
