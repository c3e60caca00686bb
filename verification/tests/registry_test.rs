use std::any::TypeId;
use tokio_events::error::Error;
use tokio_events::registry::{DashMapRegistry, SubscriptionEntry};
use uuid::Uuid;

struct TestEvent;
struct AnotherEvent;

fn test_type() -> TypeId {
    TypeId::of::<TestEvent>()
}

fn another_type() -> TypeId {
    TypeId::of::<AnotherEvent>()
}

#[test]
fn test_register_and_get() {
    let mut registry = DashMapRegistry::new();
    let sub_id = Uuid::max().as_u128();
    let subscription = SubscriptionEntry::new(sub_id);

    registry.register(test_type(), subscription).unwrap();

    let subs = registry.get_subscriptions(test_type());
    assert_eq!(subs.len(), 1);
    assert_eq!(subs[0].id, sub_id);
}

#[test]
fn test_unregister() {
    let mut registry = DashMapRegistry::new();
    let sub_id = Uuid::max().as_u128();
    let subscription = SubscriptionEntry::new(sub_id);

    registry.register(test_type(), subscription).unwrap();
    assert_eq!(registry.total_subscriptions(), 1);

    registry.unregister(sub_id).unwrap();
    assert_eq!(registry.total_subscriptions(), 0);

    let subs = registry.get_subscriptions(test_type());
    assert!(subs.is_empty());
}

#[test]
fn test_multiple_subscriptions() {
    let mut registry = DashMapRegistry::new();

    for i in 0..3 {
        let sub = SubscriptionEntry::with_name(Uuid::new_v4().as_u128(), &format!("handler-{}", i));
        registry.register(test_type(), sub).unwrap();
    }

    let other_sub = SubscriptionEntry::new(Uuid::new_v4().as_u128());
    registry.register(another_type(), other_sub).unwrap();

    assert_eq!(registry.subscription_count(test_type()), 3);
    assert_eq!(registry.subscription_count(another_type()), 1);
    assert_eq!(registry.total_subscriptions(), 4);
    assert_eq!(registry.event_types().len(), 2);
}

#[test]
fn test_deactivate() {
    let mut registry = DashMapRegistry::new();
    let sub_id = Uuid::max().as_u128();
    let subscription = SubscriptionEntry::new(sub_id);

    registry.register(test_type(), subscription).unwrap();

    registry.deactivate(sub_id).unwrap();

    let active_subs = registry.get_subscriptions(test_type());
    assert!(active_subs.is_empty());

    let sub = registry.get_subscription(sub_id).unwrap();
    assert!(!sub.active);
}

#[test]
fn test_increment_processed() {
    let mut registry = DashMapRegistry::new();
    let sub_id = Uuid::max().as_u128();
    let subscription = SubscriptionEntry::new(sub_id);

    registry.register(test_type(), subscription).unwrap();

    registry.increment_processed(sub_id);
    registry.increment_processed(sub_id);

    let sub = registry.get_subscription(sub_id).unwrap();
    assert_eq!(sub.events_processed, 2);
}

#[test]
fn test_subscription_entry() {
    let id = Uuid::max().as_u128();
    let entry = SubscriptionEntry::new(id);

    assert_eq!(entry.id, id);
    assert!(entry.active);
    assert_eq!(entry.events_processed, 0);
    assert!(entry.name.is_none());
}

#[test]
fn test_subscription_entry_with_name() {
    let id = Uuid::max().as_u128();
    let entry = SubscriptionEntry::with_name(id, "test-handler");

    assert_eq!(entry.name, Some("test-handler".to_string()));
}

#[test]
fn test_unknown_subscription_errors() {
    let mut registry = DashMapRegistry::new();
    assert!(matches!(registry.unregister(7), Err(Error::SubscriptionNotFound { id: 7 })));
    assert!(matches!(registry.deactivate(9), Err(Error::SubscriptionNotFound { id: 9 })));
    assert!(registry.get_subscription(7).is_none());
    registry.increment_processed(7);
    assert_eq!(registry.total_subscriptions(), 0);
}

#[test]
fn test_register_then_unregister_restores() {
    let mut registry = DashMapRegistry::new();
    registry.register(test_type(), SubscriptionEntry::new(1)).unwrap();
    registry.register(test_type(), SubscriptionEntry::new(2)).unwrap();
    registry.register(another_type(), SubscriptionEntry::new(3)).unwrap();
    registry.unregister(2).unwrap();
    let subs = registry.get_subscriptions(test_type());
    assert_eq!(subs.len(), 1);
    assert_eq!(subs[0].id, 1);
    registry.unregister(3).unwrap();
    assert_eq!(registry.event_types(), vec![test_type()]);
    assert_eq!(registry.subscription_count(another_type()), 0);
}

#[test]
fn test_order_and_inactive_counting() {
    let mut registry = DashMapRegistry::new();
    for id in [10u128, 11, 12] {
        registry.register(test_type(), SubscriptionEntry::new(id)).unwrap();
    }
    registry.deactivate(11).unwrap();
    let ids: Vec<u128> = registry.get_subscriptions(test_type()).iter().map(|e| e.id).collect();
    assert_eq!(ids, vec![10, 12]);
    assert_eq!(registry.subscription_count(test_type()), 3);
    let stats = registry.stats();
    assert_eq!(stats.event_types, 1);
    assert_eq!(stats.total_subscriptions, 3);
    assert_eq!(stats.active_subscriptions, 2);
    assert_eq!(stats.inactive_subscriptions, 1);
}

#[test]
fn test_type_names() {
    let mut registry = DashMapRegistry::new();
    registry.register_named(test_type(), "TestEvent", SubscriptionEntry::new(1)).unwrap();
    assert_eq!(registry.get_type_id("TestEvent"), Some(test_type()));
    assert_eq!(registry.get_type_id("Missing"), None);
    registry.register_named(another_type(), "TestEvent", SubscriptionEntry::new(2)).unwrap();
    assert_eq!(registry.get_type_id("TestEvent"), Some(another_type()));
    registry.clear();
    assert_eq!(registry.get_type_id("TestEvent"), None);
    assert_eq!(registry.total_subscriptions(), 0);
}

#[test]
fn test_topic_subscriptions() {
    let mut registry = DashMapRegistry::new();
    registry.register(test_type(), SubscriptionEntry::new(1).with_topic("orders.*.created")).unwrap();
    registry.register(test_type(), SubscriptionEntry::new(2).with_topic("orders.>")).unwrap();
    registry.register(test_type(), SubscriptionEntry::new(3)).unwrap();
    let mut ids: Vec<u128> = registry.get_topic_subscriptions("orders.eu.created").iter().map(|e| e.id).collect();
    ids.sort();
    assert_eq!(ids, vec![1, 2]);
    assert_eq!(registry.topic_subscription_count("orders.eu.created"), 2);
    assert_eq!(registry.topic_subscription_count("orders.eu.created.v2"), 1);
    assert_eq!(registry.topic_subscription_count("users.created"), 0);
    registry.deactivate(2).unwrap();
    assert_eq!(registry.topic_subscription_count("orders.eu.created"), 1);
    registry.unregister(1).unwrap();
    assert_eq!(registry.topic_subscription_count("orders.eu.created"), 0);
}
