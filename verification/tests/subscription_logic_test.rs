use tokio_events::error::Error;
use tokio_events::event::Event;
use tokio_events::registry::SubscriptionEntry;
use tokio_events::subscription::{
    dispatch_targets, label_for, topic_handler_name, wrong_event_error, FunctionHandler, HandlerStats,
    RetryPolicy, RetryStep, SubscriptionBuilder, SubscriptionStats, TypedHandlerAdapter,
    WeakSubscriptionHandle,
};

#[derive(Debug, Clone)]
struct TestEvent {
    value: i32,
}

impl Event for TestEvent {
    fn event_type() -> &'static str {
        "TestEvent"
    }

    fn serialize_event(&self) -> Result<Vec<u8>, Error> {
        Ok(self.value.to_string().into_bytes())
    }

    fn deserialize_event(bytes: &[u8]) -> Result<Self, Error> {
        let text = String::from_utf8(bytes.to_vec()).map_err(|e| Error::SerializationError(e.to_string()))?;
        let value = text.parse::<i32>().map_err(|e| Error::SerializationError(e.to_string()))?;
        Ok(TestEvent { value })
    }
}

#[test]
fn test_retry_then_dead_letter() {
    let policy = RetryPolicy { max_retries: 3, retry_backoff: 100 };
    assert_eq!(policy.after_failure(0), RetryStep::Retry { attempt: 1, backoff_ms: 100 });
    assert_eq!(policy.after_failure(1), RetryStep::Retry { attempt: 2, backoff_ms: 200 });
    assert_eq!(policy.after_failure(2), RetryStep::Retry { attempt: 3, backoff_ms: 400 });
    assert_eq!(policy.after_failure(3), RetryStep::DeadLetter { attempts: 4 });
    let none = RetryPolicy { max_retries: 0, retry_backoff: 10 };
    assert_eq!(none.after_failure(0), RetryStep::DeadLetter { attempts: 1 });
}

#[test]
fn test_dispatch_targets_merge() {
    let type_entries = vec![
        SubscriptionEntry::new(1),
        SubscriptionEntry::new(2).with_topic("orders.*"),
        SubscriptionEntry::new(3),
    ];
    let topic_entries = vec![
        SubscriptionEntry::new(2).with_topic("orders.*"),
        SubscriptionEntry::new(3),
        SubscriptionEntry::new(4).with_topic("orders.>"),
        SubscriptionEntry::new(4).with_topic("orders.>"),
    ];
    let ids: Vec<u128> = dispatch_targets(&type_entries, &topic_entries).iter().map(|e| e.id).collect();
    assert_eq!(ids, vec![1, 3, 2, 4]);
    let none: Vec<SubscriptionEntry> = Vec::new();
    assert!(dispatch_targets(&none, &none).is_empty());
}

#[test]
fn test_handler_names() {
    assert_eq!(label_for("Handler", "TestEvent"), "Handler<TestEvent>");
    assert_eq!(topic_handler_name("TestEvent", "orders.*"), "TopicHandler<TestEvent>::orders.*");
    let h: FunctionHandler<TestEvent, fn(TestEvent)> = FunctionHandler::new(|_e| {});
    assert_eq!(h.name(), "FunctionHandler<TestEvent>");
    let named: FunctionHandler<TestEvent, fn(TestEvent)> = FunctionHandler::with_name(|_e| {}, "custom");
    assert_eq!(named.name(), "custom");
    (named.function())(TestEvent { value: 42 });
    let adapter: TypedHandlerAdapter<TestEvent, u8> = TypedHandlerAdapter::new(7);
    assert_eq!(*adapter.handler(), 7);
    assert!(matches!(wrong_event_error("StringEvent"), Error::EventNotRegistered { ref event_type } if event_type == "StringEvent"));
}

#[test]
fn test_subscription_builder() {
    let handle = SubscriptionBuilder::new().name("built-subscription").auto_unsubscribe(true).build();

    assert_eq!(handle.name(), Some("built-subscription"));
    assert_ne!(handle.id(), 0);
    let b = SubscriptionBuilder::default().auto_unsubscribe(false);
    assert!(!b.auto_unsubscribes());
    assert_eq!(b.build().name(), None);
}

#[test]
fn test_subscription_with_name() {
    let id = uuid::Uuid::new_v4();
    let handle = WeakSubscriptionHandle::from_parts(id.as_u128(), Some("test-subscription".to_string()));

    assert_eq!(handle.name(), Some("test-subscription"));
    assert_eq!(handle.describe(), format!("Subscription 'test-subscription' ({})", id));
    let unnamed = WeakSubscriptionHandle::from_parts(id.as_u128(), None);
    assert_eq!(unnamed.describe(), format!("Subscription {}", id));
}

#[test]
fn test_handler_stats_summary() {
    let stats = HandlerStats { events_processed: 4, events_failed: 1, total_processing_time_ms: 10, last_error: None };
    assert_eq!(stats.summary(), "Processed: 4, Failed: 1, Avg time: 2ms");
    let empty = HandlerStats::default();
    assert_eq!(empty.summary(), "Processed: 0, Failed: 0, Avg time: 0ms");
    let s = SubscriptionStats { active_subscriptions: 2, total_event_types: 1 };
    assert_eq!(s.active_subscriptions, 2);
}
