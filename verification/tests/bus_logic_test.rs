use tokio_events::bus::{
    choose_dispatcher, choose_transport, inbox_topic, reply_metadata, request_answer, BusLifecycle,
    DispatcherKind, EventBusStats, ReplyOutcome, TransportKind,
};
use tokio_events::dispatcher::DispatcherStats;
use tokio_events::error::Error;
use tokio_events::metadata::EventMetadata;
use tokio_events::subscription::SubscriptionStats;

#[test]
fn test_shutdown_refuses_new_work() {
    let mut l = BusLifecycle::running();
    assert!(l.accept_publish().is_ok());
    assert!(l.accept_new().is_ok());
    assert!(l.accept_replay().is_ok());
    assert!(l.begin_shutdown());
    assert!(!l.begin_shutdown());
    assert!(matches!(l.accept_publish(), Err(Error::ShuttingDown)));
    assert!(matches!(l.accept_new(), Err(Error::ShuttingDown)));
    l.release_dispatcher();
    assert!(matches!(l.accept_replay(), Err(Error::Internal(ref m)) if m == "Dispatcher has been shut down"));
}

#[test]
fn test_inbox_and_reply_routing() {
    let id = uuid::Uuid::new_v4();
    assert_eq!(inbox_topic(id.as_u128()), format!("_INBOX.{}", id));
    let request = EventMetadata::with_identity(10, 0).with_reply_to("_INBOX.abc");
    let reply = reply_metadata(&request, EventMetadata::with_identity(11, 5)).unwrap();
    assert_eq!(reply.topic, Some("_INBOX.abc".to_string()));
    assert_eq!(reply.correlation_id, Some(10));
    assert_eq!(reply.causation_id, Some(10));
    assert_eq!(reply.event_id, 11);
    let correlated = EventMetadata::with_identity(10, 0).with_reply_to("t").set_correlation_id(3);
    let reply2 = reply_metadata(&correlated, EventMetadata::with_identity(12, 5)).unwrap();
    assert_eq!(reply2.correlation_id, Some(3));
    assert!(reply_metadata(&EventMetadata::with_identity(1, 0), EventMetadata::with_identity(2, 0)).is_none());
}

#[test]
fn test_request_answers() {
    assert_eq!(request_answer(ReplyOutcome::Replied(42)).unwrap(), 42);
    assert!(matches!(
        request_answer::<u8>(ReplyOutcome::Dropped),
        Err(Error::Internal(ref m)) if m == "Responder dropped the channel without replying"
    ));
    assert!(matches!(
        request_answer::<u8>(ReplyOutcome::TimedOut),
        Err(Error::Internal(ref m)) if m == "Request timed out after 30 seconds"
    ));
}

#[test]
fn test_build_choices() {
    assert_eq!(choose_dispatcher(true, true), DispatcherKind::Custom);
    assert_eq!(choose_dispatcher(false, true), DispatcherKind::Persistent);
    assert_eq!(choose_dispatcher(false, false), DispatcherKind::Channel);
    assert_eq!(choose_transport(true, true, true, true), TransportKind::Custom);
    assert_eq!(choose_transport(false, true, true, true), TransportKind::JetStream);
    assert_eq!(choose_transport(false, true, true, false), TransportKind::CoreNats);
    assert_eq!(choose_transport(false, false, true, true), TransportKind::Local);
}

#[test]
fn test_bus_stats_summary() {
    let mut d = DispatcherStats::new();
    d.events_dispatched = 7;
    let s = EventBusStats {
        total_subscriptions: 2,
        event_types: 1,
        dispatcher_stats: d,
        subscription_stats: SubscriptionStats { active_subscriptions: 2, total_event_types: 1 },
    };
    assert_eq!(s.summary(), "EventBus Stats: 2 subscriptions, 1 event types, 7 events dispatched");
}
