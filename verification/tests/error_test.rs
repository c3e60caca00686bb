use tokio_events::error::{Error, ErrorContext};
use uuid::Uuid;

#[test]
fn test_error_display() {
    let err = Error::PublishError("test error".to_string());
    assert_eq!(err.message(), "Failed to publish event: test error");
}

#[test]
fn test_error_is_shutdown() {
    assert!(Error::ShuttingDown.is_shutdown());
    assert!(!Error::internal("test").is_shutdown());
}

#[test]
fn test_error_context() {
    let ctx = ErrorContext::new()
        .with_event_id(Uuid::max().as_u128())
        .with_event_type("TestEvent")
        .with_handler("test_handler");

    let display = ctx.describe();
    assert!(display.contains("TestEvent"));
    assert!(display.contains("test_handler"));
}

#[test]
fn test_error_messages() {
    assert_eq!(Error::ShuttingDown.message(), "Event bus is shutting down");
    assert_eq!(
        Error::SubscriptionNotFound { id: Uuid::max().as_u128() }.message(),
        "Subscription not found: ffffffff-ffff-ffff-ffff-ffffffffffff"
    );
    assert_eq!(
        Error::PayloadTooLarge { size: 2_000_000, max: 1_048_576 }.message(),
        "Payload too large: 2000000 bytes exceeds the maximum of 1048576 bytes"
    );
    assert_eq!(Error::handler("boom").message(), "Handler error: boom");
    assert!(Error::ChannelSendError.is_channel_error());
    assert!(Error::ChannelReceiveError.is_channel_error());
    assert!(!Error::ShuttingDown.is_channel_error());
}

#[test]
fn test_error_context_text() {
    let ctx = ErrorContext { event_id: None, event_type: None, handler_name: Some("h".to_string()), timestamp: 0 };
    assert_eq!(ctx.describe(), "Error at 1970-01-01 00:00:00 UTC [handler: h]");
}
