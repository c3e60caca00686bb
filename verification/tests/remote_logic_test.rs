use tokio_events::error::Error;
use tokio_events::remote::{check_payload_size, check_remote_topic, consumer_name, is_valid_remote_topic, topic_segments, MAX_PAYLOAD_SIZE};

#[test]
fn test_remote_topic_segments() {
    assert_eq!(topic_segments("domain.service.event"), 3);
    assert!(is_valid_remote_topic("test.remote.event"));
    assert!(is_valid_remote_topic("user.created.v1"));
    assert!(!is_valid_remote_topic("user.created"));
    assert!(!is_valid_remote_topic("a..b"));
    assert_eq!(topic_segments("..a...b.c."), 3);
    assert_eq!(topic_segments(""), 0);
}

#[test]
fn test_payload_size_limit() {
    assert!(check_payload_size(1024).is_ok());
    assert!(check_payload_size(MAX_PAYLOAD_SIZE).is_ok());
    match check_payload_size(MAX_PAYLOAD_SIZE + 1) {
        Err(Error::PayloadTooLarge { size, max }) => {
            assert_eq!(size, 1024 * 1024 + 1);
            assert_eq!(max, 1024 * 1024);
        },
        other => panic!("Expected PayloadTooLarge error, got {:?}", other),
    }
}

#[test]
fn test_consumer_names() {
    assert_eq!(consumer_name("test_queue_group", "user.>"), "test_queue_group_user__");
    assert_eq!(consumer_name("g", "orders.*.created"), "g_orders___created");
    assert_eq!(consumer_name("g", "plain"), "g_plain");
}

#[test]
fn test_check_remote_topic() {
    assert!(check_remote_topic("v2.users.profile.request").is_ok());
    assert!(check_remote_topic("a.b.c").is_ok());
    assert!(matches!(check_remote_topic("a.b"), Err(Error::ConfigError(_))));
    assert!(matches!(check_remote_topic("a..b"), Err(Error::ConfigError(_))));
}
