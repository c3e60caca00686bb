use std::any::TypeId;
use tokio_events::dispatcher::{DispatchCounters, TrySendOutcome};
use tokio_events::envelope::EventEnvelope;
use tokio_events::error::Error;
use tokio_events::event::{BroadcastEvent, EventPriority};
use tokio_events::metadata::EventMetadata;
use tokio_events::persistence::{
    ack_action, after_store, due_later, due_prefix, keep_unique, pending_fate, persist_plan,
    persistent_dispatch_answer, release_scheduled, store_plan, AckAction, PendingFate, PersistPlan,
    PersistedEnvelope, StorePlan, WorkerAction,
};

#[test]
fn test_refcount_acks_count_down() {
    let first = ack_action(Some(2), true);
    assert_eq!(first, AckAction::Decrement { remaining: 1 });
    let second = ack_action(Some(1), true);
    assert_eq!(second, AckAction::Remove { to_dead_letters: false });
    assert_eq!(ack_action(None, true), AckAction::Ignore);
    assert_eq!(ack_action(Some(1), false), AckAction::Remove { to_dead_letters: true });
    assert_eq!(ack_action(Some(0), false), AckAction::Remove { to_dead_letters: true });
}

#[test]
fn test_idempotent_batch() {
    let keys = vec![
        Some("order_123".to_string()),
        None,
        Some("order_123".to_string()),
        Some("payment".to_string()),
        Some("done".to_string()),
        None,
    ];
    let processed = vec!["done".to_string()];
    assert_eq!(keep_unique(&keys, &processed), vec![true, true, false, true, false, true]);
    assert_eq!(keep_unique(&vec![], &processed), Vec::<bool>::new());
}

#[test]
fn test_due_prefix_stops_at_first_future() {
    assert_eq!(due_prefix(&vec![10, 20, 30, 40], 25), 2);
    assert_eq!(due_prefix(&vec![10, 20], 25), 2);
    assert_eq!(due_prefix(&vec![30, 10], 25), 0);
    assert_eq!(due_prefix(&vec![], 25), 0);
}

#[test]
fn test_replay_fates() {
    assert_eq!(pending_fate(None, true, Some(3)), None);
    assert_eq!(pending_fate(Some(0), true, Some(3)), Some(PendingFate::Dead));
    assert_eq!(pending_fate(Some(1), false, Some(3)), Some(PendingFate::Dead));
    assert_eq!(pending_fate(Some(1), true, Some(0)), Some(PendingFate::Dead));
    assert_eq!(pending_fate(Some(1), true, None), Some(PendingFate::Dead));
    assert_eq!(pending_fate(Some(2), true, Some(1)), Some(PendingFate::Replay));
    assert!(release_scheduled(Some(2)));
    assert!(!release_scheduled(Some(0)));
    assert!(!release_scheduled(None));
}

#[test]
fn test_persist_plans() {
    assert_eq!(persist_plan(0, None, None, 100), None);
    assert_eq!(persist_plan(0, Some(0), Some(50), 100), None);
    assert_eq!(
        persist_plan(2, Some(1), None, 100),
        Some(PersistPlan { subscribers: 3, scheduled: false, deliver_at_ms: 0 })
    );
    assert_eq!(
        persist_plan(1, None, Some(500), 100),
        Some(PersistPlan { subscribers: 1, scheduled: true, deliver_at_ms: 500 })
    );
    assert_eq!(
        persist_plan(0, Some(4), Some(50), 100),
        Some(PersistPlan { subscribers: 4, scheduled: false, deliver_at_ms: 50 })
    );
}

#[test]
fn test_persistent_dispatch_answers() {
    let mut c = DispatchCounters::new();
    assert!(matches!(
        persistent_dispatch_answer(false, true, false, TrySendOutcome::Sent, &mut c),
        Err(Error::Internal(ref m)) if m == "Dispatcher is not running"
    ));
    assert!(matches!(
        persistent_dispatch_answer(true, false, false, TrySendOutcome::Sent, &mut c),
        Err(Error::Internal(ref m)) if m == "Dispatcher not initialized"
    ));
    assert!(persistent_dispatch_answer(true, true, true, TrySendOutcome::Sent, &mut c).is_ok());
    assert_eq!(c.dispatch_errors, 0);
    assert!(matches!(
        persistent_dispatch_answer(true, true, false, TrySendOutcome::Closed, &mut c),
        Err(Error::Internal(ref m)) if m == "Channel closed"
    ));
    assert!(matches!(
        persistent_dispatch_answer(true, true, true, TrySendOutcome::Closed, &mut c),
        Err(Error::Internal(ref m)) if m == "Channel full"
    ));
    assert_eq!(c.dispatch_errors, 0);
}

#[test]
fn test_persistent_full_queue_drops_silently() {
    let mut c = DispatchCounters::new();
    assert!(persistent_dispatch_answer(true, true, true, TrySendOutcome::Full, &mut c).is_ok());
    assert_eq!(c.dispatch_errors, 1);
    assert_eq!(c.events_dispatched, 0);
}

#[test]
fn test_persisted_envelope_round_trip() {
    let env = EventEnvelope::new(BroadcastEvent { message: "x".to_string() });
    let stored = PersistedEnvelope::from_envelope(&env, b"{\"message\":\"x\"}".to_vec());
    assert_eq!(stored.event_name, "BroadcastEvent");
    assert_eq!(stored.priority, EventPriority::Normal);
    let mut scheduled = stored;
    scheduled.metadata = EventMetadata::with_identity(8, 0).schedule_at(99);
    let back: EventEnvelope<BroadcastEvent> = scheduled.into_envelope(TypeId::of::<BroadcastEvent>(), true);
    assert_eq!(back.metadata.deliver_at, None);
    assert_eq!(back.event_id(), 8);
    assert_eq!(back.payload_bytes(), Some(b"{\"message\":\"x\"}".as_slice()));
    assert_eq!(back.get_event().unwrap().message, "x");
}

#[test]
fn test_store_plans() {
    assert_eq!(store_plan(0, None, None, 100), StorePlan::Skip);
    assert_eq!(
        store_plan(2, Some(1), Some(500), 100),
        StorePlan::Store(PersistPlan { subscribers: 3, scheduled: true, deliver_at_ms: 500 })
    );
    assert_eq!(store_plan(u32::MAX as usize, Some(1), None, 100), StorePlan::Overflow);
    assert_eq!(
        store_plan(u32::MAX as usize, None, None, 100),
        StorePlan::Store(PersistPlan { subscribers: u32::MAX, scheduled: false, deliver_at_ms: 0 })
    );
}

#[test]
fn test_due_later() {
    assert!(due_later(Some(200), 100));
    assert!(!due_later(Some(100), 100));
    assert!(!due_later(None, 100));
}

#[test]
fn test_worker_steps_after_store() {
    assert_eq!(
        after_store(true, &vec![false, true, false]),
        vec![
            WorkerAction::Acknowledge(0),
            WorkerAction::Dispatch(0),
            WorkerAction::Acknowledge(1),
            WorkerAction::Acknowledge(2),
            WorkerAction::Dispatch(2),
        ]
    );
    assert!(after_store(false, &vec![false, false]).is_empty());
    assert!(after_store(true, &vec![]).is_empty());
}
