//! The decisions of the persistent dispatcher: which events of a batch are stored, how
//! acknowledgements count down an event's subscribers, which scheduled events are due,
//! and which stored events are replayed after a restart.
use vstd::prelude::*;
use crate::dispatcher::{DispatchCounters, TrySendOutcome, wrapped_add};
use crate::error::Error;
use crate::event::EventPriority;
use crate::metadata::EventMetadata;
use crate::envelope::EventEnvelope;
use std::any::TypeId;

verus! {

/// An event as it is stored: its type's name, metadata, priority and encoded payload.
#[derive(Debug)]
pub struct PersistedEnvelope {
    /// The stable name of the event type.
    pub event_name: String,
    /// The event's metadata.
    pub metadata: EventMetadata,
    /// The event's priority.
    pub priority: EventPriority,
    /// The encoded event.
    pub payload: Vec<u8>,
}

/// What an acknowledgement does to a stored event.
#[derive(Debug, Clone, Copy, PartialEq, Eq, Structural)]
pub enum AckAction {
    /// The event is not stored (or no longer): nothing to do.
    Ignore,
    /// Other subscribers still owe an acknowledgement; `remaining` of them.
    Decrement { remaining: u32 },
    /// The last subscriber acknowledged: remove the event, and keep its payload in the
    /// dead letter table if the handling failed.
    Remove { to_dead_letters: bool },
}

/// The action for an acknowledgement of an event whose stored count of subscribers still
/// to acknowledge is `current`.
pub open spec fn ack_action_spec(current: Option<u32>, success: bool) -> AckAction {
    match current {
        None => AckAction::Ignore,
        Some(c) => if c <= 1 {
            AckAction::Remove { to_dead_letters: !success }
        } else {
            AckAction::Decrement { remaining: (c - 1) as u32 }
        },
    }
}

/// The stored count after an action.
pub open spec fn count_after(current: Option<u32>, a: AckAction) -> Option<u32> {
    match a {
        AckAction::Ignore => current,
        AckAction::Decrement { remaining } => Some(remaining),
        AckAction::Remove { .. } => None,
    }
}

/// The action for an acknowledgement (`success` tells whether the handler succeeded) of
/// an event whose stored count is `current`: none where it is not stored; removal where
/// this was the last subscriber; else one fewer to wait for.
pub fn ack_action(current: Option<u32>, success: bool) -> (a: AckAction)
    ensures
        a == ack_action_spec(current, success),
{
    match current {
        None => AckAction::Ignore,
        Some(c) => if c <= 1 {
            AckAction::Remove { to_dead_letters: !success }
        } else {
            AckAction::Decrement { remaining: c - 1 }
        },
    }
}

/// Whether `key` is one of `keys`.
pub open spec fn has_text(keys: Seq<String>, key: Seq<char>) -> bool {
    exists|i: int| 0 <= i < keys.len() && keys[i]@ == key
}

/// Message `i` of a batch is kept: it has no idempotency key, or its key was never
/// processed and no earlier message of the batch has it.
pub open spec fn kept_in_batch(keys: Seq<Option<String>>, processed: Seq<String>, i: int) -> bool {
    match keys[i] {
        None => true,
        Some(k) => !has_text(processed, k@) && forall|j: int| 0 <= j < i ==> !(#[trigger] keys[j] matches Some(kj) && kj@ == k@),
    }
}

/// Whether `key` is one of `keys`.
fn contains_text(keys: &Vec<String>, key: &String) -> (r: bool)
    ensures
        r == has_text(keys@, key@),
{
    let mut i: usize = 0;
    while i < keys.len()
        invariant
            i <= keys@.len(),
            forall|j: int| 0 <= j < i ==> keys@[j]@ != key@,
        decreases keys@.len() - i,
    {
        if keys[i] == *key {
            return true;
        }
        i += 1;
    }
    false
}

/// Which messages of a batch are stored, given their idempotency keys and the keys that
/// were already processed: a message whose key was processed, or appeared earlier in the
/// batch, is a duplicate and is only acknowledged.
pub fn keep_unique(keys: &Vec<Option<String>>, processed: &Vec<String>) -> (kept: Vec<bool>)
    ensures
        kept@.len() == keys@.len(),
        forall|i: int| 0 <= i < keys@.len() ==> kept@[i] == kept_in_batch(keys@, processed@, i),
{
    let mut kept: Vec<bool> = Vec::new();
    let mut seen: Vec<String> = Vec::new();
    let mut i: usize = 0;
    while i < keys.len()
        invariant
            i <= keys@.len(),
            kept@.len() == i,
            forall|x: int| 0 <= x < i ==> kept@[x] == kept_in_batch(keys@, processed@, x),
            forall|t: Seq<char>| has_text(seen@, t) ==> exists|j: int| 0 <= j < i && key_at(keys@, j, t),
            forall|t: Seq<char>, j: int| 0 <= j < i && #[trigger] key_at(keys@, j, t) ==> has_text(seen@, t) || has_text(processed@, t),
        decreases keys@.len() - i,
    {
        let ghost before = seen@;
        match &keys[i] {
            None => {
                kept.push(true);
            },
            Some(k) => {
                let in_seen = contains_text(&seen, k);
                let in_processed = contains_text(processed, k);
                let dup = in_seen || in_processed;
                proof {
                    if in_seen {
                        let j = choose|j: int| 0 <= j < i && key_at(keys@, j, k@);
                        assert(keys@[j] matches Some(kj) && kj@ == k@);
                    }
                    if !dup {
                        assert forall|j: int| 0 <= j < i implies !(#[trigger] keys@[j] matches Some(kj) && kj@ == k@) by {
                            if keys@[j] matches Some(kj) && kj@ == k@ {
                                assert(key_at(keys@, j, k@));
                            }
                        }
                    }
                }
                kept.push(!dup);
                if !dup {
                    seen.push(k.clone());
                }
            },
        }
        proof {
            assert forall|t: Seq<char>| has_text(seen@, t) implies exists|j: int| 0 <= j < i + 1 && key_at(keys@, j, t) by {
                let x = choose|x: int| 0 <= x < seen@.len() && seen@[x]@ == t;
                if x < before.len() {
                    assert(before[x] == seen@[x]);
                    assert(has_text(before, t));
                    let j = choose|j: int| 0 <= j < i && key_at(keys@, j, t);
                    assert(key_at(keys@, j, t));
                } else {
                    assert(key_at(keys@, i as int, t));
                }
            }
            assert forall|t: Seq<char>, j: int| 0 <= j < i + 1 && #[trigger] key_at(keys@, j, t) implies has_text(seen@, t) || has_text(processed@, t) by {
                if j < i {
                    if has_text(before, t) {
                        let x = choose|x: int| 0 <= x < before.len() && before[x]@ == t;
                        assert(seen@[x] == before[x]);
                    }
                } else {
                    if keys@[i as int] matches Some(k) {
                        if has_text(before, t) {
                            let x = choose|x: int| 0 <= x < before.len() && before[x]@ == t;
                            assert(seen@[x] == before[x]);
                        } else if !has_text(processed@, t) {
                            assert(seen@[before.len() as int]@ == t);
                        }
                    }
                }
            }
        }
        i += 1;
    }
    kept
}

/// Message `j` of a batch has the idempotency key `t`.
pub open spec fn key_at(keys: Seq<Option<String>>, j: int, t: Seq<char>) -> bool {
    keys[j] matches Some(kj) && kj@ == t
}

/// How an event of a batch is stored.
#[derive(Debug, Clone, Copy, PartialEq, Eq, Structural)]
pub struct PersistPlan {
    /// How many subscribers must acknowledge it.
    pub subscribers: u32,
    /// It is scheduled for later and goes to the table of scheduled events.
    pub scheduled: bool,
    /// Its delivery instant as the scheduled table's key (0 where it has none).
    pub deliver_at_ms: u64,
}

/// The count of subscribers an event is stored for: those of its type, plus, where it
/// has a topic, those of the topic (each count taken as 32 bits).
pub open spec fn subscriber_count(type_subscribers: usize, topic_subscribers: Option<usize>) -> int {
    match topic_subscribers {
        Some(t) => (type_subscribers as u32) + (t as u32),
        None => (type_subscribers as u32) as int,
    }
}

/// How to store an event with `type_subscribers` subscribers of its type and, where it
/// has a topic, `topic_subscribers` of its topic, scheduled for `deliver_at` when it is
/// `now`: not at all where nobody subscribes; in the scheduled table where it is due
/// later; else with its count of subscribers.
pub fn persist_plan(
    type_subscribers: usize,
    topic_subscribers: Option<usize>,
    deliver_at: Option<i64>,
    now: i64,
) -> (r: Option<PersistPlan>)
    requires
        subscriber_count(type_subscribers, topic_subscribers) <= u32::MAX,
    ensures
        match r {
            Some(p) => {
                &&& subscriber_count(type_subscribers, topic_subscribers) > 0
                &&& p.subscribers == subscriber_count(type_subscribers, topic_subscribers)
                &&& p.scheduled == (deliver_at matches Some(t) && t > now)
                &&& p.deliver_at_ms == match deliver_at {
                    Some(t) => t as u64,
                    None => 0u64,
                }
            },
            None => subscriber_count(type_subscribers, topic_subscribers) == 0,
        },
{
    let mut count: u32 = #[verifier::truncate] (type_subscribers as u32);
    if let Some(t) = topic_subscribers {
        let extra: u32 = #[verifier::truncate] (t as u32);
        count = count + extra;
    }
    if count == 0 {
        return None;
    }
    let scheduled = match deliver_at {
        Some(t) => t > now,
        None => false,
    };
    let at: u64 = match deliver_at {
        Some(t) => #[verifier::truncate] (t as u64),
        None => 0,
    };
    Some(PersistPlan { subscribers: count, scheduled, deliver_at_ms: at })
}

/// What the persistent worker does with one event of a batch before the write.
#[derive(Debug, Clone, Copy, PartialEq, Eq, Structural)]
pub enum StorePlan {
    /// Nobody subscribes: it is neither stored nor dispatched.
    Skip,
    /// Its subscribers do not fit the stored 32-bit count: it is counted as an error and
    /// not stored.
    Overflow,
    /// It is stored as the plan says.
    Store(PersistPlan),
}

/// The plan for an event with `type_subscribers` subscribers of its type and, where it has
/// a topic, `topic_subscribers` of its topic (each count taken as 32 bits), scheduled for
/// `deliver_at` when it is `now`.
pub fn store_plan(
    type_subscribers: usize,
    topic_subscribers: Option<usize>,
    deliver_at: Option<i64>,
    now: i64,
) -> (r: StorePlan)
    ensures
        subscriber_count(type_subscribers, topic_subscribers) > u32::MAX ==> r == StorePlan::Overflow,
        subscriber_count(type_subscribers, topic_subscribers) <= u32::MAX ==> match r {
            StorePlan::Store(p) => {
                &&& subscriber_count(type_subscribers, topic_subscribers) > 0
                &&& p.subscribers == subscriber_count(type_subscribers, topic_subscribers)
                &&& p.scheduled == (deliver_at matches Some(t) && t > now)
                &&& p.deliver_at_ms == match deliver_at {
                    Some(t) => t as u64,
                    None => 0u64,
                }
            },
            StorePlan::Skip => subscriber_count(type_subscribers, topic_subscribers) == 0,
            StorePlan::Overflow => false,
        },
{
    let a: u32 = #[verifier::truncate] (type_subscribers as u32);
    let total: u64 = match topic_subscribers {
        Some(t) => {
            let b: u32 = #[verifier::truncate] (t as u32);
            a as u64 + b as u64
        },
        None => a as u64,
    };
    if total > u32::MAX as u64 {
        return StorePlan::Overflow;
    }
    match persist_plan(type_subscribers, topic_subscribers, deliver_at, now) {
        Some(p) => StorePlan::Store(p),
        None => StorePlan::Skip,
    }
}

/// Whether an event delivered at `deliver_at` is still due later at `now`, and so waits in
/// the scheduled table rather than being dispatched.
pub fn due_later(deliver_at: Option<i64>, now: i64) -> (r: bool)
    ensures
        r == (deliver_at matches Some(t) && t > now),
{
    match deliver_at {
        Some(t) => t > now,
        None => false,
    }
}

/// A step of the persistent worker once a batch has been written.
#[derive(Debug, Clone, Copy, PartialEq, Eq, Structural)]
pub enum WorkerAction {
    /// Tell the publisher of the batch's `i`-th event that the batch is on disk.
    Acknowledge(usize),
    /// Dispatch the batch's `i`-th event to its subscribers.
    Dispatch(usize),
}

/// The steps after a successful write of a batch whose events marked in `due_later` wait
/// for their time: in batch order, each event is acknowledged, then, unless it waits,
/// dispatched.
pub open spec fn stored_actions(due_later: Seq<bool>) -> Seq<WorkerAction>
    decreases due_later.len(),
{
    if due_later.len() == 0 {
        Seq::empty()
    } else {
        let n = (due_later.len() - 1) as int;
        let before = stored_actions(due_later.drop_last()).push(WorkerAction::Acknowledge(n as usize));
        if due_later.last() {
            before
        } else {
            before.push(WorkerAction::Dispatch(n as usize))
        }
    }
}

/// The steps after writing a batch whose events are due later as `due_later` says: none
/// where the write failed (nothing is acknowledged or dispatched before it is on disk),
/// else `stored_actions`.
pub fn after_store(stored: bool, due_later: &Vec<bool>) -> (r: Vec<WorkerAction>)
    ensures
        r@ == (if stored {
            stored_actions(due_later@)
        } else {
            Seq::empty()
        }),
{
    let mut r: Vec<WorkerAction> = Vec::new();
    if !stored {
        return r;
    }
    let mut i: usize = 0;
    while i < due_later.len()
        invariant
            i <= due_later@.len(),
            r@ == stored_actions(due_later@.take(i as int)),
        decreases due_later@.len() - i,
    {
        assert(due_later@.take(i + 1).drop_last() == due_later@.take(i as int));
        assert(due_later@.take(i + 1).last() == due_later@[i as int]);
        r.push(WorkerAction::Acknowledge(i));
        if !due_later[i] {
            r.push(WorkerAction::Dispatch(i));
        }
        i += 1;
    }
    assert(due_later@.take(due_later@.len() as int) == due_later@);
    r
}

/// How many of the scheduled events, in the table's order, are due at `now_ms`: the
/// events up to the first one that is not.
pub fn due_prefix(deliver_times: &Vec<u64>, now_ms: u64) -> (r: usize)
    ensures
        r <= deliver_times@.len(),
        forall|i: int| 0 <= i < r ==> deliver_times@[i] <= now_ms,
        r < deliver_times@.len() ==> deliver_times@[r as int] > now_ms,
{
    let mut i: usize = 0;
    while i < deliver_times.len()
        invariant
            i <= deliver_times@.len(),
            forall|j: int| 0 <= j < i ==> deliver_times@[j] <= now_ms,
        decreases deliver_times@.len() - i,
    {
        if deliver_times[i] > now_ms {
            return i;
        }
        i += 1;
    }
    i
}

/// What becomes of a stored event when pending events are replayed.
#[derive(Debug, Clone, Copy, PartialEq, Eq, Structural)]
pub enum PendingFate {
    /// It is dispatched again.
    Replay,
    /// It is deleted: nobody owes it an acknowledgement, it cannot be decoded, or nobody
    /// subscribes to its type any more.
    Dead,
}

/// The fate of a stored event with stored count `refcount` (`None`: no count stored),
/// which `decoded` tells whether it could be read back, and whose type has `subscribers`
/// subscribers (`None`: the type's name is unknown).
pub open spec fn pending_fate_spec(refcount: Option<u32>, decoded: bool, subscribers: Option<usize>) -> Option<PendingFate> {
    match refcount {
        None => None,
        Some(c) => if c == 0 || !decoded {
            Some(PendingFate::Dead)
        } else if subscribers matches Some(n) && n > 0 {
            Some(PendingFate::Replay)
        } else {
            Some(PendingFate::Dead)
        },
    }
}

/// The fate of a stored event at replay: left alone where it has no stored count;
/// deleted where the count is zero, it cannot be decoded or nobody subscribes to its
/// type; else replayed.
pub fn pending_fate(refcount: Option<u32>, decoded: bool, subscribers: Option<usize>) -> (r: Option<PendingFate>)
    ensures
        r == pending_fate_spec(refcount, decoded, subscribers),
        refcount is None ==> r is None,
        refcount is Some ==> (r == Some(PendingFate::Replay) <==> (refcount->0 > 0 && decoded
            && subscribers is Some && subscribers->0 > 0)),
        refcount is Some ==> (r == Some(PendingFate::Dead) <==> !(refcount->0 > 0 && decoded
            && subscribers is Some && subscribers->0 > 0)),
{
    match refcount {
        None => None,
        Some(c) => {
            if c == 0 || !decoded {
                Some(PendingFate::Dead)
            } else {
                match subscribers {
                    Some(n) => if n > 0 {
                        Some(PendingFate::Replay)
                    } else {
                        Some(PendingFate::Dead)
                    },
                    None => Some(PendingFate::Dead),
                }
            }
        },
    }
}

/// Whether a due scheduled event is handed to the dispatcher: only where its type is
/// known and has subscribers.
pub fn release_scheduled(subscribers: Option<usize>) -> (r: bool)
    ensures
        r == (subscribers matches Some(n) && n > 0),
{
    match subscribers {
        Some(n) => n > 0,
        None => false,
    }
}

/// The answer of the persistent dispatcher to a dispatch: it must be running and have
/// its queue; then the queue's answer. A full queue, which only a dispatcher that drops on
/// full meets, drops the event silently and counts it as an error; a closed queue fails.
pub fn persistent_dispatch_answer(
    running: bool,
    has_queue: bool,
    drop_on_full: bool,
    outcome: TrySendOutcome,
    counters: &mut DispatchCounters,
) -> (r: Result<(), Error>)
    ensures
        !running ==> (r matches Err(Error::Internal(m)) && m@ == "Dispatcher is not running"@),
        running && !has_queue ==> (r matches Err(Error::Internal(m)) && m@ == "Dispatcher not initialized"@),
        !(running && has_queue && outcome == TrySendOutcome::Full) ==> *final(counters) == *old(counters),
        running && has_queue ==> match outcome {
            TrySendOutcome::Sent => r is Ok,
            TrySendOutcome::Full => r is Ok && *final(counters) == (DispatchCounters {
                dispatch_errors: wrapped_add(old(counters).dispatch_errors, 1),
                ..*old(counters)
            }),
            TrySendOutcome::Closed => r matches Err(Error::Internal(m)) && m@ == (if drop_on_full {
                "Channel full"@
            } else {
                "Channel closed"@
            }),
        },
{
    if !running {
        return Err(Error::internal("Dispatcher is not running"));
    }
    if !has_queue {
        return Err(Error::internal("Dispatcher not initialized"));
    }
    match outcome {
        TrySendOutcome::Sent => Ok(()),
        TrySendOutcome::Full => {
            counters.record_errors(1);
            Ok(())
        },
        TrySendOutcome::Closed => if drop_on_full {
            Err(Error::internal("Channel full"))
        } else {
            Err(Error::internal("Channel closed"))
        },
    }
}

impl PersistedEnvelope {
    /// The stored form of an envelope whose payload encodes as `payload`.
    pub fn from_envelope<P>(envelope: &EventEnvelope<P>, payload: Vec<u8>) -> (p: PersistedEnvelope)
        ensures
            p.event_name@ == envelope.event_name@,
            p.metadata.same_but_custom(envelope.metadata),
            p.metadata.custom@ == envelope.metadata.custom@,
            p.priority == envelope.priority,
            p.payload == payload,
    {
        PersistedEnvelope {
            event_name: envelope.event_name.clone(),
            metadata: envelope.metadata.duplicate(),
            priority: envelope.priority,
            payload,
        }
    }

    /// The envelope a stored event is dispatched in, for the type `type_id` its name
    /// stands for; a released scheduled event loses its delivery time, so that it is not
    /// scheduled again.
    pub fn into_envelope<P>(self, type_id: TypeId, release_schedule: bool) -> (e: EventEnvelope<P>)
        ensures
            e.payload is None,
            e.payload_bytes == Some(self.payload),
            e.type_id == type_id,
            e.event_name@ == self.event_name@,
            e.metadata == (if release_schedule {
                EventMetadata { deliver_at: None, ..self.metadata }
            } else {
                self.metadata
            }),
            e.priority == self.priority,
    {
        let mut metadata = self.metadata;
        if release_schedule {
            metadata.deliver_at = None;
        }
        EventEnvelope::from_serialized(type_id, self.event_name, metadata, self.priority, self.payload)
    }
}

} // verus!
