//! Event metadata: identity, time, correlation and routing information.
use vstd::prelude::*;
use crate::assoc::{assoc_map, keys_distinct, lemma_assoc_lookup, lemma_assoc_push, lemma_assoc_update};
use crate::foreign::{new_uuid, now_millis};

verus! {

/// A copy of an optional string.
pub fn copy_text(s: &Option<String>) -> (r: Option<String>)
    ensures
        r == *s,
{
    match s {
        Some(t) => Some(t.clone()),
        None => None,
    }
}

/// The views of a list of string pairs.
pub open spec fn text_pairs(s: Seq<(String, String)>) -> Seq<(Seq<char>, Seq<char>)> {
    s.map_values(|e: (String, String)| (e.0@, e.1@))
}

/// The view of an optional string.
pub open spec fn opt_text(s: Option<String>) -> Option<Seq<char>> {
    match s {
        Some(t) => Some(t@),
        None => None,
    }
}

/// Metadata attached to every event.
#[derive(Debug, Clone)]
pub struct EventMetadata {
    /// Unique identifier of this event occurrence (a UUID, as its 128-bit value).
    pub event_id: u128,
    /// When the event was created, in milliseconds after the Unix epoch.
    pub timestamp: i64,
    /// Links the events of one distributed trace.
    pub correlation_id: Option<u128>,
    /// The event that caused this one.
    pub causation_id: Option<u128>,
    /// The component that produced the event.
    pub source: Option<String>,
    /// The user on whose behalf the event was produced.
    pub user_id: Option<String>,
    /// The session in which the event was produced.
    pub session_id: Option<String>,
    /// Custom key/value pairs, each key at most once, in the order in which keys were first set.
    pub custom: Vec<(String, String)>,
    /// If set, the event is not delivered before this instant (milliseconds after the epoch).
    pub deliver_at: Option<i64>,
    /// An explicit routing topic.
    pub topic: Option<String>,
    /// The topic to which a reply should be published.
    pub reply_to: Option<String>,
    /// A key under which a persistent dispatcher accepts the event at most once.
    pub idempotency_key: Option<String>,
}

impl EventMetadata {
    /// The custom pairs, in the order in which their keys were first set.
    pub open spec fn custom_view(&self) -> Seq<(Seq<char>, Seq<char>)> {
        text_pairs(self.custom@)
    }

    /// Custom keys are distinct.
    pub open spec fn wf(&self) -> bool {
        keys_distinct(self.custom_view())
    }

    /// The custom pairs as a map.
    pub open spec fn custom_map(&self) -> Map<Seq<char>, Seq<char>> {
        assoc_map(self.custom_view())
    }

    /// Every field but the custom pairs is as in `other`.
    pub open spec fn same_but_custom(&self, other: EventMetadata) -> bool {
        &&& self.event_id == other.event_id
        &&& self.timestamp == other.timestamp
        &&& self.correlation_id == other.correlation_id
        &&& self.causation_id == other.causation_id
        &&& self.source == other.source
        &&& self.user_id == other.user_id
        &&& self.session_id == other.session_id
        &&& self.deliver_at == other.deliver_at
        &&& self.topic == other.topic
        &&& self.reply_to == other.reply_to
        &&& self.idempotency_key == other.idempotency_key
    }

    /// Metadata for an event with the given identifier and creation time, and nothing else.
    pub fn with_identity(event_id: u128, timestamp: i64) -> (m: EventMetadata)
        ensures
            m.wf(),
            m.event_id == event_id,
            m.timestamp == timestamp,
            m.correlation_id is None,
            m.causation_id is None,
            m.source is None,
            m.user_id is None,
            m.session_id is None,
            m.custom_map() == Map::<Seq<char>, Seq<char>>::empty(),
            m.deliver_at is None,
            m.topic is None,
            m.reply_to is None,
            m.idempotency_key is None,
    {
        let m = EventMetadata {
            event_id,
            timestamp,
            correlation_id: None,
            causation_id: None,
            source: None,
            user_id: None,
            session_id: None,
            custom: Vec::new(),
            deliver_at: None,
            topic: None,
            reply_to: None,
            idempotency_key: None,
        };
        assert(text_pairs(m.custom@) =~= Seq::<(Seq<char>, Seq<char>)>::empty());
        m
    }

    /// Metadata with a fresh random event identifier and the current time.
    pub fn new() -> (m: EventMetadata)
        ensures
            m.wf(),
            m.event_id != 0,
            m.timestamp >= 0,
            m.correlation_id is None,
            m.causation_id is None,
            m.source is None,
            m.user_id is None,
            m.session_id is None,
            m.custom_map() == Map::<Seq<char>, Seq<char>>::empty(),
            m.deliver_at is None,
            m.topic is None,
            m.reply_to is None,
            m.idempotency_key is None,
    {
        let id = new_uuid();
        let ts = now_millis();
        EventMetadata::with_identity(id, ts)
    }

    /// Fresh metadata with a correlation identifier.
    pub fn with_correlation(correlation_id: u128) -> (m: EventMetadata)
        ensures
            m.wf(),
            m.event_id != 0,
            m.timestamp >= 0,
            m.correlation_id == Some(correlation_id),
            m.causation_id is None,
            m.source is None,
            m.user_id is None,
            m.session_id is None,
            m.custom_map() == Map::<Seq<char>, Seq<char>>::empty(),
            m.deliver_at is None,
            m.topic is None,
            m.reply_to is None,
            m.idempotency_key is None,
    {
        let mut m = EventMetadata::new();
        m.correlation_id = Some(correlation_id);
        m
    }

    /// Set the correlation identifier.
    pub fn set_correlation_id(self, id: u128) -> (m: EventMetadata)
        ensures
            m == (EventMetadata { correlation_id: Some(id), ..self }),
    {
        EventMetadata { correlation_id: Some(id), ..self }
    }

    /// Set the causation identifier.
    pub fn set_causation_id(self, id: u128) -> (m: EventMetadata)
        ensures
            m == (EventMetadata { causation_id: Some(id), ..self }),
    {
        EventMetadata { causation_id: Some(id), ..self }
    }

    /// Set the source.
    pub fn set_source(self, source: &str) -> (m: EventMetadata)
        ensures
            opt_text(m.source) == Some(source@),
            m == (EventMetadata { source: m.source, ..self }),
    {
        EventMetadata { source: Some(source.to_owned()), ..self }
    }

    /// Set the user identifier.
    pub fn set_user_id(self, user_id: &str) -> (m: EventMetadata)
        ensures
            opt_text(m.user_id) == Some(user_id@),
            m == (EventMetadata { user_id: m.user_id, ..self }),
    {
        EventMetadata { user_id: Some(user_id.to_owned()), ..self }
    }

    /// Set the session identifier.
    pub fn set_session_id(self, session_id: &str) -> (m: EventMetadata)
        ensures
            opt_text(m.session_id) == Some(session_id@),
            m == (EventMetadata { session_id: m.session_id, ..self }),
    {
        EventMetadata { session_id: Some(session_id.to_owned()), ..self }
    }

    /// Set the routing topic.
    pub fn with_topic(self, topic: &str) -> (m: EventMetadata)
        ensures
            opt_text(m.topic) == Some(topic@),
            m == (EventMetadata { topic: m.topic, ..self }),
    {
        EventMetadata { topic: Some(topic.to_owned()), ..self }
    }

    /// Set the reply-to topic.
    pub fn with_reply_to(self, reply_to: &str) -> (m: EventMetadata)
        ensures
            opt_text(m.reply_to) == Some(reply_to@),
            m == (EventMetadata { reply_to: m.reply_to, ..self }),
    {
        EventMetadata { reply_to: Some(reply_to.to_owned()), ..self }
    }

    /// Set the idempotency key.
    pub fn with_idempotency_key(self, key: &str) -> (m: EventMetadata)
        ensures
            opt_text(m.idempotency_key) == Some(key@),
            m == (EventMetadata { idempotency_key: m.idempotency_key, ..self }),
    {
        EventMetadata { idempotency_key: Some(key.to_owned()), ..self }
    }

    /// Deliver the event at the given instant.
    pub fn schedule_at(self, time: i64) -> (m: EventMetadata)
        ensures
            m == (EventMetadata { deliver_at: Some(time), ..self }),
    {
        EventMetadata { deliver_at: Some(time), ..self }
    }

    /// Deliver the event `delay_ms` milliseconds after `now` (capped at the latest instant).
    pub fn delay_from(self, now: i64, delay_ms: u64) -> (m: EventMetadata)
        ensures
            m == (EventMetadata {
                deliver_at: Some(
                    if now + delay_ms > i64::MAX {
                        i64::MAX
                    } else {
                        (now + delay_ms) as i64
                    },
                ),
                ..self
            }),
    {
        let sum: i128 = now as i128 + delay_ms as i128;
        let at: i64 = if sum > i64::MAX as i128 {
            i64::MAX
        } else {
            sum as i64
        };
        EventMetadata { deliver_at: Some(at), ..self }
    }

    /// Deliver the event `delay_ms` milliseconds from now.
    pub fn delay(self, delay_ms: u64) -> (m: EventMetadata)
        ensures
            m == (EventMetadata { deliver_at: m.deliver_at, ..self }),
            m.deliver_at matches Some(t) && (t >= delay_ms || t == i64::MAX),
    {
        let now = now_millis();
        self.delay_from(now, delay_ms)
    }

    /// Set a custom pair, replacing an earlier value for the same key.
    pub fn with_custom(self, key: &str, value: &str) -> (m: EventMetadata)
        requires
            self.wf(),
        ensures
            m.wf(),
            m.custom_map() == self.custom_map().insert(key@, value@),
            m.same_but_custom(self),
    {
        let mut m = self;
        let ghost before = m.custom@;
        let k = key.to_owned();
        let v = value.to_owned();
        match find_key(&m.custom, &k) {
            Some(i) => {
                m.custom.set(i, (k, v));
                proof {
                    lemma_assoc_update(text_pairs(before), i as int, value@);
                    assert(text_pairs(m.custom@) =~= text_pairs(before).update(
                        i as int,
                        (text_pairs(before)[i as int].0, value@),
                    ));
                }
            },
            None => {
                m.custom.push((k, v));
                proof {
                    lemma_assoc_lookup(text_pairs(before));
                    lemma_assoc_push(text_pairs(before), key@, value@);
                    assert(text_pairs(m.custom@) =~= text_pairs(before).push((key@, value@)));
                }
            },
        }
        m
    }

    /// The custom value under `key`.
    pub fn get_custom(&self, key: &str) -> (r: Option<&String>)
        requires
            self.wf(),
        ensures
            match r {
                Some(v) => self.custom_map().contains_key(key@) && self.custom_map()[key@] == v@,
                None => !self.custom_map().contains_key(key@),
            },
    {
        let k = key.to_owned();
        proof {
            lemma_assoc_lookup(text_pairs(self.custom@));
        }
        match find_key(&self.custom, &k) {
            Some(i) => {
                let ghost s = self.custom_view();
                assert(s[i as int] == (self.custom@[i as int].0@, self.custom@[i as int].1@));
                assert(s[i as int].0 == key@);
                assert(self.custom_map().contains_key(key@));
                assert(self.custom_map()[s[i as int].0] == s[i as int].1);
                Some(&self.custom[i].1)
            },
            None => {
                assert forall|i: int| 0 <= i < text_pairs(self.custom@).len() implies text_pairs(self.custom@)[i].0 != key@ by {
                    assert(text_pairs(self.custom@)[i].0 == self.custom@[i].0@);
                }
                None
            },
        }
    }

    /// The custom pairs, in the order in which their keys were first set.
    pub fn custom_pairs(&self) -> (r: &Vec<(String, String)>)
        ensures
            text_pairs(r@) == self.custom_view(),
    {
        &self.custom
    }

    /// Replace the custom pairs by `pairs`; a key given twice keeps its last value.
    pub fn with_custom_list(self, pairs: &Vec<(String, String)>) -> (m: EventMetadata)
        ensures
            m.wf(),
            m.custom_map() == assoc_map(text_pairs(pairs@)),
            m.same_but_custom(self),
    {
        let mut m = EventMetadata { custom: Vec::new(), ..self };
        assert(text_pairs(m.custom@) =~= Seq::<(Seq<char>, Seq<char>)>::empty());
        let mut i: usize = 0;
        while i < pairs.len()
            invariant
                i <= pairs@.len(),
                m.wf(),
                m.same_but_custom(self),
                m.custom_map() == assoc_map(text_pairs(pairs@).take(i as int)),
            decreases pairs@.len() - i,
        {
            let k = pairs[i].0.as_str();
            let v = pairs[i].1.as_str();
            m = m.with_custom(k, v);
            assert(text_pairs(pairs@).take(i + 1).drop_last() =~= text_pairs(pairs@).take(i as int));
            i += 1;
        }
        assert(text_pairs(pairs@).take(pairs@.len() as int) =~= text_pairs(pairs@));
        m
    }

    /// Link this event to the event that caused it: the cause becomes the causation,
    /// the correlation is inherited (or is the cause itself), and so are the user and
    /// session where this event has none.
    pub fn chain_from(&mut self, parent: &EventMetadata)
        ensures
            final(self).causation_id == Some(parent.event_id),
            final(self).correlation_id == (match parent.correlation_id {
                Some(c) => Some(c),
                None => Some(parent.event_id),
            }),
            final(self).user_id == (if old(self).user_id is None {
                parent.user_id
            } else {
                old(self).user_id
            }),
            final(self).session_id == (if old(self).session_id is None {
                parent.session_id
            } else {
                old(self).session_id
            }),
            final(self).event_id == old(self).event_id,
            final(self).timestamp == old(self).timestamp,
            final(self).source == old(self).source,
            final(self).custom_view() == old(self).custom_view(),
            final(self).deliver_at == old(self).deliver_at,
            final(self).topic == old(self).topic,
            final(self).reply_to == old(self).reply_to,
            final(self).idempotency_key == old(self).idempotency_key,
    {
        self.causation_id = Some(parent.event_id);
        self.correlation_id = match parent.correlation_id {
            Some(c) => Some(c),
            None => Some(parent.event_id),
        };
        if self.user_id.is_none() {
            self.user_id = copy_text(&parent.user_id);
        }
        if self.session_id.is_none() {
            self.session_id = copy_text(&parent.session_id);
        }
    }

    /// A copy of this metadata.
    pub fn duplicate(&self) -> (m: EventMetadata)
        ensures
            m.same_but_custom(*self),
            m.custom@ == self.custom@,
    {
        let mut custom: Vec<(String, String)> = Vec::new();
        let mut i: usize = 0;
        while i < self.custom.len()
            invariant
                i <= self.custom@.len(),
                custom@ == self.custom@.take(i as int),
            decreases self.custom@.len() - i,
        {
            let k = self.custom[i].0.clone();
            let v = self.custom[i].1.clone();
            custom.push((k, v));
            assert(custom@ =~= self.custom@.take(i + 1));
            i += 1;
        }
        assert(custom@ =~= self.custom@);
        EventMetadata {
            event_id: self.event_id,
            timestamp: self.timestamp,
            correlation_id: self.correlation_id,
            causation_id: self.causation_id,
            source: copy_text(&self.source),
            user_id: copy_text(&self.user_id),
            session_id: copy_text(&self.session_id),
            custom,
            deliver_at: self.deliver_at,
            topic: copy_text(&self.topic),
            reply_to: copy_text(&self.reply_to),
            idempotency_key: copy_text(&self.idempotency_key),
        }
    }
}

/// The position of the pair with key `k`, if there is one.
fn find_key(pairs: &Vec<(String, String)>, k: &String) -> (r: Option<usize>)
    ensures
        match r {
            Some(i) => i < pairs@.len() && pairs@[i as int].0@ == k@,
            None => forall|i: int| 0 <= i < pairs@.len() ==> pairs@[i].0@ != k@,
        },
{
    let mut i: usize = 0;
    while i < pairs.len()
        invariant
            i <= pairs@.len(),
            forall|j: int| 0 <= j < i ==> pairs@[j].0@ != k@,
        decreases pairs@.len() - i,
    {
        if pairs[i].0 == *k {
            return Some(i);
        }
        i += 1;
    }
    None
}

/// Builds `EventMetadata` step by step.
#[derive(Debug)]
pub struct MetadataBuilder {
    metadata: EventMetadata,
}

impl MetadataBuilder {
    /// The metadata being built.
    pub closed spec fn current(&self) -> EventMetadata {
        self.metadata
    }

    /// A builder that starts from fresh metadata.
    pub fn new() -> (b: MetadataBuilder)
        ensures
            b.current().wf(),
            b.current().event_id != 0,
            b.current().timestamp >= 0,
            b.current().correlation_id is None,
            b.current().causation_id is None,
            b.current().source is None,
            b.current().user_id is None,
            b.current().session_id is None,
            b.current().custom_map() == Map::<Seq<char>, Seq<char>>::empty(),
            b.current().deliver_at is None,
            b.current().topic is None,
            b.current().reply_to is None,
            b.current().idempotency_key is None,
    {
        MetadataBuilder { metadata: EventMetadata::new() }
    }

    /// Set the correlation identifier.
    pub fn correlation_id(self, id: u128) -> (b: MetadataBuilder)
        ensures
            b.current() == (EventMetadata { correlation_id: Some(id), ..self.current() }),
    {
        MetadataBuilder { metadata: self.metadata.set_correlation_id(id) }
    }

    /// Set the causation identifier.
    pub fn causation_id(self, id: u128) -> (b: MetadataBuilder)
        ensures
            b.current() == (EventMetadata { causation_id: Some(id), ..self.current() }),
    {
        MetadataBuilder { metadata: self.metadata.set_causation_id(id) }
    }

    /// Set the source.
    pub fn source(self, source: &str) -> (b: MetadataBuilder)
        ensures
            opt_text(b.current().source) == Some(source@),
            b.current() == (EventMetadata { source: b.current().source, ..self.current() }),
    {
        MetadataBuilder { metadata: self.metadata.set_source(source) }
    }

    /// Set the user identifier.
    pub fn user_id(self, user_id: &str) -> (b: MetadataBuilder)
        ensures
            opt_text(b.current().user_id) == Some(user_id@),
            b.current() == (EventMetadata { user_id: b.current().user_id, ..self.current() }),
    {
        MetadataBuilder { metadata: self.metadata.set_user_id(user_id) }
    }

    /// Set the session identifier.
    pub fn session_id(self, session_id: &str) -> (b: MetadataBuilder)
        ensures
            opt_text(b.current().session_id) == Some(session_id@),
            b.current() == (EventMetadata { session_id: b.current().session_id, ..self.current() }),
    {
        MetadataBuilder { metadata: self.metadata.set_session_id(session_id) }
    }

    /// Set a custom pair.
    pub fn custom(self, key: &str, value: &str) -> (b: MetadataBuilder)
        requires
            self.current().wf(),
        ensures
            b.current().wf(),
            b.current().custom_map() == self.current().custom_map().insert(key@, value@),
            b.current().same_but_custom(self.current()),
    {
        MetadataBuilder { metadata: self.metadata.with_custom(key, value) }
    }

    /// Set the routing topic.
    pub fn topic(self, topic: &str) -> (b: MetadataBuilder)
        ensures
            opt_text(b.current().topic) == Some(topic@),
            b.current() == (EventMetadata { topic: b.current().topic, ..self.current() }),
    {
        MetadataBuilder { metadata: self.metadata.with_topic(topic) }
    }

    /// Set the reply-to topic.
    pub fn reply_to(self, reply_to: &str) -> (b: MetadataBuilder)
        ensures
            opt_text(b.current().reply_to) == Some(reply_to@),
            b.current() == (EventMetadata { reply_to: b.current().reply_to, ..self.current() }),
    {
        MetadataBuilder { metadata: self.metadata.with_reply_to(reply_to) }
    }

    /// The metadata built.
    pub fn build(self) -> (m: EventMetadata)
        ensures
            m == self.current(),
    {
        self.metadata
    }
}

impl Default for EventMetadata {
    /// Fresh metadata, as `new` makes it.
    fn default() -> (m: EventMetadata)
        ensures
            m.wf(),
            m.event_id != 0,
            m.timestamp >= 0,
            m.correlation_id is None,
            m.causation_id is None,
            m.source is None,
            m.user_id is None,
            m.session_id is None,
            m.custom_map() == Map::<Seq<char>, Seq<char>>::empty(),
            m.deliver_at is None,
            m.topic is None,
            m.reply_to is None,
            m.idempotency_key is None,
    {
        EventMetadata::new()
    }
}

impl Default for MetadataBuilder {
    /// A builder that starts from fresh metadata.
    fn default() -> (b: MetadataBuilder)
        ensures
            b.current().wf(),
            b.current().event_id != 0,
            b.current().correlation_id is None,
            b.current().causation_id is None,
            b.current().source is None,
            b.current().user_id is None,
            b.current().session_id is None,
            b.current().custom_map() == Map::<Seq<char>, Seq<char>>::empty(),
    {
        MetadataBuilder::new()
    }
}

} // verus!
