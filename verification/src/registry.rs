//! The registry of subscriptions: which subscriptions listen to which event type, by which
//! name each event type is known, and which topic patterns subscriptions follow.
use vstd::prelude::*;
use std::any::TypeId;
use crate::assoc::{assoc_map, keys_distinct, lemma_assoc_lookup, lemma_assoc_push, lemma_assoc_update};
use crate::error::Error;
use crate::foreign::{
    ListMap, OwnerMap, list_entries, lists_get, lists_insert, lists_keys, lists_new, lists_remove,
    lists_with_capacity, owner_entries, owners_get, owners_insert, owners_len, owners_new, owners_remove,
    owners_with_capacity,
};
use crate::metadata::{copy_text, opt_text};
use crate::topic_trie::{TopicTrie, split_tokens, stored_pattern, topic_tokens};
use vstd::utf8::encode_utf8;

verus! {

broadcast use vstd::seq_lib::group_seq_properties;

/// One subscription as the registry knows it.
#[derive(Debug, Clone)]
pub struct SubscriptionEntry {
    /// Identifier of the subscription.
    pub id: u128,
    /// Name of the handler, for diagnostics.
    pub name: Option<String>,
    /// Whether the subscription receives events.
    pub active: bool,
    /// How many events the subscription has processed.
    pub events_processed: u64,
    /// The topic pattern the subscription follows, if it routes by topic.
    pub topic: Option<String>,
}

impl SubscriptionEntry {
    /// An active, unnamed entry that has processed nothing.
    pub fn new(id: u128) -> (e: SubscriptionEntry)
        ensures
            e == (SubscriptionEntry { id, name: None, active: true, events_processed: 0, topic: None }),
    {
        SubscriptionEntry { id, name: None, active: true, events_processed: 0, topic: None }
    }

    /// An active, named entry that has processed nothing.
    pub fn with_name(id: u128, name: &str) -> (e: SubscriptionEntry)
        ensures
            e.id == id,
            opt_text(e.name) == Some(name@),
            e.active,
            e.events_processed == 0,
            e.topic is None,
    {
        SubscriptionEntry {
            id,
            name: Some(name.to_owned()),
            active: true,
            events_processed: 0,
            topic: None,
        }
    }

    /// The same entry, following a topic pattern.
    pub fn with_topic(self, topic: &str) -> (e: SubscriptionEntry)
        ensures
            opt_text(e.topic) == Some(topic@),
            e == (SubscriptionEntry { topic: e.topic, ..self }),
    {
        SubscriptionEntry { topic: Some(topic.to_owned()), ..self }
    }

    /// A copy of this entry.
    pub fn duplicate(&self) -> (e: SubscriptionEntry)
        ensures
            e == *self,
    {
        SubscriptionEntry {
            id: self.id,
            name: copy_text(&self.name),
            active: self.active,
            events_processed: self.events_processed,
            topic: copy_text(&self.topic),
        }
    }
}

/// The active entries of a list, in order.
pub open spec fn active_entries(s: Seq<SubscriptionEntry>) -> Seq<SubscriptionEntry> {
    s.filter(|e: SubscriptionEntry| e.active)
}

/// The entries of a list whose identifier is not `id`, in order.
pub open spec fn entries_without(s: Seq<SubscriptionEntry>, id: u128) -> Seq<SubscriptionEntry> {
    s.filter(|e: SubscriptionEntry| e.id != id)
}

/// `i` is the first position of an entry with identifier `id`.
pub open spec fn first_position(s: Seq<SubscriptionEntry>, id: u128, i: int) -> bool {
    &&& 0 <= i < s.len()
    &&& s[i].id == id
    &&& forall|j: int| 0 <= j < i ==> s[j].id != id
}

/// The tokens of a topic or pattern given as text.
pub open spec fn text_tokens(s: Seq<char>) -> Seq<Seq<u8>> {
    split_tokens(encode_utf8(s))
}

/// Type names and the types they name, by their views.
pub open spec fn name_pairs(v: Seq<(String, TypeId)>) -> Seq<(Seq<char>, TypeId)> {
    v.map_values(|p: (String, TypeId)| (p.0@, p.1))
}

/// The first position of an entry with identifier `id`.
fn find_entry(v: &Vec<SubscriptionEntry>, id: u128) -> (r: Option<usize>)
    ensures
        match r {
            Some(i) => first_position(v@, id, i as int),
            None => forall|i: int| 0 <= i < v@.len() ==> v@[i].id != id,
        },
{
    let mut i: usize = 0;
    while i < v.len()
        invariant
            i <= v@.len(),
            forall|j: int| 0 <= j < i ==> v@[j].id != id,
        decreases v@.len() - i,
    {
        if v[i].id == id {
            return Some(i);
        }
        i += 1;
    }
    None
}

/// Copies of the active entries of a list, in order.
fn copy_active(v: &Vec<SubscriptionEntry>) -> (r: Vec<SubscriptionEntry>)
    ensures
        r@ == active_entries(v@),
{
    let mut r: Vec<SubscriptionEntry> = Vec::new();
    let mut i: usize = 0;
    while i < v.len()
        invariant
            i <= v@.len(),
            r@ == active_entries(v@.take(i as int)),
        decreases v@.len() - i,
    {
        assert(v@.take(i + 1) == v@.take(i as int).push(v@[i as int]));
        assert(v@.take(i + 1).drop_last() == v@.take(i as int));
        proof {
            reveal(Seq::filter);
        }
        if v[i].active {
            r.push(v[i].duplicate());
        }
        i += 1;
    }
    assert(v@.take(v@.len() as int) == v@);
    r
}

/// The entries of a list whose identifier is not `id`, in order.
fn retain_other(v: Vec<SubscriptionEntry>, id: u128) -> (r: Vec<SubscriptionEntry>)
    ensures
        r@ == entries_without(v@, id),
{
    let mut r: Vec<SubscriptionEntry> = Vec::new();
    let mut i: usize = 0;
    while i < v.len()
        invariant
            i <= v@.len(),
            r@ == entries_without(v@.take(i as int), id),
        decreases v@.len() - i,
    {
        assert(v@.take(i + 1) == v@.take(i as int).push(v@[i as int]));
        assert(v@.take(i + 1).drop_last() == v@.take(i as int));
        proof {
            reveal(Seq::filter);
        }
        if v[i].id != id {
            r.push(v[i].duplicate());
        }
        i += 1;
    }
    assert(v@.take(v@.len() as int) == v@);
    r
}

/// Copies of the entries of a list, in order.
pub(crate) fn copy_entries(v: &Vec<SubscriptionEntry>) -> (r: Vec<SubscriptionEntry>)
    ensures
        r@ == v@,
{
    let mut r: Vec<SubscriptionEntry> = Vec::new();
    let mut i: usize = 0;
    while i < v.len()
        invariant
            i <= v@.len(),
            r@ == v@.take(i as int),
        decreases v@.len() - i,
    {
        r.push(v[i].duplicate());
        assert(r@ =~= v@.take(i + 1));
        i += 1;
    }
    assert(v@.take(v@.len() as int) =~= v@);
    r
}

/// A registry of subscriptions keyed by event type, held in two concurrent maps: the
/// subscriptions of each event type, and the event type of each subscription.
#[derive(Debug)]
pub struct DashMapRegistry {
    subscriptions: ListMap,
    subscription_to_type: OwnerMap,
    event_names: Vec<(String, TypeId)>,
    topics: TopicTrie,
}

impl DashMapRegistry {
    /// The entries of each event type that has any, in registration order.
    pub closed spec fn by_type(&self) -> Map<TypeId, Seq<SubscriptionEntry>> {
        list_entries(self.subscriptions)
    }

    /// The entries of event type `t`, empty where it has none.
    pub open spec fn list_of(&self, t: TypeId) -> Seq<SubscriptionEntry> {
        if self.by_type().contains_key(t) {
            self.by_type()[t]
        } else {
            Seq::empty()
        }
    }

    /// The event type each registered subscription was last registered for.
    pub closed spec fn owners(&self) -> Map<u128, TypeId> {
        owner_entries(self.subscription_to_type)
    }

    /// The event type each registered type name stands for.
    pub closed spec fn names(&self) -> Map<Seq<char>, TypeId> {
        assoc_map(name_pairs(self.event_names@))
    }

    /// The topic patterns followed, with the subscription that follows each.
    pub closed spec fn topic_patterns(&self) -> Set<(Seq<Seq<u8>>, u128)> {
        self.topics@
    }

    /// The number of entries over all event types, inactive ones included.
    pub open spec fn entry_count(&self) -> nat {
        map_total(self.by_type(), false)
    }

    /// The number of active entries over all event types.
    pub open spec fn active_count(&self) -> nat {
        map_total(self.by_type(), true)
    }

    /// The registry's internal invariant.
    pub closed spec fn wf(&self) -> bool {
        &&& self.by_type().dom().finite()
        &&& forall|t: TypeId| #[trigger] self.by_type().contains_key(t) ==> self.by_type()[t].len() > 0
        &&& self.owners().dom().finite()
        &&& keys_distinct(name_pairs(self.event_names@))
        &&& self.topics.wf()
    }

    /// An empty registry.
    pub fn new() -> (r: DashMapRegistry)
        ensures
            r.wf(),
            r.by_type() == Map::<TypeId, Seq<SubscriptionEntry>>::empty(),
            r.owners() == Map::<u128, TypeId>::empty(),
            r.names() == Map::<Seq<char>, TypeId>::empty(),
            r.topic_patterns() == Set::<(Seq<Seq<u8>>, u128)>::empty(),
    {
        let r = DashMapRegistry {
            subscriptions: lists_new(),
            subscription_to_type: owners_new(),
            event_names: Vec::new(),
            topics: TopicTrie::new(),
        };
        assert(r.by_type() =~= Map::<TypeId, Seq<SubscriptionEntry>>::empty());
        assert(r.owners() =~= Map::<u128, TypeId>::empty());
        assert(name_pairs(r.event_names@) =~= Seq::<(Seq<char>, TypeId)>::empty());
        r
    }

    /// The position of the first entry with identifier `id` in `l`.
    pub open spec fn first_index(l: Seq<SubscriptionEntry>, id: u128) -> int {
        choose|i: int| first_position(l, id, i)
    }

    /// The entry registered under `id`: the first entry with that identifier in the list of
    /// the event type the identifier was last registered for.
    pub open spec fn entry_of(&self, id: u128) -> Option<SubscriptionEntry> {
        if self.owners().contains_key(id) && exists|i: int|
            first_position(self.list_of(self.owners()[id]), id, i) {
            let l = self.list_of(self.owners()[id]);
            Some(l[Self::first_index(l, id)])
        } else {
            None
        }
    }

    /// The entry lists once `id` is gone from the list of event type `t`.
    pub open spec fn lists_without(
        m: Map<TypeId, Seq<SubscriptionEntry>>,
        t: TypeId,
        id: u128,
    ) -> Map<TypeId, Seq<SubscriptionEntry>> {
        if m.contains_key(t) {
            if entries_without(m[t], id).len() > 0 {
                m.insert(t, entries_without(m[t], id))
            } else {
                m.remove(t)
            }
        } else {
            m
        }
    }

    /// The stored form of a topic pattern.
    pub open spec fn pattern_key(p: Seq<char>) -> Seq<Seq<u8>> {
        stored_pattern(text_tokens(p))
    }

    /// The topic registrations once `entry` is registered.
    pub open spec fn patterns_with(
        s: Set<(Seq<Seq<u8>>, u128)>,
        entry: SubscriptionEntry,
    ) -> Set<(Seq<Seq<u8>>, u128)> {
        match entry.topic {
            Some(p) => s.insert((Self::pattern_key(p@), entry.id)),
            None => s,
        }
    }

    /// The topic registrations of every subscription but `id`.
    pub open spec fn patterns_without(
        s: Set<(Seq<Seq<u8>>, u128)>,
        id: u128,
    ) -> Set<(Seq<Seq<u8>>, u128)> {
        Set::new(|e: (Seq<Seq<u8>>, u128)| s.contains(e) && e.1 != id)
    }

    /// An empty registry, with room for `capacity` event types and ten times as many
    /// subscriptions (the largest `usize` where that does not fit).
    pub fn with_capacity(capacity: usize) -> (r: DashMapRegistry)
        ensures
            r.wf(),
            r.by_type() == Map::<TypeId, Seq<SubscriptionEntry>>::empty(),
            r.owners() == Map::<u128, TypeId>::empty(),
            r.names() == Map::<Seq<char>, TypeId>::empty(),
            r.topic_patterns() == Set::<(Seq<Seq<u8>>, u128)>::empty(),
    {
        let owner_room: usize = if capacity <= usize::MAX / 10 { capacity * 10 } else { usize::MAX };
        let r = DashMapRegistry {
            subscriptions: lists_with_capacity(capacity),
            subscription_to_type: owners_with_capacity(owner_room),
            event_names: Vec::new(),
            topics: TopicTrie::new(),
        };
        assert(r.by_type() =~= Map::<TypeId, Seq<SubscriptionEntry>>::empty());
        assert(r.owners() =~= Map::<u128, TypeId>::empty());
        assert(name_pairs(r.event_names@) =~= Seq::<(Seq<char>, TypeId)>::empty());
        r
    }
}

impl DashMapRegistry {
    /// Add `subscription` to the end of the list of `event_type`, record the type as the
    /// subscription's owner, and register its topic pattern, if it has one.
    pub fn register(&mut self, event_type: TypeId, subscription: SubscriptionEntry) -> (r: Result<(), Error>)
        requires
            old(self).wf(),
        ensures
            final(self).wf(),
            r is Ok,
            final(self).by_type() == old(self).by_type().insert(
                event_type,
                old(self).list_of(event_type).push(subscription),
            ),
            final(self).owners() == old(self).owners().insert(subscription.id, event_type),
            final(self).names() == old(self).names(),
            final(self).topic_patterns() == Self::patterns_with(old(self).topic_patterns(), subscription),
            final(self).entry_count() == old(self).entry_count() + 1,
            final(self).active_count() == old(self).active_count() + (if subscription.active {
                1nat
            } else {
                0nat
            }),
            final(self).owners().len() == old(self).owners().len() + (if old(self).owners().contains_key(
                subscription.id,
            ) {
                0nat
            } else {
                1nat
            }),
            (forall|i: int| 0 <= i < old(self).list_of(event_type).len()
                ==> #[trigger] old(self).list_of(event_type)[i].id != subscription.id)
                ==> final(self).entry_of(subscription.id) == Some(subscription),
    {
        let ghost old_map = self.by_type();
        let ghost old_list = old(self).list_of(event_type);
        let id = subscription.id;
        if let Some(p) = &subscription.topic {
            self.topics.insert(p.as_str(), id);
        }
        owners_insert(&mut self.subscription_to_type, id, event_type);
        let mut l = match lists_remove(&mut self.subscriptions, &event_type) {
            Some(v) => v,
            None => Vec::new(),
        };
        assert(l@ == old_list);
        l.push(subscription);
        lists_insert(&mut self.subscriptions, event_type, l);
        proof {
            let new_map = self.by_type();
            assert(new_map =~= old_map.insert(event_type, old_list.push(subscription)));
            assert(new_map.remove(event_type) =~= old_map.remove(event_type));
            lemma_map_total_insert(old_map, event_type, old_list.push(subscription), false);
            lemma_map_total_insert(old_map, event_type, old_list.push(subscription), true);
            lemma_active_push(old_list, subscription);
            if !old_map.contains_key(event_type) {
                assert(old_list.len() == 0);
                assert(active_entries(old_list).len() == 0) by {
                    reveal(Seq::filter);
                }
            }
            assert(self.owners() == old(self).owners().insert(id, event_type));
            assert(self.owners().contains_key(id));
            assert(self.owners()[id] == event_type);
            let l = self.list_of(event_type);
            assert(self.by_type().contains_key(event_type));
            assert(l == old_list.push(subscription));
            if forall|i: int| 0 <= i < old_list.len() ==> #[trigger] old_list[i].id != id {
                let n = old_list.len() as int;
                assert(first_position(l, id, n));
                let f = Self::first_index(l, id);
                assert(first_position(l, id, f));
                if f < n {
                    assert(l[f] == old_list[f]);
                }
                assert(f == n);
                assert(l[n] == subscription);
                assert(self.entry_of(id) == Some(subscription));
            }
        }
        Ok(())
    }
}


impl DashMapRegistry {
    /// Remove subscription `id`: from its owner's list (the list goes once empty), from the
    /// owners, and from the topic registrations. Fails where `id` has no owner.
    pub fn unregister(&mut self, subscription_id: u128) -> (r: Result<(), Error>)
        requires
            old(self).wf(),
        ensures
            final(self).wf(),
            final(self).names() == old(self).names(),
            match r {
                Ok(()) => {
                    &&& old(self).owners().contains_key(subscription_id)
                    &&& final(self).owners() == old(self).owners().remove(subscription_id)
                    &&& final(self).by_type() == Self::lists_without(
                        old(self).by_type(),
                        old(self).owners()[subscription_id],
                        subscription_id,
                    )
                    &&& final(self).topic_patterns() == Self::patterns_without(
                        old(self).topic_patterns(),
                        subscription_id,
                    )
                },
                Err(e) => {
                    &&& !old(self).owners().contains_key(subscription_id)
                    &&& e == Error::SubscriptionNotFound { id: subscription_id }
                    &&& final(self).owners() == old(self).owners()
                    &&& final(self).by_type() == old(self).by_type()
                    &&& final(self).topic_patterns() == old(self).topic_patterns()
                },
            },
    {
        let ghost old_map = self.by_type();
        let event_type = match owners_remove(&mut self.subscription_to_type, subscription_id) {
            Some(t) => t,
            None => {
                assert(self.owners() =~= old(self).owners());
                return Err(Error::SubscriptionNotFound { id: subscription_id });
            },
        };
        match lists_remove(&mut self.subscriptions, &event_type) {
            Some(l) => {
                let rest = retain_other(l, subscription_id);
                if rest.len() > 0 {
                    lists_insert(&mut self.subscriptions, event_type, rest);
                    proof {
                        assert(self.by_type() =~= old_map.insert(
                            event_type,
                            entries_without(old_map[event_type], subscription_id),
                        ));
                    }
                } else {
                    proof {
                        assert(self.by_type() =~= old_map.remove(event_type));
                    }
                }
            },
            None => {
                assert(self.by_type() =~= old_map);
            },
        }
        self.topics.remove(subscription_id);
        proof {
            assert(self.topic_patterns() =~= Self::patterns_without(old(self).topic_patterns(), subscription_id));
        }
        Ok(())
    }

    /// The active entries of `event_type`, in registration order.
    pub fn get_subscriptions(&self, event_type: TypeId) -> (r: Vec<SubscriptionEntry>)
        requires
            self.wf(),
        ensures
            r@ == active_entries(self.list_of(event_type)),
    {
        match lists_get(&self.subscriptions, &event_type) {
            Some(l) => copy_active(&l),
            None => {
                assert(active_entries(Seq::<SubscriptionEntry>::empty()) =~= Seq::<SubscriptionEntry>::empty()) by {
                    reveal(Seq::filter);
                }
                Vec::new()
            },
        }
    }

    /// The number of entries of `event_type`, inactive ones included.
    pub fn subscription_count(&self, event_type: TypeId) -> (r: usize)
        requires
            self.wf(),
        ensures
            r == self.list_of(event_type).len(),
    {
        match lists_get(&self.subscriptions, &event_type) {
            Some(l) => l.len(),
            None => 0,
        }
    }

    /// The number of registered subscriptions.
    pub fn total_subscriptions(&self) -> (r: usize)
        requires
            self.wf(),
        ensures
            r == self.owners().len(),
    {
        owners_len(&self.subscription_to_type)
    }

    /// The event types that have entries, each once.
    pub fn event_types(&self) -> (r: Vec<TypeId>)
        requires
            self.wf(),
        ensures
            r@.no_duplicates(),
            r@.to_set() == self.by_type().dom(),
    {
        lists_keys(&self.subscriptions)
    }

    /// Forget every subscription, type name and topic registration.
    pub fn clear(&mut self)
        requires
            old(self).wf(),
        ensures
            final(self).wf(),
            final(self).by_type() == Map::<TypeId, Seq<SubscriptionEntry>>::empty(),
            final(self).owners() == Map::<u128, TypeId>::empty(),
            final(self).names() == Map::<Seq<char>, TypeId>::empty(),
            final(self).topic_patterns() == Set::<(Seq<Seq<u8>>, u128)>::empty(),
    {
        *self = DashMapRegistry::new();
    }
}

impl DashMapRegistry {
    /// The event type subscription `id` is registered for, with a copy of that type's list
    /// and the position of the subscription's entry in it.
    fn locate(&self, subscription_id: u128) -> (r: Option<(TypeId, Vec<SubscriptionEntry>, usize)>)
        requires
            self.wf(),
        ensures
            match r {
                Some((t, l, i)) => {
                    &&& self.entry_of(subscription_id) is Some
                    &&& self.owners().contains_key(subscription_id)
                    &&& t == self.owners()[subscription_id]
                    &&& self.by_type().contains_key(t)
                    &&& l@ == self.list_of(t)
                    &&& first_position(l@, subscription_id, i as int)
                    &&& Self::first_index(l@, subscription_id) == i
                },
                None => self.entry_of(subscription_id) is None,
            },
    {
        let t = match owners_get(&self.subscription_to_type, subscription_id) {
            Some(t) => t,
            None => {
                return None;
            },
        };
        let l = match lists_get(&self.subscriptions, &t) {
            Some(l) => l,
            None => {
                assert(self.list_of(t) =~= Seq::<SubscriptionEntry>::empty());
                return None;
            },
        };
        match find_entry(&l, subscription_id) {
            Some(i) => {
                assert(Self::first_index(l@, subscription_id) == i) by {
                    let c = Self::first_index(l@, subscription_id);
                    assert(first_position(l@, subscription_id, c));
                    if c < i {
                        assert(l@[c].id != subscription_id);
                    }
                    if c > i {
                        assert(l@[i as int].id != subscription_id);
                    }
                }
                Some((t, l, i))
            },
            None => {
                assert(!exists|i: int| first_position(l@, subscription_id, i)) by {
                    if exists|i: int| first_position(l@, subscription_id, i) {
                        let i = choose|i: int| first_position(l@, subscription_id, i);
                        assert(l@[i].id != subscription_id);
                    }
                }
                None
            },
        }
    }

    /// A copy of the entry registered under `subscription_id`.
    pub fn get_subscription(&self, subscription_id: u128) -> (r: Option<SubscriptionEntry>)
        requires
            self.wf(),
        ensures
            r == self.entry_of(subscription_id),
    {
        match self.locate(subscription_id) {
            Some((_, l, i)) => Some(l[i].duplicate()),
            None => None,
        }
    }

    /// Count one more event processed by subscription `subscription_id`, if it is registered.
    pub fn increment_processed(&mut self, subscription_id: u128)
        requires
            old(self).wf(),
            old(self).entry_of(subscription_id) matches Some(e) ==> e.events_processed < u64::MAX,
        ensures
            final(self).wf(),
            final(self).owners() == old(self).owners(),
            final(self).names() == old(self).names(),
            final(self).topic_patterns() == old(self).topic_patterns(),
            match old(self).entry_of(subscription_id) {
                Some(e) => {
                    let t = old(self).owners()[subscription_id];
                    let l = old(self).list_of(t);
                    final(self).by_type() == old(self).by_type().insert(
                        t,
                        l.update(
                            Self::first_index(l, subscription_id),
                            SubscriptionEntry { events_processed: (e.events_processed + 1) as u64, ..e },
                        ),
                    )
                },
                None => final(self).by_type() == old(self).by_type(),
            },
    {
        match self.locate(subscription_id) {
            Some((t, mut l, i)) => {
                let ghost old_map = self.by_type();
                let mut e = l[i].duplicate();
                e.events_processed = e.events_processed + 1;
                l.set(i, e);
                lists_insert(&mut self.subscriptions, t, l);
                proof {
                    assert(self.by_type() =~= old_map.insert(t, l@));
                }
            },
            None => {},
        }
    }

    /// Stop delivering to subscription `subscription_id`; it stays registered.
    /// Fails where no entry is registered under it.
    pub fn deactivate(&mut self, subscription_id: u128) -> (r: Result<(), Error>)
        requires
            old(self).wf(),
        ensures
            final(self).wf(),
            final(self).owners() == old(self).owners(),
            final(self).names() == old(self).names(),
            final(self).topic_patterns() == old(self).topic_patterns(),
            match r {
                Ok(()) => old(self).entry_of(subscription_id) matches Some(e) && {
                    let t = old(self).owners()[subscription_id];
                    let l = old(self).list_of(t);
                    final(self).by_type() == old(self).by_type().insert(
                        t,
                        l.update(Self::first_index(l, subscription_id), SubscriptionEntry { active: false, ..e }),
                    )
                },
                Err(e) => {
                    &&& old(self).entry_of(subscription_id) is None
                    &&& e == Error::SubscriptionNotFound { id: subscription_id }
                    &&& final(self).by_type() == old(self).by_type()
                },
            },
    {
        match self.locate(subscription_id) {
            Some((t, mut l, i)) => {
                let ghost old_map = self.by_type();
                let mut e = l[i].duplicate();
                e.active = false;
                l.set(i, e);
                lists_insert(&mut self.subscriptions, t, l);
                proof {
                    assert(self.by_type() =~= old_map.insert(t, l@));
                }
                Ok(())
            },
            None => Err(Error::SubscriptionNotFound { id: subscription_id }),
        }
    }
}


/// Counts over the registry's entries.
#[derive(Debug, Clone, Copy, Default)]
pub struct RegistryStats {
    /// Number of event types that have entries.
    pub event_types: usize,
    /// Number of entries.
    pub total_subscriptions: usize,
    /// Number of active entries.
    pub active_subscriptions: usize,
    /// Number of inactive entries.
    pub inactive_subscriptions: usize,
}

/// What one list of entries counts for: its active entries where `active_only`, else all.
pub open spec fn list_weight(l: Seq<SubscriptionEntry>, active_only: bool) -> nat {
    if active_only {
        active_entries(l).len()
    } else {
        l.len()
    }
}

/// The entries (or, where `active_only`, the active entries) over all lists of a map.
pub open spec fn map_total(m: Map<TypeId, Seq<SubscriptionEntry>>, active_only: bool) -> nat
    decreases m.dom().len(),
    when m.dom().finite()
{
    if m.dom().len() == 0 {
        0
    } else {
        let k = m.dom().choose();
        list_weight(m[k], active_only) + map_total(m.remove(k), active_only)
    }
}

/// The total of a map is the weight of any one of its lists plus the total of the rest.
pub proof fn lemma_map_total_remove(m: Map<TypeId, Seq<SubscriptionEntry>>, k: TypeId, active_only: bool)
    requires
        m.dom().finite(),
        m.contains_key(k),
    ensures
        map_total(m, active_only) == list_weight(m[k], active_only) + map_total(m.remove(k), active_only),
    decreases m.dom().len(),
{
    let c = m.dom().choose();
    assert(m.dom().contains(c));
    if c != k {
        let mc = m.remove(c);
        let mk = m.remove(k);
        assert(mc.dom() == m.dom().remove(c));
        assert(mk.dom() == m.dom().remove(k));
        lemma_map_total_remove(mc, k, active_only);
        lemma_map_total_remove(mk, c, active_only);
        assert(mc.remove(k) =~= mk.remove(c));
        assert(mc[k] == m[k]);
        assert(mk[c] == m[c]);
    }
}

/// The total after `k` gets the list `v`.
pub proof fn lemma_map_total_insert(
    m: Map<TypeId, Seq<SubscriptionEntry>>,
    k: TypeId,
    v: Seq<SubscriptionEntry>,
    active_only: bool,
)
    requires
        m.dom().finite(),
    ensures
        map_total(m.insert(k, v), active_only) + (if m.contains_key(k) {
            list_weight(m[k], active_only)
        } else {
            0
        }) == map_total(m, active_only) + list_weight(v, active_only),
{
    let n = m.insert(k, v);
    lemma_map_total_remove(n, k, active_only);
    if m.contains_key(k) {
        lemma_map_total_remove(m, k, active_only);
        assert(n.remove(k) =~= m.remove(k));
    } else {
        assert(n.remove(k) =~= m);
    }
}


/// The position of the pair whose name is `key`.
fn find_name(v: &Vec<(String, TypeId)>, key: &String) -> (r: Option<usize>)
    ensures
        match r {
            Some(i) => i < v@.len() && v@[i as int].0@ == key@,
            None => forall|i: int| 0 <= i < v@.len() ==> v@[i].0@ != key@,
        },
{
    let mut i: usize = 0;
    while i < v.len()
        invariant
            i <= v@.len(),
            forall|j: int| 0 <= j < i ==> v@[j].0@ != key@,
        decreases v@.len() - i,
    {
        if v[i].0 == *key {
            return Some(i);
        }
        i += 1;
    }
    None
}

/// The number of active entries in a list.
fn count_active(v: &Vec<SubscriptionEntry>) -> (r: usize)
    ensures
        r == active_entries(v@).len(),
{
    let mut r: usize = 0;
    let mut i: usize = 0;
    while i < v.len()
        invariant
            i <= v@.len(),
            r == active_entries(v@.take(i as int)).len(),
            r <= i,
        decreases v@.len() - i,
    {
        assert(v@.take(i + 1) == v@.take(i as int).push(v@[i as int]));
        assert(v@.take(i + 1).drop_last() == v@.take(i as int));
        proof {
            reveal(Seq::filter);
        }
        if v[i].active {
            r += 1;
        }
        i += 1;
    }
    assert(v@.take(v@.len() as int) == v@);
    r
}

/// `n` as a `usize`, or the largest `usize` where it does not fit.
pub open spec fn capped(n: nat) -> usize {
    if n <= usize::MAX {
        n as usize
    } else {
        usize::MAX
    }
}

impl DashMapRegistry {
    /// Register `subscription` for `event_type` as `register` does, and record `event_name`
    /// as the name of `event_type`.
    pub fn register_named(
        &mut self,
        event_type: TypeId,
        event_name: &str,
        subscription: SubscriptionEntry,
    ) -> (r: Result<(), Error>)
        requires
            old(self).wf(),
        ensures
            final(self).wf(),
            r is Ok,
            final(self).by_type() == old(self).by_type().insert(
                event_type,
                old(self).list_of(event_type).push(subscription),
            ),
            final(self).owners() == old(self).owners().insert(subscription.id, event_type),
            final(self).names() == old(self).names().insert(event_name@, event_type),
            final(self).topic_patterns() == Self::patterns_with(old(self).topic_patterns(), subscription),
    {
        let ghost old_names = name_pairs(self.event_names@);
        proof {
            lemma_assoc_lookup(old_names);
        }
        let key = event_name.to_owned();
        let found = find_name(&self.event_names, &key);
        match found {
            Some(j) => {
                let name = self.event_names[j].0.clone();
                self.event_names.set(j, (name, event_type));
                proof {
                    assert(name_pairs(self.event_names@) =~= old_names.update(j as int, (old_names[j as int].0, event_type)));
                    lemma_assoc_update(old_names, j as int, event_type);
                }
            },
            None => {
                self.event_names.push((event_name.to_owned(), event_type));
                proof {
                    assert(!assoc_map(old_names).contains_key(event_name@)) by {
                        if assoc_map(old_names).contains_key(event_name@) {
                            let j = choose|j: int| 0 <= j < old_names.len() && old_names[j].0 == event_name@;
                            assert(self.event_names@[j].0@ == event_name@);
                        }
                    }
                    assert(name_pairs(self.event_names@) =~= old_names.push((event_name@, event_type)));
                    lemma_assoc_push(old_names, event_name@, event_type);
                }
            },
        }
        self.register(event_type, subscription)
    }

    /// The event type registered under `event_name`.
    pub fn get_type_id(&self, event_name: &str) -> (r: Option<TypeId>)
        requires
            self.wf(),
        ensures
            match r {
                Some(t) => self.names().contains_key(event_name@) && self.names()[event_name@] == t,
                None => !self.names().contains_key(event_name@),
            },
    {
        let ghost names = name_pairs(self.event_names@);
        proof {
            lemma_assoc_lookup(names);
        }
        let key = event_name.to_owned();
        if let Some(i) = find_name(&self.event_names, &key) {
            assert(names[i as int] == (self.event_names@[i as int].0@, self.event_names@[i as int].1));
            assert(assoc_map(names)[names[i as int].0] == names[i as int].1);
            return Some(self.event_names[i].1);
        }
        assert(!assoc_map(names).contains_key(event_name@)) by {
            if assoc_map(names).contains_key(event_name@) {
                let j = choose|j: int| 0 <= j < names.len() && names[j].0 == event_name@;
                assert(self.event_names@[j].0@ == event_name@);
            }
        }
        None
    }

    /// Subscription `id` has an entry, and it is active.
    pub open spec fn active_entry(&self, id: u128) -> bool {
        self.entry_of(id) matches Some(e) && e.active
    }

    /// The subscriptions whose topic pattern matches `topic`.
    pub open spec fn topic_targets(&self, topic: Seq<char>) -> Set<u128> {
        Set::new(|id: u128| exists|p: Seq<Seq<u8>>| #[trigger] self.topic_patterns().contains((p, id))
            && crate::topic_trie::pattern_matches(p, text_tokens(topic)))
    }

    /// Copies of the active entries of the subscriptions whose topic pattern matches
    /// `topic`, each once.
    pub fn get_topic_subscriptions(&self, topic: &str) -> (r: Vec<SubscriptionEntry>)
        requires
            self.wf(),
        ensures
            forall|i: int, j: int| 0 <= i < j < r@.len() ==> r@[i].id != r@[j].id,
            forall|i: int| 0 <= i < r@.len() ==> {
                &&& self.topic_targets(topic@).contains(#[trigger] r@[i].id)
                &&& self.entry_of(r@[i].id) == Some(r@[i])
                &&& r@[i].active
            },
            forall|id: u128| #[trigger] self.topic_targets(topic@).contains(id)
                && self.active_entry(id)
                ==> exists|i: int| 0 <= i < r@.len() && r@[i].id == id,
    {
        let ids = self.topics.match_topic(topic);
        assert forall|x: u128| ids@.contains(x) <==> self.topic_targets(topic@).contains(x) by {
            assert(self.topics.matching(topic_tokens(topic)).contains(x) <==> self.topic_targets(topic@).contains(x));
        }
        let mut r: Vec<SubscriptionEntry> = Vec::new();
        let mut i: usize = 0;
        while i < ids.len()
            invariant
                self.wf(),
                i <= ids@.len(),
                ids@.no_duplicates(),
                forall|x: u128| ids@.contains(x) <==> self.topic_targets(topic@).contains(x),
                forall|a: int| 0 <= a < r@.len() ==> exists|b: int| 0 <= b < i && ids@[b] == #[trigger] r@[a].id,
                forall|a: int, b: int| 0 <= a < b < r@.len() ==> r@[a].id != r@[b].id,
                forall|a: int| 0 <= a < r@.len() ==> {
                    &&& self.topic_targets(topic@).contains(#[trigger] r@[a].id)
                    &&& self.entry_of(r@[a].id) == Some(r@[a])
                    &&& r@[a].active
                },
                forall|b: int| 0 <= b < i && self.active_entry(#[trigger] ids@[b])
                    ==> exists|a: int| 0 <= a < r@.len() && r@[a].id == ids@[b],
            decreases ids@.len() - i,
        {
            let id = ids[i];
            assert(ids@.contains(id));
            match self.get_subscription(id) {
                Some(e) => {
                    if e.active {
                        proof {
                            assert forall|a: int| 0 <= a < r@.len() implies r@[a].id != id by {
                                let b = choose|b: int| 0 <= b < i && ids@[b] == r@[a].id;
                                assert(ids@[b] != ids@[i as int]);
                            }
                        }
                        let ghost before = r@;
                        r.push(e);
                        proof {
                            assert(r@[before.len() as int].id == ids@[i as int]);
                            assert forall|b: int| 0 <= b <= i && self.active_entry(#[trigger] ids@[b])
                                implies exists|a: int| 0 <= a < r@.len() && r@[a].id == ids@[b] by {
                                if b < i {
                                    let a = choose|a: int| 0 <= a < before.len() && before[a].id == ids@[b];
                                    assert(r@[a] == before[a]);
                                } else {
                                    assert(r@[before.len() as int].id == ids@[b]);
                                }
                            }
                        }
                    }
                },
                None => {},
            }
            i += 1;
        }
        proof {
            assert forall|id: u128| #[trigger] self.topic_targets(topic@).contains(id)
                && self.active_entry(id)
                implies exists|a: int| 0 <= a < r@.len() && r@[a].id == id by {
                assert(ids@.contains(id));
                let b = choose|b: int| 0 <= b < ids@.len() && ids@[b] == id;
                assert(self.active_entry(ids@[b]));
            }
        }
        r
    }

    /// How many subscriptions `get_topic_subscriptions` gives for `topic`.
    pub fn topic_subscription_count(&self, topic: &str) -> (r: usize)
        requires
            self.wf(),
        ensures
            r == Set::new(|id: u128| self.topic_targets(topic@).contains(id)
                && self.active_entry(id)).len(),
    {
        let subs = self.get_topic_subscriptions(topic);
        let ghost ids = subs@.map_values(|e: SubscriptionEntry| e.id);
        proof {
            let target = Set::new(|id: u128| self.topic_targets(topic@).contains(id)
                && self.active_entry(id));
            assert(ids.no_duplicates()) by {
                assert forall|a: int, b: int| 0 <= a < ids.len() && 0 <= b < ids.len() && a != b implies ids[a] != ids[b] by {
                    if a < b {
                        assert(subs@[a].id != subs@[b].id);
                    } else {
                        assert(subs@[b].id != subs@[a].id);
                    }
                }
            }
            assert(ids.to_set() =~= target) by {
                assert forall|id: u128| ids.to_set().contains(id) <==> target.contains(id) by {
                    if ids.to_set().contains(id) {
                        let a = choose|a: int| 0 <= a < ids.len() && ids[a] == id;
                        assert(self.topic_targets(topic@).contains(subs@[a].id));
                        assert(self.entry_of(subs@[a].id) == Some(subs@[a]));
                    }
                    if target.contains(id) {
                        let a = choose|a: int| 0 <= a < subs@.len() && subs@[a].id == id;
                        assert(ids[a] == id);
                    }
                }
            }
            ids.unique_seq_to_set();
        }
        subs.len()
    }

    /// Counts over the entries: event types, entries, active and inactive entries
    /// (each count capped at the largest `usize`).
    pub fn stats(&self) -> (r: RegistryStats)
        requires
            self.wf(),
        ensures
            r.event_types == self.by_type().len(),
            r.total_subscriptions == capped(self.entry_count()),
            r.active_subscriptions == capped(self.active_count()),
            r.inactive_subscriptions == capped((self.entry_count() - self.active_count()) as nat),
    {
        let keys = lists_keys(&self.subscriptions);
        let ghost m = self.by_type();
        proof {
            keys@.unique_seq_to_set();
        }
        let mut total: u128 = 0;
        let mut active: u128 = 0;
        let mut i: usize = 0;
        proof {
            assert(keys@.take(0).to_set() =~= Set::<TypeId>::empty());
            assert(m.remove_keys(keys@.take(0).to_set()) =~= m);
        }
        while i < keys.len()
            invariant
                self.wf(),
                m == self.by_type(),
                keys@.no_duplicates(),
                keys@.to_set() == m.dom(),
                i <= keys@.len(),
                m.remove_keys(keys@.take(i as int).to_set()).dom().finite(),
                total + map_total(m.remove_keys(keys@.take(i as int).to_set()), false) == map_total(m, false),
                active + map_total(m.remove_keys(keys@.take(i as int).to_set()), true) == map_total(m, true),
                active <= total,
                total <= i * usize::MAX,
            decreases keys@.len() - i,
        {
            let k = keys[i];
            let ghost rest = m.remove_keys(keys@.take(i as int).to_set());
            proof {
                assert(keys@.to_set().contains(k));
                assert(!keys@.take(i as int).to_set().contains(k)) by {
                    if keys@.take(i as int).to_set().contains(k) {
                        let j = choose|j: int| 0 <= j < i && keys@.take(i as int)[j] == k;
                        assert(keys@[j] == keys@[i as int]);
                    }
                }
                assert(rest.contains_key(k));
                lemma_map_total_remove(rest, k, false);
                lemma_map_total_remove(rest, k, true);
                assert(keys@.take(i + 1).to_set() =~= keys@.take(i as int).to_set().insert(k)) by {
                    assert(keys@.take(i + 1) == keys@.take(i as int).push(k));
                }
                assert(m.remove_keys(keys@.take(i + 1).to_set()) =~= rest.remove(k));
            }
            let l = match lists_get(&self.subscriptions, &k) {
                Some(l) => l,
                None => Vec::new(),
            };
            let n = l.len();
            let a = count_active(&l);
            proof {
                assert(l@ == m[k]);
                assert(active_entries(l@).len() <= l@.len()) by {
                    l@.lemma_filter_len(|e: SubscriptionEntry| e.active);
                }
                assert((i + 1) * usize::MAX == i * usize::MAX + usize::MAX) by (nonlinear_arith);
                assert(i * usize::MAX <= usize::MAX * usize::MAX) by (nonlinear_arith)
                    requires i <= usize::MAX;
            }
            total = total + n as u128;
            active = active + a as u128;
            i += 1;
        }
        proof {
            assert(keys@.take(keys@.len() as int) == keys@);
            assert(m.remove_keys(keys@.to_set()).dom() =~= Set::<TypeId>::empty());
            assert(map_total(m.remove_keys(keys@.to_set()), false) == 0);
            assert(map_total(m.remove_keys(keys@.to_set()), true) == 0);
        }
        let inactive = total - active;
        let t: usize = if total <= usize::MAX as u128 { total as usize } else { usize::MAX };
        let a: usize = if active <= usize::MAX as u128 { active as usize } else { usize::MAX };
        let n: usize = if inactive <= usize::MAX as u128 { inactive as usize } else { usize::MAX };
        RegistryStats {
            event_types: keys.len(),
            total_subscriptions: t,
            active_subscriptions: a,
            inactive_subscriptions: n,
        }
    }
}


impl DashMapRegistry {
    /// In a well-formed registry every event type with entries has at least one.
    pub proof fn lemma_lists_nonempty(&self)
        requires
            self.wf(),
        ensures
            forall|t: TypeId| #[trigger] self.by_type().contains_key(t) ==> self.by_type()[t].len() > 0,
    {
    }

    /// The maps of a well-formed registry are finite, so their sizes are its counts: the
    /// number of event types with entries and the number of registered subscriptions.
    pub proof fn lemma_counts_finite(&self)
        requires
            self.wf(),
        ensures
            self.by_type().dom().finite(),
            self.owners().dom().finite(),
    {
    }

    /// A well-formed registry without event types has no entries.
    pub proof fn lemma_no_types_no_entries(&self)
        requires
            self.wf(),
            self.by_type().len() == 0,
        ensures
            self.entry_count() == 0,
            self.active_count() == 0,
    {
    }

    /// Each event type's entries are among the entries counted.
    pub proof fn lemma_type_count_le_total(&self, t: TypeId)
        requires
            self.wf(),
        ensures
            self.list_of(t).len() <= self.entry_count(),
    {
        if self.by_type().contains_key(t) {
            lemma_map_total_remove(self.by_type(), t, false);
        }
    }
}

/// One more entry at the end of a list adds one active entry if it is active.
proof fn lemma_active_push(l: Seq<SubscriptionEntry>, e: SubscriptionEntry)
    ensures
        active_entries(l.push(e)).len() == active_entries(l).len() + (if e.active {
            1nat
        } else {
            0nat
        }),
{
    reveal(Seq::filter);
    assert(l.push(e).drop_last() == l);
}

impl Default for DashMapRegistry {
    /// An empty registry.
    fn default() -> (r: DashMapRegistry)
        ensures
            r.wf(),
            r.by_type() == Map::<TypeId, Seq<SubscriptionEntry>>::empty(),
            r.owners() == Map::<u128, TypeId>::empty(),
            r.names() == Map::<Seq<char>, TypeId>::empty(),
            r.topic_patterns() == Set::<(Seq<Seq<u8>>, u128)>::empty(),
    {
        DashMapRegistry::new()
    }
}

} // verus!
