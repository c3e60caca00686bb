//! Properties of the bus that span operations, each proved over the specifications of the
//! operations it speaks of.
use vstd::prelude::*;
use std::any::TypeId;
use crate::metadata::EventMetadata;
use crate::persistence::{AckAction, PendingFate, WorkerAction, ack_action_spec, count_after, kept_in_batch, key_at, pending_fate_spec, stored_actions};
use crate::registry::{DashMapRegistry, SubscriptionEntry, active_entries, entries_without, first_position};
use crate::subscription::{RetryPolicy, RetryStep, backoff_for, retry_fits, step_after};
use crate::topic_trie::{TopicTrie, pattern_matches, stored_pattern, lemma_stored_pattern_matches, single_wildcard, trailing_wildcard};
use vstd::arithmetic::power2::{pow2, lemma_pow2_unfold};

verus! {

/// The stored count after `k` acknowledgements, starting from `c`.
pub open spec fn count_after_acks(c: Option<u32>, k: nat, success: bool) -> Option<u32>
    decreases k,
{
    if k == 0 {
        c
    } else {
        count_after_acks(count_after(c, ack_action_spec(c, success)), (k - 1) as nat, success)
    }
}

/// An event stored for `n` subscribers stays stored, owed by `n - k` of them, after `k`
/// acknowledgements, and is gone after the `n`-th.
pub proof fn law_acks_count_down(n: u32, k: nat, success: bool)
    requires
        n >= 1,
        k <= n,
    ensures
        k < n ==> count_after_acks(Some(n), k, success) == Some((n - k) as u32),
        k == n ==> count_after_acks(Some(n), k, success) is None,
    decreases k,
{
    if k > 0 {
        if n == 1 {
            assert(count_after(Some(n), ack_action_spec(Some(n), success)) is None);
            assert(count_after_acks(None, (k - 1) as nat, success) is None) by {
                lemma_acks_on_absent((k - 1) as nat, success);
            }
        } else {
            assert(count_after(Some(n), ack_action_spec(Some(n), success)) == Some((n - 1) as u32));
            law_acks_count_down((n - 1) as u32, (k - 1) as nat, success);
        }
    }
}

/// Acknowledging an event that is not stored leaves it not stored.
pub proof fn lemma_acks_on_absent(k: nat, success: bool)
    ensures
        count_after_acks(None, k, success) is None,
    decreases k,
{
    if k > 0 {
        lemma_acks_on_absent((k - 1) as nat, success);
    }
}

/// The last acknowledgement of a failed handling keeps the payload as a dead letter; of
/// a successful one, it does not.
pub proof fn law_last_ack_dead_letters(success: bool)
    ensures
        ack_action_spec(Some(1), success) == (AckAction::Remove { to_dead_letters: !success }),
{
}

/// A handler that keeps failing runs `max_retries + 1` times: every failure before the
/// last allowed retry is retried, with one more attempt counted, and the failure after it
/// gives the event up.
pub proof fn law_retries_then_dead_letter(p: RetryPolicy, failures: u32)
    requires
        p.max_retries < u32::MAX,
        failures <= p.max_retries,
    ensures
        failures < p.max_retries ==> (step_after(p, failures) matches RetryStep::Retry { attempt, .. } && attempt
            == failures + 1),
        failures == p.max_retries ==> step_after(p, failures) == (RetryStep::DeadLetter {
            attempts: (p.max_retries + 1) as u32,
        }),
{
}

/// Each retry waits twice as long as the one before.
pub proof fn law_backoff_doubles(base: u64, attempt: nat)
    requires
        attempt >= 1,
    ensures
        backoff_for(base, attempt + 1) == 2 * backoff_for(base, attempt),
{
    lemma_pow2_unfold(attempt);
    assert(base * pow2(attempt) == base * (2 * pow2((attempt - 1) as nat)));
    assert(base * (2 * pow2((attempt - 1) as nat)) == 2 * (base * pow2((attempt - 1) as nat))) by (nonlinear_arith);
}

/// The first retry waits the configured backoff, and every later retry waits twice as
/// long as the retry before it.
pub proof fn law_retry_waits_double(p: RetryPolicy, failures: u32)
    requires
        failures + 2 <= p.max_retries,
        retry_fits(p, (failures + 1) as u32),
    ensures
        step_after(p, 0) matches RetryStep::Retry { backoff_ms, .. } && backoff_ms == p.retry_backoff,
        step_after(p, failures) matches RetryStep::Retry { backoff_ms: first, .. } && step_after(
            p,
            (failures + 1) as u32,
        ) matches RetryStep::Retry { backoff_ms: second, .. } && second == 2 * first,
{
    let a = (failures + 1) as nat;
    law_backoff_doubles(p.retry_backoff, a);
    assert(pow2(0) == 1) by {
        vstd::arithmetic::power2::lemma2_to64();
    }
    assert(((1 - 1) as nat) == 0nat);
    assert(p.retry_backoff * pow2(0) == p.retry_backoff);
    assert(backoff_for(p.retry_backoff, 1) == p.retry_backoff);
    assert(backoff_for(p.retry_backoff, a) <= backoff_for(p.retry_backoff, a + 1));
    assert(0 <= backoff_for(p.retry_backoff, a)) by (nonlinear_arith)
        requires
            backoff_for(p.retry_backoff, a) == p.retry_backoff * pow2((a - 1) as nat),
            pow2((a - 1) as nat) >= 0,
            p.retry_backoff >= 0,
    {
    }
}

/// After a restart a stored event is replayed exactly when some subscriber still owes it
/// an acknowledgement, its payload can be read back and its type still has subscribers;
/// any other stored event is deleted, and an event without a stored count is left alone.
pub proof fn law_pending_replayed_when_owed(refcount: Option<u32>, decoded: bool, subscribers: Option<usize>)
    ensures
        refcount is None ==> pending_fate_spec(refcount, decoded, subscribers) is None,
        refcount matches Some(c) ==> (pending_fate_spec(refcount, decoded, subscribers) == Some(PendingFate::Replay)
            <==> (c > 0 && decoded && subscribers is Some && subscribers->0 > 0)),
        refcount matches Some(c) ==> (pending_fate_spec(refcount, decoded, subscribers) == Some(PendingFate::Dead)
            <==> !(c > 0 && decoded && subscribers is Some && subscribers->0 > 0)),
{
}

/// Within one batch an idempotency key is stored at most once, and never a key that was
/// already processed.
pub proof fn law_batch_stores_key_once(keys: Seq<Option<String>>, processed: Seq<String>, i: int, j: int, k: Seq<char>)
    requires
        0 <= i < j < keys.len(),
        key_at(keys, i, k),
        key_at(keys, j, k),
    ensures
        !kept_in_batch(keys, processed, j),
{
    assert(keys[i] matches Some(ki) && ki@ == k);
}

/// A message whose key was already processed is not stored again.
pub proof fn law_processed_key_not_stored(keys: Seq<Option<String>>, processed: Seq<String>, i: int, x: int)
    requires
        0 <= i < keys.len(),
        0 <= x < processed.len(),
        keys[i] matches Some(k) && k@ == processed[x]@,
    ensures
        !kept_in_batch(keys, processed, i),
{
}

/// Once an active subscription is registered for an event type, the subscriptions of that
/// type end with it, after the ones that were there.
pub proof fn law_registered_is_delivered(l: Seq<SubscriptionEntry>, e: SubscriptionEntry)
    requires
        e.active,
    ensures
        active_entries(l.push(e)) == active_entries(l).push(e),
{
    reveal(Seq::filter);
    assert(l.push(e).drop_last() == l);
}

/// Registering a subscription whose identifier is new, then unregistering it, gives back
/// the entry lists and owners there were.
pub proof fn law_unregister_undoes_register(r: DashMapRegistry, t: TypeId, e: SubscriptionEntry)
    requires
        r.wf(),
        !r.owners().contains_key(e.id),
        forall|i: int| 0 <= i < r.list_of(t).len() ==> r.list_of(t)[i].id != e.id,
    ensures
        DashMapRegistry::lists_without(r.by_type().insert(t, r.list_of(t).push(e)), t, e.id) == r.by_type(),
        r.owners().insert(e.id, t).remove(e.id) == r.owners(),
{
    r.lemma_lists_nonempty();
    let l = r.list_of(t);
    assert(entries_without(l.push(e), e.id) == l) by {
        reveal(Seq::filter);
        assert(l.push(e).drop_last() == l);
        lemma_filter_keeps_all(l, e.id);
    }
    if r.by_type().contains_key(t) {
        assert(r.by_type().insert(t, l) =~= r.by_type());
    } else {
        assert(l.len() == 0);
        assert(r.by_type().insert(t, l.push(e)).remove(t) =~= r.by_type());
    }
    assert(r.owners().insert(e.id, t).remove(e.id) =~= r.owners());
}

/// Dropping the entries with an identifier that no entry has keeps the list as it is.
pub proof fn lemma_filter_keeps_all(l: Seq<SubscriptionEntry>, id: u128)
    requires
        forall|i: int| 0 <= i < l.len() ==> l[i].id != id,
    ensures
        entries_without(l, id) == l,
    decreases l.len(),
{
    reveal(Seq::filter);
    if l.len() > 0 {
        lemma_filter_keeps_all(l.drop_last(), id);
        assert(l.drop_last().push(l.last()) == l);
    }
}

/// A deactivated subscription stays registered, under the same identifier, but is no
/// longer active.
pub proof fn law_deactivated_stays_registered(l: Seq<SubscriptionEntry>, id: u128, i: int, e: SubscriptionEntry)
    requires
        first_position(l, id, i),
        e == l[i],
    ensures
        first_position(l.update(i, SubscriptionEntry { active: false, ..e }), id, i),
        !l.update(i, SubscriptionEntry { active: false, ..e })[i].active,
{
}

/// A topic pattern as the trie keeps it matches exactly the topics the pattern matches:
/// so a subscription registered under a pattern is found for every topic the pattern
/// matches, and for no other.
pub proof fn law_stored_pattern_routes(p: Seq<Seq<u8>>, t: Seq<Seq<u8>>)
    ensures
        pattern_matches(stored_pattern(p), t) == pattern_matches(p, t),
{
    lemma_stored_pattern_matches(p, t);
}

/// A pattern without `>` matches only topics with exactly as many tokens as it has: a
/// `*` stands for exactly one token, and a literal for itself.
pub proof fn law_pattern_without_tail_matches_same_length(p: Seq<Seq<u8>>, t: Seq<Seq<u8>>)
    requires
        forall|i: int| 0 <= i < p.len() ==> p[i] != trailing_wildcard(),
        pattern_matches(p, t),
    ensures
        t.len() == p.len(),
    decreases p.len(),
{
    if p.len() > 0 {
        let p2 = p.drop_first();
        assert forall|i: int| 0 <= i < p2.len() implies p2[i] != trailing_wildcard() by {
            assert(p2[i] == p[i + 1]);
        }
        assert(p[0] != trailing_wildcard());
        law_pattern_without_tail_matches_same_length(p2, t.drop_first());
    }
}

/// A `*` in first place matches a topic exactly when the topic has a first token and the
/// rest of the pattern matches the rest of the topic, whatever that first token is.
pub proof fn law_single_wildcard_takes_one_token(p: Seq<Seq<u8>>, t: Seq<Seq<u8>>, other: Seq<u8>)
    requires
        p.len() >= 1,
        p[0] == single_wildcard(),
        t.len() >= 1,
    ensures
        pattern_matches(p, t) == pattern_matches(p.drop_first(), t.drop_first()),
        pattern_matches(p, t) == pattern_matches(p, t.update(0, other)),
{
    assert(single_wildcard() != trailing_wildcard()) by {
        assert(single_wildcard()[0] != trailing_wildcard()[0]);
    }
    assert(t.update(0, other).drop_first() =~= t.drop_first());
}

/// A pattern without wildcards matches exactly the topic equal to it.
pub proof fn law_literal_pattern_matches_itself(p: Seq<Seq<u8>>, t: Seq<Seq<u8>>)
    requires
        forall|i: int| 0 <= i < p.len() ==> p[i] != single_wildcard() && p[i] != trailing_wildcard(),
    ensures
        pattern_matches(p, t) <==> p == t,
    decreases p.len(),
{
    if p.len() == 0 {
        if t.len() == 0 {
            assert(p =~= t);
        }
    } else if t.len() == 0 {
        assert(p.len() != t.len());
    } else {
        let p2 = p.drop_first();
        let t2 = t.drop_first();
        assert forall|i: int| 0 <= i < p2.len() implies p2[i] != single_wildcard() && p2[i] != trailing_wildcard() by {
            assert(p2[i] == p[i + 1]);
        }
        assert(p[0] != single_wildcard() && p[0] != trailing_wildcard());
        law_literal_pattern_matches_itself(p2, t2);
        assert(pattern_matches(p, t) == (p[0] == t[0] && pattern_matches(p2, t2)));
        if p[0] == t[0] && p2 == t2 {
            assert(p =~= t) by {
                assert forall|i: int| 0 <= i < p.len() implies p[i] == t[i] by {
                    if i > 0 {
                        assert(p[i] == p2[i - 1]);
                        assert(t[i] == t2[i - 1]);
                    }
                }
            }
        }
        if p == t {
            assert(p2 == t2);
        }
    }
}

/// A trailing `>` matches every topic that begins as the pattern does and has at least one
/// token more.
pub proof fn law_trailing_wildcard_matches_rest(p: Seq<Seq<u8>>, t: Seq<Seq<u8>>)
    requires
        p.len() >= 1,
        p.last() == trailing_wildcard(),
        forall|i: int| 0 <= i < p.len() - 1 ==> p[i] != single_wildcard() && p[i] != trailing_wildcard(),
        t.len() >= p.len(),
        t.take(p.len() - 1) == p.drop_last(),
    ensures
        pattern_matches(p, t),
    decreases p.len(),
{
    if p.len() > 1 {
        assert(p[0] == t.take(p.len() - 1)[0]);
        let p2 = p.drop_first();
        let t2 = t.drop_first();
        assert(p2.last() == p.last());
        assert(t2.take(p2.len() - 1) =~= p2.drop_last()) by {
            assert forall|i: int| 0 <= i < p2.len() - 1 implies t2.take(p2.len() - 1)[i] == p2.drop_last()[i] by {
                assert(t.take(p.len() - 1)[i + 1] == p.drop_last()[i + 1]);
            }
        }
        law_trailing_wildcard_matches_rest(p2, t2);
    }
}

/// Registering a subscription under a pattern adds it to the subscriptions found for
/// exactly the topics the pattern matches, and changes nothing else.
pub proof fn law_topic_subscribe_routes(before: TopicTrie, after: TopicTrie, p: Seq<Seq<u8>>, id: u128, t: Seq<Seq<u8>>)
    requires
        after@ == before@.insert((stored_pattern(p), id)),
    ensures
        after.matching(t) == (if pattern_matches(p, t) {
            before.matching(t).insert(id)
        } else {
            before.matching(t)
        }),
{
    lemma_stored_pattern_matches(p, t);
    assert forall|x: u128| after.matching(t).contains(x) <==> (if pattern_matches(p, t) {
        before.matching(t).insert(id)
    } else {
        before.matching(t)
    }).contains(x) by {
        if after.matching(t).contains(x) {
            let q = choose|q: Seq<Seq<u8>>| #[trigger] after@.contains((q, x)) && pattern_matches(q, t);
            if !before@.contains((q, x)) {
                assert(q == stored_pattern(p) && x == id);
            }
        }
        if pattern_matches(p, t) && x == id {
            assert(after@.contains((stored_pattern(p), id)));
        }
        if before.matching(t).contains(x) {
            let q = choose|q: Seq<Seq<u8>>| #[trigger] before@.contains((q, x)) && pattern_matches(q, t);
            assert(after@.contains((q, x)));
        }
    }
    assert(after.matching(t) =~= (if pattern_matches(p, t) {
        before.matching(t).insert(id)
    } else {
        before.matching(t)
    }));
}

/// Removing a subscription's registrations means no topic finds it any more, and every
/// other subscription is found as before.
pub proof fn law_topic_unsubscribe_routes(before: TopicTrie, after: TopicTrie, id: u128, t: Seq<Seq<u8>>)
    requires
        after@ == Set::new(|e: (Seq<Seq<u8>>, u128)| before@.contains(e) && e.1 != id),
    ensures
        after.matching(t) == before.matching(t).remove(id),
{
    assert forall|x: u128| after.matching(t).contains(x) <==> before.matching(t).remove(id).contains(x) by {
        if after.matching(t).contains(x) {
            let q = choose|q: Seq<Seq<u8>>| #[trigger] after@.contains((q, x)) && pattern_matches(q, t);
            assert(before@.contains((q, x)));
        }
        if before.matching(t).remove(id).contains(x) {
            let q = choose|q: Seq<Seq<u8>>| #[trigger] before@.contains((q, x)) && pattern_matches(q, t);
            assert(after@.contains((q, x)));
        }
    }
    assert(after.matching(t) =~= before.matching(t).remove(id));
}

/// The event of the batch a worker step is about.
pub open spec fn action_event(a: WorkerAction) -> int {
    match a {
        WorkerAction::Acknowledge(i) => i as int,
        WorkerAction::Dispatch(i) => i as int,
    }
}

/// After a batch is on disk, the worker handles its events in batch order: it
/// acknowledges every one, dispatches exactly those not due later, and dispatches each
/// right after acknowledging it.
pub proof fn law_acknowledged_before_dispatched(due: Seq<bool>)
    requires
        due.len() <= usize::MAX,
    ensures
        forall|k: int| #![trigger stored_actions(due)[k]] 0 <= k < stored_actions(due).len()
            ==> 0 <= action_event(stored_actions(due)[k]) < due.len(),
        forall|k: int| 0 <= k < stored_actions(due).len() && (#[trigger] stored_actions(due)[k]) is Dispatch
            ==> k > 0 && stored_actions(due)[k - 1] == WorkerAction::Acknowledge(
                stored_actions(due)[k]->Dispatch_0,
            ),
        forall|k1: int, k2: int| 0 <= k1 < k2 < stored_actions(due).len()
            ==> action_event(#[trigger] stored_actions(due)[k1]) <= action_event(#[trigger] stored_actions(due)[k2]),
        forall|i: int| 0 <= i < due.len() ==> #[trigger] stored_actions(due).contains(WorkerAction::Acknowledge(i as usize)),
        forall|i: int| 0 <= i < due.len() ==> (#[trigger] stored_actions(due).contains(WorkerAction::Dispatch(i as usize))
            <==> !due[i]),
{
    lemma_actions_in_order(due);
    lemma_dispatch_follows_ack(due);
    lemma_actions_cover(due);
}

/// The steps' events lie in the batch and come in batch order.
proof fn lemma_actions_in_order(due: Seq<bool>)
    requires
        due.len() <= usize::MAX,
    ensures
        forall|k: int| #![trigger stored_actions(due)[k]] 0 <= k < stored_actions(due).len()
            ==> 0 <= action_event(stored_actions(due)[k]) < due.len(),
        forall|k1: int, k2: int| 0 <= k1 < k2 < stored_actions(due).len()
            ==> action_event(#[trigger] stored_actions(due)[k1]) <= action_event(#[trigger] stored_actions(due)[k2]),
    decreases due.len(),
{
    if due.len() > 0 {
        let d = due.drop_last();
        lemma_actions_in_order(d);
        let b = stored_actions(d);
        let n = d.len() as int;
        let a = stored_actions(due);
        assert forall|k: int| 0 <= k < a.len() implies 0 <= action_event(#[trigger] a[k]) < due.len() by {
            if k < b.len() {
                assert(a[k] == b[k]);
            }
        }
        assert forall|k1: int, k2: int| 0 <= k1 < k2 < a.len() implies action_event(#[trigger] a[k1])
            <= action_event(#[trigger] a[k2]) by {
            if k2 < b.len() {
                assert(a[k1] == b[k1] && a[k2] == b[k2]);
            } else if k1 < b.len() {
                assert(a[k1] == b[k1]);
                assert(action_event(b[k1]) < n);
                assert(action_event(a[k2]) == n);
            } else {
                assert(action_event(a[k1]) == n);
                assert(action_event(a[k2]) == n);
            }
        }
    }
}

/// Each dispatch comes right after the acknowledgement of the same event.
proof fn lemma_dispatch_follows_ack(due: Seq<bool>)
    requires
        due.len() <= usize::MAX,
    ensures
        forall|k: int| 0 <= k < stored_actions(due).len() && (#[trigger] stored_actions(due)[k]) is Dispatch
            ==> k > 0 && stored_actions(due)[k - 1] == WorkerAction::Acknowledge(
                stored_actions(due)[k]->Dispatch_0,
            ),
    decreases due.len(),
{
    if due.len() > 0 {
        let d = due.drop_last();
        lemma_dispatch_follows_ack(d);
        let b = stored_actions(d);
        let n = d.len() as int;
        let a = stored_actions(due);
        let ack = WorkerAction::Acknowledge(n as usize);
        assert forall|k: int| 0 <= k < a.len() && (#[trigger] a[k]) is Dispatch implies k > 0 && a[k - 1]
            == WorkerAction::Acknowledge(a[k]->Dispatch_0) by {
            if k < b.len() {
                assert(a[k] == b[k]);
                assert(a[k - 1] == b[k - 1]);
            } else if k == b.len() {
                assert(a[k] == ack);
            } else {
                assert(a[k - 1] == ack);
            }
        }
    }
}

/// Every event is acknowledged, and exactly those not due later are dispatched.
proof fn lemma_actions_cover(due: Seq<bool>)
    requires
        due.len() <= usize::MAX,
    ensures
        forall|i: int| 0 <= i < due.len() ==> #[trigger] stored_actions(due).contains(WorkerAction::Acknowledge(i as usize)),
        forall|i: int| 0 <= i < due.len() ==> (#[trigger] stored_actions(due).contains(WorkerAction::Dispatch(i as usize))
            <==> !due[i]),
    decreases due.len(),
{
    if due.len() > 0 {
        let d = due.drop_last();
        lemma_actions_cover(d);
        lemma_actions_in_order(d);
        let b = stored_actions(d);
        let n = d.len() as int;
        let a = stored_actions(due);
        assert forall|i: int| 0 <= i < due.len() implies #[trigger] a.contains(WorkerAction::Acknowledge(i as usize)) by {
            if i < n {
                assert(b.contains(WorkerAction::Acknowledge(i as usize)));
                let k = choose|k: int| 0 <= k < b.len() && b[k] == WorkerAction::Acknowledge(i as usize);
                assert(a[k] == b[k]);
            } else {
                assert(a[b.len() as int] == WorkerAction::Acknowledge(n as usize));
            }
        }
        assert forall|i: int| 0 <= i < due.len() implies (#[trigger] a.contains(WorkerAction::Dispatch(i as usize))
            <==> !due[i]) by {
            if i < n {
                assert(d[i] == due[i]);
                if b.contains(WorkerAction::Dispatch(i as usize)) {
                    let k = choose|k: int| 0 <= k < b.len() && b[k] == WorkerAction::Dispatch(i as usize);
                    assert(a[k] == b[k]);
                }
                if a.contains(WorkerAction::Dispatch(i as usize)) {
                    let k = choose|k: int| 0 <= k < a.len() && a[k] == WorkerAction::Dispatch(i as usize);
                    if k < b.len() {
                        assert(a[k] == b[k]);
                    } else {
                        assert(action_event(a[k]) == n);
                    }
                }
            } else {
                if !due.last() {
                    assert(a[b.len() as int + 1] == WorkerAction::Dispatch(n as usize));
                }
                if a.contains(WorkerAction::Dispatch(i as usize)) {
                    let k = choose|k: int| 0 <= k < a.len() && a[k] == WorkerAction::Dispatch(i as usize);
                    if k < b.len() {
                        assert(a[k] == b[k]);
                        assert(action_event(b[k]) < n);
                    }
                }
            }
        }
    }
}

/// The trace an event belongs to: its correlation, or the event itself where it has none.
pub open spec fn trace_of(m: EventMetadata) -> u128 {
    match m.correlation_id {
        Some(c) => c,
        None => m.event_id,
    }
}

/// An event chained from another belongs to the same trace and names it as its cause; so
/// every event of a chain belongs to the trace of the chain's first event.
pub proof fn law_chain_keeps_trace(parent: EventMetadata, child: EventMetadata)
    requires
        child.causation_id == Some(parent.event_id),
        child.correlation_id == Some(trace_of(parent)),
    ensures
        trace_of(child) == trace_of(parent),
{
}

} // verus!
