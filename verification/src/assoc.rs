//! Association lists: sequences of key/value pairs with distinct keys, read as maps.
use vstd::prelude::*;

verus! {

/// The map that an association list denotes (later pairs win, though with
/// distinct keys there is nothing to win).
pub open spec fn assoc_map<K, V>(s: Seq<(K, V)>) -> Map<K, V>
    decreases s.len(),
{
    if s.len() == 0 {
        Map::empty()
    } else {
        assoc_map(s.drop_last()).insert(s.last().0, s.last().1)
    }
}

/// No key occurs twice.
pub open spec fn keys_distinct<K, V>(s: Seq<(K, V)>) -> bool {
    forall|i: int, j: int| 0 <= i < j < s.len() ==> #[trigger] s[i].0 != #[trigger] s[j].0
}

/// The keys of an association list, in order.
pub open spec fn assoc_keys<K, V>(s: Seq<(K, V)>) -> Seq<K> {
    s.map_values(|e: (K, V)| e.0)
}

/// Lookup in an association list with distinct keys.
pub proof fn lemma_assoc_lookup<K, V>(s: Seq<(K, V)>)
    requires
        keys_distinct(s),
    ensures
        forall|k: K| #[trigger]
            assoc_map(s).contains_key(k) <==> exists|i: int| 0 <= i < s.len() && s[i].0 == k,
        forall|i: int| 0 <= i < s.len() ==> #[trigger] assoc_map(s)[s[i].0] == s[i].1,
        assoc_map(s).dom().finite(),
        assoc_map(s).dom().len() == s.len(),
    decreases s.len(),
{
    if s.len() > 0 {
        let t = s.drop_last();
        assert forall|i: int, j: int| 0 <= i < j < t.len() implies #[trigger] t[i].0
            != #[trigger] t[j].0 by {
            assert(t[i] == s[i] && t[j] == s[j]);
        }
        lemma_assoc_lookup(t);
        let last = s.last();
        assert(!assoc_map(t).contains_key(last.0)) by {
            if assoc_map(t).contains_key(last.0) {
                let i = choose|i: int| 0 <= i < t.len() && t[i].0 == last.0;
                assert(s[i].0 == s[s.len() - 1].0);
            }
        }
        assert forall|k: K| #[trigger]
            assoc_map(s).contains_key(k) <==> exists|i: int| 0 <= i < s.len() && s[i].0 == k by {
            if assoc_map(t).contains_key(k) {
                let i = choose|i: int| 0 <= i < t.len() && t[i].0 == k;
                assert(s[i].0 == k);
            }
            if exists|i: int| 0 <= i < s.len() && s[i].0 == k {
                let i = choose|i: int| 0 <= i < s.len() && s[i].0 == k;
                if i < t.len() {
                    assert(t[i].0 == k);
                }
            }
        }
        assert forall|i: int| 0 <= i < s.len() implies #[trigger] assoc_map(s)[s[i].0] == s[i].1 by {
            if i < t.len() {
                assert(t[i] == s[i]);
                assert(assoc_map(t)[t[i].0] == t[i].1);
            }
        }
    }
}

/// Appending a pair with a fresh key inserts it into the map.
pub proof fn lemma_assoc_push<K, V>(s: Seq<(K, V)>, k: K, v: V)
    ensures
        assoc_map(s.push((k, v))) == assoc_map(s).insert(k, v),
        keys_distinct(s) && !assoc_map(s).contains_key(k) ==> keys_distinct(s.push((k, v))),
{
    assert(s.push((k, v)).drop_last() =~= s);
    if keys_distinct(s) && !assoc_map(s).contains_key(k) {
        lemma_assoc_lookup(s);
        let u = s.push((k, v));
        assert forall|i: int, j: int| 0 <= i < j < u.len() implies #[trigger] u[i].0
            != #[trigger] u[j].0 by {
            if j == s.len() {
                assert(u[i] == s[i]);
            } else {
                assert(u[i] == s[i] && u[j] == s[j]);
            }
        }
    }
}

/// Replacing the value at position `i` replaces the value of that key.
pub proof fn lemma_assoc_update<K, V>(s: Seq<(K, V)>, i: int, v: V)
    requires
        keys_distinct(s),
        0 <= i < s.len(),
    ensures
        assoc_map(s.update(i, (s[i].0, v))) == assoc_map(s).insert(s[i].0, v),
        keys_distinct(s.update(i, (s[i].0, v))),
{
    let u = s.update(i, (s[i].0, v));
    assert forall|a: int, b: int| 0 <= a < b < u.len() implies #[trigger] u[a].0
        != #[trigger] u[b].0 by {
        assert(u[a].0 == s[a].0 && u[b].0 == s[b].0);
    }
    lemma_assoc_lookup(s);
    lemma_assoc_lookup(u);
    assert(assoc_map(u) =~= assoc_map(s).insert(s[i].0, v)) by {
        assert forall|k: K| #[trigger] assoc_map(u).contains_key(k) <==> assoc_map(s).insert(
            s[i].0,
            v,
        ).contains_key(k) by {
            if exists|j: int| 0 <= j < u.len() && u[j].0 == k {
                let j = choose|j: int| 0 <= j < u.len() && u[j].0 == k;
                assert(s[j].0 == k);
            }
            if exists|j: int| 0 <= j < s.len() && s[j].0 == k {
                let j = choose|j: int| 0 <= j < s.len() && s[j].0 == k;
                assert(u[j].0 == k);
            }
        }
        assert forall|k: K| #[trigger] assoc_map(u).contains_key(k) implies assoc_map(u)[k]
            == assoc_map(s).insert(s[i].0, v)[k] by {
            let j = choose|j: int| 0 <= j < u.len() && u[j].0 == k;
            assert(assoc_map(u)[u[j].0] == u[j].1);
            if j != i {
                assert(assoc_map(s)[s[j].0] == s[j].1);
            }
        }
    }
}

} // verus!
