//! Calls into `uuid`, `chrono`, `num_cpus`, `fxhash`, `serde_json`, `dashmap` and std, each with the
//! contract that the library relies on. None of these contracts is proved here.
use vstd::prelude::*;
use std::any::TypeId;
use crate::registry::{SubscriptionEntry, copy_entries};
use vstd::arithmetic::power2::pow2;

verus! {

/// The decimal digit `d` as a character.
pub open spec fn digit_char(d: int) -> char {
    (48 + d) as char
}

/// The decimal text of a natural number, without sign or leading zeros.
pub open spec fn decimal_text(n: nat) -> Seq<char>
    decreases n,
{
    if n < 10 {
        seq![digit_char(n as int)]
    } else {
        decimal_text(n / 10).push(digit_char((n % 10) as int))
    }
}

/// The lowercase hexadecimal digit `d` as a character.
pub open spec fn hex_char(d: int) -> char {
    if d < 10 {
        (48 + d) as char
    } else {
        (87 + d) as char
    }
}

/// The `i`-th hexadecimal digit of a 128-bit value, counted from the most significant.
pub open spec fn nibble(v: u128, i: int) -> int {
    (v as int / pow2((4 * (31 - i)) as nat) as int) % 16
}

/// The hyphenated lowercase text of a UUID: 8-4-4-4-12 hexadecimal digits.
pub open spec fn uuid_text(v: u128) -> Seq<char> {
    Seq::new(
        36,
        |k: int|
            if k == 8 || k == 13 || k == 18 || k == 23 {
                '-'
            } else {
                hex_char(
                    nibble(
                        v,
                        k - (if k < 8 {
                            0int
                        } else if k < 13 {
                            1int
                        } else if k < 18 {
                            2int
                        } else if k < 23 {
                            3int
                        } else {
                            4int
                        }),
                    ),
                )
            },
    )
}

/// The text `chrono` gives a UTC instant, `ms` milliseconds after the Unix epoch
/// (`None` where the instant is out of `chrono`'s range).
pub uninterp spec fn utc_instant_text(ms: i64) -> Option<Seq<char>>;

/// `std::any::TypeId`: an opaque identifier of a Rust type.
#[verifier::external_type_specification]
#[verifier::external_body]
pub struct ExTypeId(std::any::TypeId);

/// `Clone` for `std::any::TypeId`, a `Copy` type: the clone is the same identifier.
pub assume_specification[ <std::any::TypeId as Clone>::clone ](t: &std::any::TypeId) -> (r: std::any::TypeId)
    ensures
        r == *t,
;

/// `std::any::TypeId::of::<T>()`, the identifier of the type `T`. Nothing is stated of it:
/// std documents only that it identifies the type.
#[verifier::external_body]
pub(crate) fn type_id_of<T: ?Sized + 'static>() -> std::any::TypeId {
    std::any::TypeId::of::<T>()
}

/// `==` on `std::any::TypeId`: two identifiers compare equal exactly when they are the same
/// identifier.
#[verifier::external_body]
pub(crate) fn type_ids_equal(a: &std::any::TypeId, b: &std::any::TypeId) -> (r: bool)
    ensures
        r == (*a == *b),
{
    *a == *b
}

/// A member value of a decoded JSON object, by its view.
pub enum JsonValueView {
    /// `null`.
    Null,
    /// `true` or `false`.
    Bool(bool),
    /// A number that is a 64-bit unsigned integer.
    Unsigned(u64),
    /// Any other number.
    OtherNumber,
    /// A string.
    Text(Seq<char>),
    /// An array or an object.
    Compound,
}

/// A member value of a decoded JSON object.
#[derive(Debug, Clone)]
pub enum JsonValue {
    /// `null`.
    Null,
    /// `true` or `false`.
    Bool(bool),
    /// A number that is a 64-bit unsigned integer.
    Unsigned(u64),
    /// Any other number.
    OtherNumber,
    /// A string.
    Text(String),
    /// An array or an object.
    Compound,
}

/// The view of a member value.
pub open spec fn json_value_view(v: JsonValue) -> JsonValueView {
    match v {
        JsonValue::Null => JsonValueView::Null,
        JsonValue::Bool(b) => JsonValueView::Bool(b),
        JsonValue::Unsigned(n) => JsonValueView::Unsigned(n),
        JsonValue::OtherNumber => JsonValueView::OtherNumber,
        JsonValue::Text(t) => JsonValueView::Text(t@),
        JsonValue::Compound => JsonValueView::Compound,
    }
}

/// The views of the members of a decoded JSON object.
pub open spec fn json_member_views(v: Seq<(String, JsonValue)>) -> Seq<(Seq<char>, JsonValueView)> {
    v.map_values(|e: (String, JsonValue)| (e.0@, json_value_view(e.1)))
}

/// The JSON text `serde_json` writes for the string `s`, as bytes: the string in double
/// quotes, with the characters JSON requires escaped.
pub uninterp spec fn json_string_encoding(s: Seq<char>) -> Seq<u8>;

/// The members of the JSON object that `b` encodes, in `serde_json`'s order of keys
/// (`None` where `b` is no JSON object).
pub uninterp spec fn json_object_members(b: Seq<u8>) -> Option<Seq<(Seq<char>, JsonValueView)>>;

/// The items of the JSON array that `b` encodes, in order (`None` where `b` is no JSON
/// array).
pub uninterp spec fn json_array_values(b: Seq<u8>) -> Option<Seq<JsonValueView>>;

/// `serde_json::from_slice` into a `Vec` of `serde_json::Value`: the items of the array
/// that `b` encodes, each told apart by its kind as `json_object_entries` tells member
/// values apart; `None` where `b` is not a JSON array.
#[verifier::external_body]
pub(crate) fn json_array_items(b: &[u8]) -> (r: Option<Vec<JsonValue>>)
    ensures
        match r {
            Some(v) => json_array_values(b@) == Some(v@.map_values(|x: JsonValue| json_value_view(x))),
            None => json_array_values(b@) is None,
        },
{
    match serde_json::from_slice::<Vec<serde_json::Value>>(b) {
        Ok(items) => Some(items.into_iter().map(|v| match v {
            serde_json::Value::Null => JsonValue::Null,
            serde_json::Value::Bool(x) => JsonValue::Bool(x),
            serde_json::Value::Number(n) => match n.as_u64() {
                Some(u) => JsonValue::Unsigned(u),
                None => JsonValue::OtherNumber,
            },
            serde_json::Value::String(t) => JsonValue::Text(t),
            serde_json::Value::Array(_) => JsonValue::Compound,
            serde_json::Value::Object(_) => JsonValue::Compound,
        }).collect()),
        Err(_) => None,
    }
}

/// `serde_json::to_vec` of a string slice. Writing a string into a byte vector does not fail;
/// the result is the string's JSON encoding.
#[verifier::external_body]
pub(crate) fn json_string_bytes(s: &str) -> (r: Vec<u8>)
    ensures
        r@ == json_string_encoding(s@),
{
    match serde_json::to_vec(s) {
        Ok(b) => b,
        Err(_) => Vec::new(),
    }
}

/// `serde_json::from_slice` into a `serde_json::Map`: the members of the object that `b`
/// encodes, each value told apart by its kind (a number by whether `as_u64` reads it);
/// `None` where `b` is not a JSON object.
#[verifier::external_body]
pub(crate) fn json_object_entries(b: &[u8]) -> (r: Option<Vec<(String, JsonValue)>>)
    ensures
        match r {
            Some(v) => json_object_members(b@) == Some(json_member_views(v@)),
            None => json_object_members(b@) is None,
        },
{
    match serde_json::from_slice::<serde_json::Map<String, serde_json::Value>>(b) {
        Ok(m) => Some(m.into_iter().map(|(k, v)| (k, match v {
            serde_json::Value::Null => JsonValue::Null,
            serde_json::Value::Bool(x) => JsonValue::Bool(x),
            serde_json::Value::Number(n) => match n.as_u64() {
                Some(u) => JsonValue::Unsigned(u),
                None => JsonValue::OtherNumber,
            },
            serde_json::Value::String(t) => JsonValue::Text(t),
            serde_json::Value::Array(_) => JsonValue::Compound,
            serde_json::Value::Object(_) => JsonValue::Compound,
        })).collect()),
        Err(_) => None,
    }
}


/// A fresh random identifier, from `uuid::Uuid::new_v4` (as its 128-bit value).
/// The contract states only that the version bits are set, so the identifier is not nil;
/// which value comes out is chance.
#[verifier::external_body]
pub(crate) fn new_uuid() -> (id: u128)
    ensures
        id != 0,
{
    uuid::Uuid::new_v4().as_u128()
}

/// The current time as milliseconds after the Unix epoch, from `chrono::Utc::now`.
/// `chrono` panics where the system clock reads a time before the epoch; the contract
/// states only that the result is not negative.
#[verifier::external_body]
pub(crate) fn now_millis() -> (ms: i64)
    ensures
        ms >= 0,
{
    chrono::Utc::now().timestamp_millis()
}

/// The number of CPUs available to the process, from `num_cpus::get`, which documents
/// that it is always at least one.
#[verifier::external_body]
pub(crate) fn cpu_count() -> (n: usize)
    ensures
        n >= 1,
{
    num_cpus::get()
}

/// `fxhash::hash64` of the UUID whose value is `v`. Nothing is stated of the result:
/// `Uuid` hashes its sixteen bytes and FxHash reads them in the machine's byte order, so
/// the hash of one UUID differs between machines.
#[verifier::external_body]
pub(crate) fn fx_hash64(v: u128) -> u64 {
    fxhash::hash64(&uuid::Uuid::from_u128(v))
}

/// The decimal text of a `u64`, from std's `Display` for integers.
#[verifier::external_body]
pub(crate) fn u64_text(n: u64) -> (s: String)
    ensures
        s@ == decimal_text(n as nat),
{
    n.to_string()
}

/// The hyphenated text of a UUID, from `uuid`'s `Display`.
#[verifier::external_body]
pub(crate) fn uuid_string(v: u128) -> (s: String)
    ensures
        s@ == uuid_text(v),
{
    uuid::Uuid::from_u128(v).to_string()
}

/// The text of a UTC instant, from `chrono`'s `DateTime::from_timestamp_millis` and its
/// `Display`.
#[verifier::external_body]
pub(crate) fn utc_string(ms: i64) -> (s: Option<String>)
    ensures
        match s {
            Some(t) => utc_instant_text(ms) == Some(t@),
            None => utc_instant_text(ms) is None,
        },
{
    match chrono::DateTime::from_timestamp_millis(ms) {
        Some(t) => Some(t.to_string()),
        None => None,
    }
}


/// `dashmap::DashMap`: a concurrent hash map.
#[verifier::external_type_specification]
#[verifier::external_body]
#[verifier::reject_recursive_types(K)]
#[verifier::reject_recursive_types(V)]
#[verifier::reject_recursive_types(S)]
pub struct ExDashMap<K, V, S>(dashmap::DashMap<K, V, S>);

/// A concurrent map from event types to their subscriptions.
pub type ListMap = dashmap::DashMap<TypeId, Vec<SubscriptionEntry>>;

/// A concurrent map from subscription identifiers to event types.
pub type OwnerMap = dashmap::DashMap<u128, TypeId>;

/// What a map from event types to subscriptions holds, each list by its view.
pub uninterp spec fn list_entries(m: ListMap) -> Map<TypeId, Seq<SubscriptionEntry>>;

/// What a map from subscription identifiers to event types holds.
pub uninterp spec fn owner_entries(m: OwnerMap) -> Map<u128, TypeId>;

/// `dashmap::DashMap::new`: an empty map.
#[verifier::external_body]
pub(crate) fn lists_new() -> (r: ListMap)
    ensures
        list_entries(r).dom() == Set::<TypeId>::empty(),
{
    dashmap::DashMap::new()
}

/// `dashmap::DashMap::with_capacity`: an empty map with room for `capacity` entries.
#[verifier::external_body]
pub(crate) fn lists_with_capacity(capacity: usize) -> (r: ListMap)
    ensures
        list_entries(r).dom() == Set::<TypeId>::empty(),
{
    dashmap::DashMap::with_capacity(capacity)
}

/// `dashmap::DashMap::get`, the list found copied out by `copy_entries`: the list of `k`,
/// or `None` where `k` has none.
#[verifier::external_body]
pub(crate) fn lists_get(m: &ListMap, k: &TypeId) -> (r: Option<Vec<SubscriptionEntry>>)
    ensures
        match r {
            Some(v) => list_entries(*m).contains_key(*k) && v@ == list_entries(*m)[*k],
            None => !list_entries(*m).contains_key(*k),
        },
{
    m.get(k).map(|e| copy_entries(e.value()))
}

/// `dashmap::DashMap::insert`: `k` now holds `v`.
#[verifier::external_body]
pub(crate) fn lists_insert(m: &mut ListMap, k: TypeId, v: Vec<SubscriptionEntry>)
    ensures
        list_entries(*final(m)) == list_entries(*old(m)).insert(k, v@),
{
    m.insert(k, v);
}

/// `dashmap::DashMap::remove`: the list of `k` is taken out and handed back.
#[verifier::external_body]
pub(crate) fn lists_remove(m: &mut ListMap, k: &TypeId) -> (r: Option<Vec<SubscriptionEntry>>)
    ensures
        list_entries(*final(m)) == list_entries(*old(m)).remove(*k),
        match r {
            Some(v) => list_entries(*old(m)).contains_key(*k) && v@ == list_entries(*old(m))[*k],
            None => !list_entries(*old(m)).contains_key(*k),
        },
{
    m.remove(k).map(|(_, v)| v)
}

/// `dashmap::DashMap::iter`, each entry mapped to its key: every event type in the map
/// once, in the order the map's shards are walked.
#[verifier::external_body]
pub(crate) fn lists_keys(m: &ListMap) -> (r: Vec<TypeId>)
    ensures
        r@.no_duplicates(),
        r@.to_set() == list_entries(*m).dom(),
{
    m.iter().map(|e| *e.key()).collect()
}

/// `dashmap::DashMap::new`: an empty map.
#[verifier::external_body]
pub(crate) fn owners_new() -> (r: OwnerMap)
    ensures
        owner_entries(r).dom() == Set::<u128>::empty(),
{
    dashmap::DashMap::new()
}

/// `dashmap::DashMap::with_capacity`: an empty map with room for `capacity` entries.
#[verifier::external_body]
pub(crate) fn owners_with_capacity(capacity: usize) -> (r: OwnerMap)
    ensures
        owner_entries(r).dom() == Set::<u128>::empty(),
{
    dashmap::DashMap::with_capacity(capacity)
}

/// `dashmap::DashMap::get`: the event type of `k`, or `None` where `k` has none.
#[verifier::external_body]
pub(crate) fn owners_get(m: &OwnerMap, k: u128) -> (r: Option<TypeId>)
    ensures
        match r {
            Some(t) => owner_entries(*m).contains_key(k) && t == owner_entries(*m)[k],
            None => !owner_entries(*m).contains_key(k),
        },
{
    m.get(&k).map(|e| *e.value())
}

/// `dashmap::DashMap::insert`: `k` now maps to `t`.
#[verifier::external_body]
pub(crate) fn owners_insert(m: &mut OwnerMap, k: u128, t: TypeId)
    ensures
        owner_entries(*final(m)) == owner_entries(*old(m)).insert(k, t),
{
    m.insert(k, t);
}

/// `dashmap::DashMap::remove`: the event type of `k` is taken out and handed back.
#[verifier::external_body]
pub(crate) fn owners_remove(m: &mut OwnerMap, k: u128) -> (r: Option<TypeId>)
    ensures
        owner_entries(*final(m)) == owner_entries(*old(m)).remove(k),
        match r {
            Some(t) => owner_entries(*old(m)).contains_key(k) && t == owner_entries(*old(m))[k],
            None => !owner_entries(*old(m)).contains_key(k),
        },
{
    m.remove(&k).map(|(_, t)| t)
}

/// `dashmap::DashMap::len`: how many identifiers the map holds.
#[verifier::external_body]
pub(crate) fn owners_len(m: &OwnerMap) -> (r: usize)
    ensures
        r == owner_entries(*m).len(),
{
    m.len()
}

} // verus!
