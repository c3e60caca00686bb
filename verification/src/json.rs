//! JSON framing of the built-in event types: their objects are written member by member
//! and read back from the members `serde_json` decodes, or, where the bytes hold an array,
//! from its items in field order.
use vstd::prelude::*;
use vstd::string::StringExecFns;
use vstd::string::StringSliceAdditionalSpecFns;
use crate::error::Error;
use crate::foreign::{
    JsonValue, JsonValueView, decimal_text, digit_char, json_array_values, json_member_views, json_object_members,
    json_string_bytes, json_string_encoding, json_value_view,
};

verus! {

/// The bytes of an ASCII text.
pub open spec fn ascii_of(s: Seq<char>) -> Seq<u8> {
    s.map_values(|c: char| c as u8)
}

/// The value of member `key` of a decoded object (the last one, where the key repeats).
pub open spec fn member_value(entries: Seq<(Seq<char>, JsonValueView)>, key: Seq<char>) -> Option<JsonValueView>
    decreases entries.len(),
{
    if entries.len() == 0 {
        None
    } else if entries.last().0 == key {
        Some(entries.last().1)
    } else {
        member_value(entries.drop_last(), key)
    }
}

/// The bytes of an ASCII text.
pub fn ascii_bytes(s: &str) -> (r: Vec<u8>)
    requires
        vstd::string::is_ascii(s),
    ensures
        r@ == ascii_of(s@),
{
    let b = s.as_bytes();
    let mut r: Vec<u8> = Vec::new();
    let mut i: usize = 0;
    proof {
        vstd::string::is_ascii_spec_bytes(s);
        assert(s.spec_bytes() =~= ascii_of(s@));
    }
    while i < b.len()
        invariant
            i <= b@.len(),
            b@ == ascii_of(s@),
            r@ == b@.take(i as int),
        decreases b@.len() - i,
    {
        r.push(b[i]);
        assert(r@ =~= b@.take(i + 1));
        i += 1;
    }
    assert(r@ =~= b@);
    r
}

/// The decimal digits of `n`, as ASCII bytes.
pub fn decimal_bytes(n: u64) -> (r: Vec<u8>)
    ensures
        r@ == ascii_of(decimal_text(n as nat)),
    decreases n,
{
    let digit: u8 = (48 + n % 10) as u8;
    assert(digit == digit_char((n % 10) as int) as u8);
    if n < 10 {
        let mut r: Vec<u8> = Vec::new();
        r.push(digit);
        assert(r@ =~= ascii_of(decimal_text(n as nat)));
        r
    } else {
        let mut r = decimal_bytes(n / 10);
        r.push(digit);
        assert(decimal_text(n as nat) == decimal_text((n / 10) as nat).push(digit_char((n % 10) as int)));
        assert(r@ =~= ascii_of(decimal_text(n as nat)));
        r
    }
}

/// `true` or `false`, as ASCII bytes.
pub open spec fn bool_json(b: bool) -> Seq<u8> {
    if b {
        ascii_of("true"@)
    } else {
        ascii_of("false"@)
    }
}

/// `true` or `false`, as ASCII bytes.
pub fn bool_bytes(b: bool) -> (r: Vec<u8>)
    ensures
        r@ == bool_json(b),
{
    proof {
        reveal_strlit("true");
        reveal_strlit("false");
    }
    if b {
        ascii_bytes("true")
    } else {
        ascii_bytes("false")
    }
}

/// A string as JSON, or `null` where there is none.
pub open spec fn optional_text_json(s: Option<Seq<char>>) -> Seq<u8> {
    match s {
        Some(t) => json_string_encoding(t),
        None => ascii_of("null"@),
    }
}

/// A string as JSON, or `null` where there is none.
pub fn optional_text_bytes(s: &Option<String>) -> (r: Vec<u8>)
    ensures
        r@ == optional_text_json(match s {
            Some(t) => Some(t@),
            None => None,
        }),
{
    match s {
        Some(t) => json_string_bytes(t.as_str()),
        None => {
            proof {
                reveal_strlit("null");
            }
            ascii_bytes("null")
        },
    }
}

/// The value of member `key` among the decoded members `entries`.
pub fn find_member<'a>(entries: &'a Vec<(String, JsonValue)>, key: &str) -> (r: Option<&'a JsonValue>)
    ensures
        match member_value(json_member_views(entries@), key@) {
            Some(v) => r matches Some(x) && json_value_view(*x) == v,
            None => r is None,
        },
{
    let k = String::from_str(key);
    let mut i: usize = entries.len();
    assert(json_member_views(entries@).take(i as int) =~= json_member_views(entries@));
    while i > 0
        invariant
            i <= entries@.len(),
            k@ == key@,
            member_value(json_member_views(entries@), key@) == member_value(
                json_member_views(entries@).take(i as int),
                key@,
            ),
        decreases i,
    {
        let ghost pre = json_member_views(entries@).take(i as int);
        assert(pre.drop_last() == json_member_views(entries@).take(i - 1));
        assert(pre.last() == json_member_views(entries@)[i - 1]);
        assert(json_member_views(entries@)[i - 1] == (entries@[i - 1].0@, json_value_view(entries@[i - 1].1)));
        if entries[i - 1].0 == k {
            assert(member_value(pre, key@) == Some(pre.last().1));
            return Some(&entries[i - 1].1);
        }
        i -= 1;
    }
    assert(json_member_views(entries@).take(0) =~= Seq::<(Seq<char>, JsonValueView)>::empty());
    None
}

/// The error for a member that is missing.
pub fn missing_field(field: &str) -> (e: Error)
    ensures
        e matches Error::SerializationError(_),
{
    Error::SerializationError(String::from_str("missing field `").concat(field).concat("`"))
}

/// The error for a member of the wrong kind.
pub fn invalid_field(field: &str) -> (e: Error)
    ensures
        e matches Error::SerializationError(_),
{
    Error::SerializationError(String::from_str("invalid type for field `").concat(field).concat("`"))
}

/// The error for bytes that are neither a JSON object nor a JSON array.
pub fn not_an_object() -> (e: Error)
    ensures
        e matches Error::SerializationError(_),
{
    Error::SerializationError(String::from_str("expected a JSON object or array"))
}

/// The error for an array whose number of items is not the number of fields.
pub fn wrong_length() -> (e: Error)
    ensures
        e matches Error::SerializationError(_),
{
    Error::SerializationError(String::from_str("invalid length of the array of fields"))
}

/// The items of the array `b` encodes, where `b` is no JSON object.
pub open spec fn array_form(b: Seq<u8>) -> Option<Seq<JsonValueView>> {
    match json_object_members(b) {
        Some(_) => None,
        None => json_array_values(b),
    }
}

/// The number an item holds, where it is an unsigned integer.
pub open spec fn item_unsigned(v: JsonValueView) -> Option<u64> {
    match v {
        JsonValueView::Unsigned(n) => Some(n),
        _ => None,
    }
}

/// The text an item holds, where it is a string.
pub open spec fn item_text(v: JsonValueView) -> Option<Seq<char>> {
    match v {
        JsonValueView::Text(t) => Some(t),
        _ => None,
    }
}

/// The truth value an item holds, where it is a boolean.
pub open spec fn item_bool(v: JsonValueView) -> Option<bool> {
    match v {
        JsonValueView::Bool(b) => Some(b),
        _ => None,
    }
}

/// The optional text an item holds: `null` is no text; `None` where it is neither.
pub open spec fn item_optional_text(v: JsonValueView) -> Option<Option<Seq<char>>> {
    match v {
        JsonValueView::Null => Some(None),
        JsonValueView::Text(t) => Some(Some(t)),
        _ => None,
    }
}

/// Read an item as an unsigned integer for field `field`.
pub fn item_as_unsigned(v: &JsonValue, field: &str) -> (r: Result<u64, Error>)
    ensures
        match item_unsigned(json_value_view(*v)) {
            Some(n) => r == Ok::<u64, Error>(n),
            None => r matches Err(Error::SerializationError(_)),
        },
{
    match v {
        JsonValue::Unsigned(n) => Ok(*n),
        _ => Err(invalid_field(field)),
    }
}

/// Read an item as a string for field `field`.
pub fn item_as_text(v: &JsonValue, field: &str) -> (r: Result<String, Error>)
    ensures
        match item_text(json_value_view(*v)) {
            Some(t) => r matches Ok(s) && s@ == t,
            None => r matches Err(Error::SerializationError(_)),
        },
{
    match v {
        JsonValue::Text(t) => Ok(t.clone()),
        _ => Err(invalid_field(field)),
    }
}

/// Read an item as a boolean for field `field`.
pub fn item_as_bool(v: &JsonValue, field: &str) -> (r: Result<bool, Error>)
    ensures
        match item_bool(json_value_view(*v)) {
            Some(b) => r == Ok::<bool, Error>(b),
            None => r matches Err(Error::SerializationError(_)),
        },
{
    match v {
        JsonValue::Bool(b) => Ok(*b),
        _ => Err(invalid_field(field)),
    }
}

/// Read an item as an optional string for field `field`.
pub fn item_as_optional_text(v: &JsonValue, field: &str) -> (r: Result<Option<String>, Error>)
    ensures
        match item_optional_text(json_value_view(*v)) {
            Some(None) => r matches Ok(None),
            Some(Some(t)) => r matches Ok(Some(s)) && s@ == t,
            None => r matches Err(Error::SerializationError(_)),
        },
{
    match v {
        JsonValue::Null => Ok(None),
        JsonValue::Text(t) => Ok(Some(t.clone())),
        _ => Err(invalid_field(field)),
    }
}

} // verus!
