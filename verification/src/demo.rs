//! The events the demo services exchange: a profile request and its response over the
//! network, and a locally scheduled survey e-mail. They are encoded as JSON objects with
//! one member per field, and read back from such objects or from arrays of the fields in
//! order.
use vstd::prelude::*;
use crate::error::Error;
use crate::event::{Event, Remote};
use crate::foreign::{
    JsonValue, JsonValueView, decimal_text, json_array_items, json_object_entries, json_object_members, json_string_bytes,
    json_string_encoding,
};
use crate::json::{
    array_form, ascii_bytes, ascii_of, bool_bytes, bool_json, decimal_bytes, find_member, invalid_field, item_as_bool,
    item_as_optional_text, item_as_text, item_as_unsigned, item_bool, item_optional_text, item_text, item_unsigned,
    member_value, missing_field, not_an_object, optional_text_bytes, optional_text_json, wrong_length,
};

verus! {

/// A request for a user's profile.
#[derive(Debug, Clone)]
pub struct GetProfileRequest {
    /// The user.
    pub user_id: u64,
}

/// The profile asked for.
#[derive(Debug, Clone)]
pub struct GetProfileResponse {
    /// The user's name.
    pub name: String,
    /// Whether the user is a VIP.
    pub is_vip: bool,
    /// Why the profile could not be fetched, if it could not.
    pub error_msg: Option<String>,
}

/// A survey e-mail to send after an order.
#[derive(Debug, Clone)]
pub struct SendSurveyEmail {
    /// The order.
    pub order_id: String,
    /// The user.
    pub user_id: u64,
}

/// `{"user_id":n}`.
pub open spec fn profile_request_json(user_id: u64) -> Seq<u8> {
    ascii_of("{\"user_id\":"@) + ascii_of(decimal_text(user_id as nat)) + ascii_of("}"@)
}

/// `{"name":…,"is_vip":…,"error_msg":…}`.
pub open spec fn profile_response_json(name: Seq<char>, is_vip: bool, error_msg: Option<Seq<char>>) -> Seq<u8> {
    ascii_of("{\"name\":"@) + json_string_encoding(name) + ascii_of(",\"is_vip\":"@) + bool_json(is_vip)
        + ascii_of(",\"error_msg\":"@) + optional_text_json(error_msg) + ascii_of("}"@)
}

/// `{"order_id":…,"user_id":n}`.
pub open spec fn survey_email_json(order_id: Seq<char>, user_id: u64) -> Seq<u8> {
    ascii_of("{\"order_id\":"@) + json_string_encoding(order_id) + ascii_of(",\"user_id\":"@) + ascii_of(
        decimal_text(user_id as nat),
    ) + ascii_of("}"@)
}

/// The unsigned member `key` of the object `bytes` encodes.
pub open spec fn unsigned_member(bytes: Seq<u8>, key: Seq<char>) -> Option<u64> {
    match json_object_members(bytes) {
        Some(m) => match member_value(m, key) {
            Some(JsonValueView::Unsigned(n)) => Some(n),
            _ => None,
        },
        None => None,
    }
}

/// The string member `key` of the object `bytes` encodes.
pub open spec fn text_member(bytes: Seq<u8>, key: Seq<char>) -> Option<Seq<char>> {
    match json_object_members(bytes) {
        Some(m) => match member_value(m, key) {
            Some(JsonValueView::Text(t)) => Some(t),
            _ => None,
        },
        None => None,
    }
}

/// The boolean member `key` of the object `bytes` encodes.
pub open spec fn bool_member(bytes: Seq<u8>, key: Seq<char>) -> Option<bool> {
    match json_object_members(bytes) {
        Some(m) => match member_value(m, key) {
            Some(JsonValueView::Bool(b)) => Some(b),
            _ => None,
        },
        None => None,
    }
}

/// The optional string member `key` of the object `bytes` encodes: absent or `null` is
/// no string; `None` where it holds anything else.
pub open spec fn optional_text_member(bytes: Seq<u8>, key: Seq<char>) -> Option<Option<Seq<char>>> {
    match json_object_members(bytes) {
        Some(m) => match member_value(m, key) {
            None => Some(None),
            Some(JsonValueView::Null) => Some(None),
            Some(JsonValueView::Text(t)) => Some(Some(t)),
            _ => None,
        },
        None => None,
    }
}

/// The user a profile request decodes to: the object's `user_id`, or the one item of an
/// array.
pub open spec fn profile_request_fields(b: Seq<u8>) -> Option<u64> {
    match array_form(b) {
        Some(a) => if a.len() == 1 {
            item_unsigned(a[0])
        } else {
            None
        },
        None => unsigned_member(b, "user_id"@),
    }
}

/// The name, VIP flag and error a profile response decodes to: the object's members, or
/// the three items of an array in field order.
pub open spec fn profile_response_fields(b: Seq<u8>) -> Option<(Seq<char>, bool, Option<Seq<char>>)> {
    match array_form(b) {
        Some(a) => if a.len() == 3 {
            match (item_text(a[0]), item_bool(a[1]), item_optional_text(a[2])) {
                (Some(n), Some(v), Some(m)) => Some((n, v, m)),
                _ => None,
            }
        } else {
            None
        },
        None => match (text_member(b, "name"@), bool_member(b, "is_vip"@), optional_text_member(b, "error_msg"@)) {
            (Some(n), Some(v), Some(m)) => Some((n, v, m)),
            _ => None,
        },
    }
}

/// The order and user a survey e-mail decodes to: the object's members, or the two items
/// of an array in field order.
pub open spec fn survey_email_fields(b: Seq<u8>) -> Option<(Seq<char>, u64)> {
    match array_form(b) {
        Some(a) => if a.len() == 2 {
            match (item_text(a[0]), item_unsigned(a[1])) {
                (Some(o), Some(u)) => Some((o, u)),
                _ => None,
            }
        } else {
            None
        },
        None => match (text_member(b, "order_id"@), unsigned_member(b, "user_id"@)) {
            (Some(o), Some(u)) => Some((o, u)),
            _ => None,
        },
    }
}

/// Read an unsigned member.
fn read_unsigned(entries: &Vec<(String, JsonValue)>, key: &str) -> (r: Result<u64, Error>)
    ensures
        match member_value(crate::foreign::json_member_views(entries@), key@) {
            Some(JsonValueView::Unsigned(n)) => r == Ok::<u64, Error>(n),
            _ => r matches Err(Error::SerializationError(_)),
        },
{
    match find_member(entries, key) {
        Some(JsonValue::Unsigned(n)) => Ok(*n),
        Some(_) => Err(invalid_field(key)),
        None => Err(missing_field(key)),
    }
}

/// Read a string member.
fn read_text(entries: &Vec<(String, JsonValue)>, key: &str) -> (r: Result<String, Error>)
    ensures
        match member_value(crate::foreign::json_member_views(entries@), key@) {
            Some(JsonValueView::Text(t)) => r matches Ok(s) && s@ == t,
            _ => r matches Err(Error::SerializationError(_)),
        },
{
    match find_member(entries, key) {
        Some(JsonValue::Text(t)) => Ok(t.clone()),
        Some(_) => Err(invalid_field(key)),
        None => Err(missing_field(key)),
    }
}

/// Read a boolean member.
fn read_bool(entries: &Vec<(String, JsonValue)>, key: &str) -> (r: Result<bool, Error>)
    ensures
        match member_value(crate::foreign::json_member_views(entries@), key@) {
            Some(JsonValueView::Bool(b)) => r == Ok::<bool, Error>(b),
            _ => r matches Err(Error::SerializationError(_)),
        },
{
    match find_member(entries, key) {
        Some(JsonValue::Bool(b)) => Ok(*b),
        Some(_) => Err(invalid_field(key)),
        None => Err(missing_field(key)),
    }
}

/// Read an optional string member.
fn read_optional_text(entries: &Vec<(String, JsonValue)>, key: &str) -> (r: Result<Option<String>, Error>)
    ensures
        match member_value(crate::foreign::json_member_views(entries@), key@) {
            None => r matches Ok(None),
            Some(JsonValueView::Null) => r matches Ok(None),
            Some(JsonValueView::Text(t)) => r matches Ok(Some(s)) && s@ == t,
            _ => r matches Err(Error::SerializationError(_)),
        },
{
    match find_member(entries, key) {
        None => Ok(None),
        Some(JsonValue::Null) => Ok(None),
        Some(JsonValue::Text(t)) => Ok(Some(t.clone())),
        Some(_) => Err(invalid_field(key)),
    }
}

impl Event for GetProfileRequest {
    fn event_type() -> (r: &'static str)
        ensures
            r@ == "demo_shared::GetProfileRequest"@,
    {
        "demo_shared::GetProfileRequest"
    }

    fn serialize_event(&self) -> (r: Result<Vec<u8>, Error>)
        ensures
            r matches Ok(b) && b@ == profile_request_json(self.user_id),
    {
        proof {
            reveal_strlit("{\"user_id\":");
            reveal_strlit("}");
        }
        let mut out = ascii_bytes("{\"user_id\":");
        let mut digits = decimal_bytes(self.user_id);
        out.append(&mut digits);
        let mut tail = ascii_bytes("}");
        out.append(&mut tail);
        Ok(out)
    }

    fn deserialize_event(bytes: &[u8]) -> (r: Result<GetProfileRequest, Error>)
        ensures
            match profile_request_fields(bytes@) {
                Some(n) => r matches Ok(e) && e.user_id == n,
                None => r matches Err(Error::SerializationError(_)),
            },
    {
        match json_object_entries(bytes) {
            Some(entries) => match read_unsigned(&entries, "user_id") {
                Ok(n) => Ok(GetProfileRequest { user_id: n }),
                Err(e) => Err(e),
            },
            None => match json_array_items(bytes) {
                Some(items) => if items.len() == 1 {
                    match item_as_unsigned(&items[0], "user_id") {
                        Ok(n) => Ok(GetProfileRequest { user_id: n }),
                        Err(e) => Err(e),
                    }
                } else {
                    Err(wrong_length())
                },
                None => Err(not_an_object()),
            },
        }
    }
}

impl Remote for GetProfileRequest {
    fn remote_topic() -> (r: &'static str)
        ensures
            r@ == "v2.users.profile.request"@,
    {
        "v2.users.profile.request"
    }
}

impl Event for GetProfileResponse {
    fn event_type() -> (r: &'static str)
        ensures
            r@ == "demo_shared::GetProfileResponse"@,
    {
        "demo_shared::GetProfileResponse"
    }

    fn serialize_event(&self) -> (r: Result<Vec<u8>, Error>)
        ensures
            r matches Ok(b) && b@ == profile_response_json(self.name@, self.is_vip, match self.error_msg {
                Some(t) => Some(t@),
                None => None,
            }),
    {
        proof {
            reveal_strlit("{\"name\":");
            reveal_strlit(",\"is_vip\":");
            reveal_strlit(",\"error_msg\":");
            reveal_strlit("}");
        }
        let mut out = ascii_bytes("{\"name\":");
        let mut name = json_string_bytes(self.name.as_str());
        out.append(&mut name);
        let mut sep1 = ascii_bytes(",\"is_vip\":");
        out.append(&mut sep1);
        let mut vip = bool_bytes(self.is_vip);
        out.append(&mut vip);
        let mut sep2 = ascii_bytes(",\"error_msg\":");
        out.append(&mut sep2);
        let mut err = optional_text_bytes(&self.error_msg);
        out.append(&mut err);
        let mut tail = ascii_bytes("}");
        out.append(&mut tail);
        Ok(out)
    }

    fn deserialize_event(bytes: &[u8]) -> (r: Result<GetProfileResponse, Error>)
        ensures
            match profile_response_fields(bytes@) {
                Some((n, v, m)) => r matches Ok(e) && e.name@ == n && e.is_vip == v && match e.error_msg {
                    Some(t) => m == Some(t@),
                    None => m is None,
                },
                None => r matches Err(Error::SerializationError(_)),
            },
    {
        match json_object_entries(bytes) {
            Some(entries) => {
                let name = match read_text(&entries, "name") {
                    Ok(n) => n,
                    Err(e) => {
                        return Err(e);
                    },
                };
                let is_vip = match read_bool(&entries, "is_vip") {
                    Ok(b) => b,
                    Err(e) => {
                        return Err(e);
                    },
                };
                let error_msg = match read_optional_text(&entries, "error_msg") {
                    Ok(m) => m,
                    Err(e) => {
                        return Err(e);
                    },
                };
                Ok(GetProfileResponse { name, is_vip, error_msg })
            },
            None => match json_array_items(bytes) {
                Some(items) => {
                    if items.len() != 3 {
                        return Err(wrong_length());
                    }
                    let name = match item_as_text(&items[0], "name") {
                        Ok(n) => n,
                        Err(e) => {
                            return Err(e);
                        },
                    };
                    let is_vip = match item_as_bool(&items[1], "is_vip") {
                        Ok(b) => b,
                        Err(e) => {
                            return Err(e);
                        },
                    };
                    let error_msg = match item_as_optional_text(&items[2], "error_msg") {
                        Ok(m) => m,
                        Err(e) => {
                            return Err(e);
                        },
                    };
                    Ok(GetProfileResponse { name, is_vip, error_msg })
                },
                None => Err(not_an_object()),
            },
        }
    }
}

impl Remote for GetProfileResponse {
    fn remote_topic() -> (r: &'static str)
        ensures
            r@ == "v2.users.profile.response"@,
    {
        "v2.users.profile.response"
    }
}

impl Event for SendSurveyEmail {
    fn event_type() -> (r: &'static str)
        ensures
            r@ == "demo_shared::SendSurveyEmail"@,
    {
        "demo_shared::SendSurveyEmail"
    }

    fn serialize_event(&self) -> (r: Result<Vec<u8>, Error>)
        ensures
            r matches Ok(b) && b@ == survey_email_json(self.order_id@, self.user_id),
    {
        proof {
            reveal_strlit("{\"order_id\":");
            reveal_strlit(",\"user_id\":");
            reveal_strlit("}");
        }
        let mut out = ascii_bytes("{\"order_id\":");
        let mut order = json_string_bytes(self.order_id.as_str());
        out.append(&mut order);
        let mut sep = ascii_bytes(",\"user_id\":");
        out.append(&mut sep);
        let mut digits = decimal_bytes(self.user_id);
        out.append(&mut digits);
        let mut tail = ascii_bytes("}");
        out.append(&mut tail);
        Ok(out)
    }

    fn deserialize_event(bytes: &[u8]) -> (r: Result<SendSurveyEmail, Error>)
        ensures
            match survey_email_fields(bytes@) {
                Some((o, u)) => r matches Ok(e) && e.order_id@ == o && e.user_id == u,
                None => r matches Err(Error::SerializationError(_)),
            },
    {
        match json_object_entries(bytes) {
            Some(entries) => {
                let order_id = match read_text(&entries, "order_id") {
                    Ok(o) => o,
                    Err(e) => {
                        return Err(e);
                    },
                };
                let user_id = match read_unsigned(&entries, "user_id") {
                    Ok(u) => u,
                    Err(e) => {
                        return Err(e);
                    },
                };
                Ok(SendSurveyEmail { order_id, user_id })
            },
            None => match json_array_items(bytes) {
                Some(items) => {
                    if items.len() != 2 {
                        return Err(wrong_length());
                    }
                    let order_id = match item_as_text(&items[0], "order_id") {
                        Ok(o) => o,
                        Err(e) => {
                            return Err(e);
                        },
                    };
                    let user_id = match item_as_unsigned(&items[1], "user_id") {
                        Ok(u) => u,
                        Err(e) => {
                            return Err(e);
                        },
                    };
                    Ok(SendSurveyEmail { order_id, user_id })
                },
                None => Err(not_an_object()),
            },
        }
    }
}

} // verus!
