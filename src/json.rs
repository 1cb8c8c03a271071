//! The JSON values that request and response bodies carry, read and written by
//! `serde_json`. A `JsonValue` keeps the bytes it was read from, so that what is
//! said of it can be said of those bytes.
use vstd::prelude::*;
use crate::bytes::copy_range;

verus! {

#[verifier::external_type_specification]
#[verifier::external_body]
pub struct ExJsonValue(serde_json::Value);

#[verifier::external_type_specification]
#[verifier::external_body]
pub struct ExJsonError(serde_json::Error);

/// Whether `serde_json` reads `b` as exactly one JSON value, with nothing but
/// whitespace around it.
pub uninterp spec fn json_accepts(b: Seq<u8>) -> bool;

/// The compact JSON text that `serde_json::to_vec` writes for the value read from `b`.
pub uninterp spec fn json_compact(b: Seq<u8>) -> Seq<u8>;

/// The text that `Display` writes for the value read from `b`.
pub uninterp spec fn json_display(b: Seq<u8>) -> Seq<char>;

/// The string member `key` of the value read from `b`: `None` when that value
/// is no object, has no such member, or the member is no string.
pub uninterp spec fn json_string_member(b: Seq<u8>, key: Seq<char>) -> Option<Seq<char>>;

/// The JSON string literal, quoted and escaped, that `serde_json` writes for `s`.
pub uninterp spec fn json_quote(s: Seq<char>) -> Seq<u8>;

/// Relies on `serde_json::from_slice`: whether it succeeds depends on the bytes alone.
#[verifier::external_body]
fn parse_json(b: &[u8]) -> (r: Result<serde_json::Value, serde_json::Error>)
    ensures
        r is Ok <==> json_accepts(b@),
{
    serde_json::from_slice(b)
}

/// A JSON value together with the bytes it was read from.
#[derive(Debug)]
pub struct JsonValue {
    value: serde_json::Value,
    source: Vec<u8>,
}

impl JsonValue {
    /// The bytes this value was read from.
    pub closed spec fn source(&self) -> Seq<u8> {
        self.source@
    }

    /// Reads `b` as JSON.
    pub fn parse(b: &[u8]) -> (r: Option<JsonValue>)
        ensures
            r is Some <==> json_accepts(b@),
            r matches Some(j) ==> j.source() == b@,
    {
        match parse_json(b) {
            Ok(value) => Some(JsonValue { value, source: copy_range(b, 0, b.len()) }),
            Err(_) => None,
        }
    }

    /// The value itself.
    pub fn value(&self) -> &serde_json::Value {
        &self.value
    }
}

/// Relies on `serde_json::to_vec`, which fails only for a failing `Serialize`
/// impl or a map with non-string keys; a `Value` has neither.
#[verifier::external_body]
pub(crate) fn json_to_vec(j: &JsonValue) -> (r: Result<Vec<u8>, serde_json::Error>)
    ensures
        r is Ok,
        r matches Ok(t) ==> t@ == json_compact(j.source()),
{
    serde_json::to_vec(&j.value)
}

/// Relies on the `Display` impl of `serde_json::Value`.
#[verifier::external_body]
pub(crate) fn json_text(j: &JsonValue) -> (r: String)
    ensures
        r@ == json_display(j.source()),
{
    <serde_json::Value as std::string::ToString>::to_string(&j.value)
}

/// Relies on `serde_json::Value::get`: the member named `key`, when it is a string.
#[verifier::external_body]
pub(crate) fn json_member_str<'a>(j: &'a JsonValue, key: &str) -> (r: Option<&'a str>)
    ensures
        r matches Some(s) ==> json_string_member(j.source(), key@) == Some(s@),
        r is None ==> json_string_member(j.source(), key@) is None,
{
    match serde_json::Value::get(&j.value, key) {
        Some(serde_json::Value::String(s)) => Some(s.as_str()),
        _ => None,
    }
}

/// Relies on `serde_json::to_vec` on a string, which writes it quoted and
/// escaped and cannot fail: a `str` serialises without error into a `Vec`.
#[verifier::external_body]
pub(crate) fn json_quoted(s: &str) -> (r: Result<Vec<u8>, serde_json::Error>)
    ensures
        r is Ok,
        r matches Ok(t) ==> t@ == json_quote(s@),
{
    serde_json::to_vec(s)
}

} // verus!
