use vstd::prelude::*;

use serde_json::Value;

verus! {

#[verifier::external_type_specification]
#[verifier::external_body]
pub struct ExJsonValue(Value);

#[verifier::external_type_specification]
#[verifier::external_body]
pub struct ExJsonError(serde_json::Error);

/// Whether serde_json accepts `text` as one JSON document (it refuses, among
/// others, nesting deeper than 128 levels).
pub uninterp spec fn json_is_valid(text: Seq<char>) -> bool;

/// The text of the string member `key` of the JSON object that `text` holds;
/// `None` when `text` is no JSON, holds no object, or the member is missing or
/// no string.
pub uninterp spec fn json_string_member(text: Seq<char>, key: Seq<char>) -> Option<Seq<char>>;

/// The text of a string, if there is one.
pub open spec fn text_of(s: Option<String>) -> Option<Seq<char>> {
    match s {
        Some(t) => Some(t@),
        None => None,
    }
}

/// Calls `serde_json::from_str` into a `serde_json::Value`. Trusted to
/// succeed exactly on the texts that the name `json_is_valid` holds of; the
/// value that comes back is opaque here.
#[verifier::external_body]
pub(crate) fn parse_json(text: &str) -> (r: Result<Value, serde_json::Error>)
    ensures
        r is Ok <==> json_is_valid(text@),
{
    serde_json::from_str(text)
}

/// Reads the string member `key` of the JSON document `text`: calls
/// `serde_json::from_str` into a `serde_json::Value`, then `Value::get` and
/// `Value::as_str`. Trusted to return the same for the same text and key,
/// which the name `json_string_member` stands for.
#[verifier::external_body]
pub(crate) fn string_member(text: &str, key: &str) -> (r: Option<String>)
    ensures
        text_of(r) == json_string_member(text@, key@),
{
    match serde_json::from_str::<Value>(text) {
        Ok(value) => match value.get(key) {
            Some(member) => member.as_str().map(String::from),
            None => None,
        },
        Err(_) => None,
    }
}

/// The shapes of a JSON value that a subscription filter is sorted by.
#[derive(Debug, Clone, Copy, PartialEq, Eq)]
pub enum JsonKind {
    Array,
    Object,
    Other,
}

/// Tells the variants of a `serde_json::Value` apart. The value is opaque
/// here, so nothing is stated of the answer.
#[verifier::external_body]
pub(crate) fn json_kind(value: &Value) -> JsonKind {
    match value {
        Value::Array(_) => JsonKind::Array,
        Value::Object(_) => JsonKind::Object,
        Value::Null => JsonKind::Other,
        Value::Bool(_) => JsonKind::Other,
        Value::Number(_) => JsonKind::Other,
        Value::String(_) => JsonKind::Other,
    }
}

/// Calls `Value::to_string`: the compact JSON text of `value`. The value is
/// opaque here, so nothing is stated of the text.
#[verifier::external_body]
pub(crate) fn json_text(value: &Value) -> String {
    value.to_string()
}

} // verus!
