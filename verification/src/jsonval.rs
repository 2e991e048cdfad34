//! Trusted boundary to `serde_json`: the opaque JSON value type, accessors
//! that read plain values out of it, and constructors that build it from
//! plain values. Every function here wraps one `serde_json` call; all logic
//! over the extracted plain values lives in verified code.

use vstd::prelude::*;

verus! {

#[verifier::external_type_specification]
#[verifier::external_body]
pub struct ExValue(serde_json::Value);

/// Whether `serde_json` accepts the text as JSON. A fixed function of the
/// text alone.
pub uninterp spec fn json_parses(s: Seq<char>) -> bool;

/// Whether `serde_json` reads the text as one JSON number. A fixed function
/// of the text alone.
pub uninterp spec fn json_number_parses(s: Seq<char>) -> bool;

/// Relies on serde_json::from_str: parses the text as a JSON document, and
/// accepts or rejects the same texts on every call.
#[verifier::external_body]
pub fn json_parse(s: &str) -> (r: Option<serde_json::Value>)
    ensures
        r is Some <==> json_parses(s@),
{
    serde_json::from_str::<serde_json::Value>(s).ok()
}

/// Relies on serde_json::from_str: the text read as one JSON number, when it
/// is one.
#[verifier::external_body]
pub fn json_number_str(s: &str) -> (r: Option<serde_json::Value>)
    ensures
        r is Some <==> json_number_parses(s@),
{
    match serde_json::from_str::<serde_json::Value>(s) {
        Ok(serde_json::Value::Number(n)) => Some(serde_json::Value::Number(n)),
        _ => None,
    }
}

/// Relies on serde_json::Value::get with a string index: the member of an
/// object under that key, if any.
#[verifier::external_body]
pub fn jget<'a>(v: &'a serde_json::Value, key: &str) -> (r: Option<&'a serde_json::Value>) {
    v.get(key)
}

/// Relies on serde_json::Value::as_str: the text of a JSON string value.
#[verifier::external_body]
pub fn jstr(v: &serde_json::Value) -> (r: Option<String>) {
    v.as_str().map(String::from)
}

/// Relies on serde_json::Value::as_bool.
#[verifier::external_body]
pub fn jbool(v: &serde_json::Value) -> (r: Option<bool>) {
    v.as_bool()
}

/// Relies on serde_json::Value::as_u64.
#[verifier::external_body]
pub fn ju64(v: &serde_json::Value) -> (r: Option<u64>) {
    v.as_u64()
}

/// Relies on serde_json::Value::is_number.
#[verifier::external_body]
pub fn jis_number(v: &serde_json::Value) -> (r: bool) {
    v.is_number()
}

/// Relies on serde_json::Value::is_object.
#[verifier::external_body]
pub fn jis_object(v: &serde_json::Value) -> (r: bool) {
    v.is_object()
}

/// Relies on serde_json::Value::as_array: the elements of a JSON array.
#[verifier::external_body]
pub fn jarr<'a>(v: &'a serde_json::Value) -> (r: Option<&'a Vec<serde_json::Value>>) {
    v.as_array()
}

/// Relies on serde_json::Value::as_object: the members of a JSON object as
/// cloned (key, value) pairs, in the object's iteration order.
#[verifier::external_body]
pub fn jobj_pairs(v: &serde_json::Value) -> (r: Option<Vec<(String, serde_json::Value)>>) {
    v.as_object().map(|m| m.iter().map(|(k, val)| (k.clone(), val.clone())).collect())
}

/// Relies on serde_json::to_string: the canonical one-line rendering of the
/// value. Serializing a `Value` cannot fail.
#[verifier::external_body]
pub fn json_to_string(v: &serde_json::Value) -> (r: String) {
    serde_json::to_string(v).unwrap_or_default()
}

/// Relies on serde_json::to_string_pretty: an indented rendering.
#[verifier::external_body]
pub fn json_to_string_pretty(v: &serde_json::Value) -> (r: String) {
    serde_json::to_string_pretty(v).unwrap_or_default()
}

/// Relies on serde_json::Value::Bool.
#[verifier::external_body]
pub fn json_bool(b: bool) -> (r: serde_json::Value) {
    serde_json::Value::Bool(b)
}

/// Relies on serde_json::Value::Number over From<i64>.
#[verifier::external_body]
pub fn json_i64(n: i64) -> (r: serde_json::Value) {
    serde_json::Value::Number(serde_json::Number::from(n))
}

/// Relies on serde_json::Value::Number over From<u64>.
#[verifier::external_body]
pub fn json_u64(n: u64) -> (r: serde_json::Value) {
    serde_json::Value::Number(serde_json::Number::from(n))
}

/// Relies on serde_json::Value::String.
#[verifier::external_body]
pub fn json_string(s: &str) -> (r: serde_json::Value) {
    serde_json::Value::String(s.to_string())
}

/// Relies on serde_json::Map collected from pairs and Value::Object.
#[verifier::external_body]
pub fn json_object(pairs: Vec<(String, serde_json::Value)>) -> (r: serde_json::Value) {
    serde_json::Value::Object(pairs.into_iter().collect())
}

/// Relies on serde_json::Value's Clone.
#[verifier::external_body]
pub fn json_clone(v: &serde_json::Value) -> (r: serde_json::Value) {
    v.clone()
}

} // verus!
