//! The trusted boundary to `serde_json`.
//!
//! The subprocess speaks newline-delimited JSON, and `serde_json` does the
//! decoding.  A decoded `serde_json::Value` is opaque to the verifier, so
//! each item here either declares that type or wraps one small call.  What
//! a call returns is a function of its arguments alone, so each result is
//! given an uninterpreted name, and the wrapper's contract ties the call
//! to that name; the verified interpreter then speaks of the names.

use crate::aggregate::view_opt;
use serde_json::Value;
use vstd::prelude::*;

verus! {

#[verifier::external_type_specification]
#[verifier::external_body]
pub struct ExValue(serde_json::Value);

/// Whether `serde_json` accepts the text as one JSON document.  Decoding
/// is a function of the text alone, so the outcome can be named even
/// though stating it in full would amount to restating the JSON grammar.
pub uninterp spec fn parses_as_json(s: Seq<char>) -> bool;

/// The value that decoding the text yields, when it is accepted.
pub uninterp spec fn decoded_of(s: Seq<char>) -> Value;

/// Relies on `serde_json::from_str::<Value>`: deciding whether a line is
/// JSON, and decoding it when it is, depends on the text alone.
#[verifier::external_body]
pub fn decode_json_line(line: &str) -> (r: Option<Value>)
    ensures
        r is Some <==> parses_as_json(line@),
        r matches Some(v) ==> v == decoded_of(line@),
{
    serde_json::from_str::<Value>(line).ok()
}

/// Relies on the derived `<serde_json::Value as Clone>::clone`: the clone
/// equals the original.
pub assume_specification[ <serde_json::Value as Clone>::clone ](
    v: &serde_json::Value,
) -> (r: serde_json::Value)
    ensures
        r == *v,
;

/// The string under a top-level key of the value, if the value is an
/// object carrying that key with a string: a function of the value and
/// the key alone.
pub uninterp spec fn str_key_of(v: Value, key: Seq<char>) -> Option<Seq<char>>;

/// Relies on `Value::get` and `Value::as_str`: the string at a top-level
/// key, if the key is present and its value is a string.
#[verifier::external_body]
pub fn json_str_key(v: &Value, key: &str) -> (r: Option<String>)
    ensures
        view_opt(r) == str_key_of(*v, key@),
{
    v.get(key).and_then(Value::as_str).map(|s| s.to_string())
}

/// Whether a top-level key of the value is present at all: a function of
/// the value and the key alone.
pub uninterp spec fn has_key_of(v: Value, key: Seq<char>) -> bool;

/// Relies on `Value::get`: whether a top-level key of an object is
/// present at all.
#[verifier::external_body]
pub fn json_has_key(v: &Value, key: &str) -> (r: bool)
    ensures
        r == has_key_of(*v, key@),
{
    v.get(key).is_some()
}

/// The string under the message key of the object under the error key,
/// when that whole path exists: a function of the value and the two keys
/// alone.
pub uninterp spec fn error_object_message_of(
    v: Value,
    error_key: Seq<char>,
    message_key: Seq<char>,
) -> Option<Seq<char>>;

/// Relies on `Value::get`, `Value::as_object`, `Map::get` and
/// `Value::as_str`: the string under the message key of the object under
/// the error key, if that whole path exists.
#[verifier::external_body]
pub fn json_error_object_message(v: &Value, error_key: &str, message_key: &str) -> (r: Option<
    String,
>)
    ensures
        view_opt(r) == error_object_message_of(*v, error_key@, message_key@),
{
    v.get(error_key).and_then(Value::as_object).and_then(|m| m.get(message_key)).and_then(
        Value::as_str,
    ).map(|s| s.to_string())
}

/// The indented JSON rendering of a sequence of values, when
/// serialization succeeds: a function of the values alone.
pub uninterp spec fn pretty_events_of(events: Seq<Value>) -> Option<Seq<char>>;

/// Relies on `serde_json::to_string_pretty`: the indented rendering of
/// the captured events, if serialization succeeds.
#[verifier::external_body]
pub fn events_to_pretty_json(events: &Vec<Value>) -> (r: Option<String>)
    ensures
        view_opt(r) == pretty_events_of(events@),
{
    serde_json::to_string_pretty(events).ok()
}

} // verus!
