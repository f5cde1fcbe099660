//! JSON values that are written as text.
use serde_json::Value;
use vstd::prelude::*;
use crate::config::json::ordered;
use crate::config::json::Json;
use crate::config::json::JsonNumber;
use crate::config::json::JsonView;

verus! {

/// A value as `serde_json` holds it.
#[verifier::external_type_specification]
#[verifier::external_body]
pub struct ExValue(serde_json::Value);

/// What a value of `serde_json` holds.
pub uninterp spec fn held(value: serde_json::Value) -> JsonView;

/// What `serde_json::from_str` reads of a text: what the value holds, or the words
/// of the error.
pub uninterp spec fn parsed(text: Seq<char>) -> Result<JsonView, Seq<char>>;

/// `serde_json::from_str` on a text, into a `serde_json::Value`. What it reads, or
/// the words of its error, depends on the text alone.
#[verifier::external_body]
fn parse_value(text: &str) -> (r: Result<serde_json::Value, String>)
    ensures
        parsed(text@) == (match r {
            Ok(value) => Ok::<JsonView, Seq<char>>(held(value)),
            Err(reason) => Err(reason@),
        }),
{
    match serde_json::from_str::<Value>(text) {
        Ok(value) => Ok(value),
        Err(error) => Err(error.to_string()),
    }
}

/// The parts of a `serde_json::Value`, moved over one by one. Its objects are held
/// in the order of their keys, each key once. A number is not negative where
/// `Number::as_u64` gives one, negative where only `Number::as_i64` does, and else
/// in floating point, by its bits.
#[verifier::external_body]
fn json_of(value: serde_json::Value) -> (r: Json)
    ensures
        r@ == held(value),
        ordered(r@),
{
    match value {
        Value::Null => Json::Null,
        Value::Bool(b) => Json::Bool(b),
        Value::String(s) => Json::String(s),
        Value::Array(items) => Json::Array(items.into_iter().map(json_of).collect()),
        Value::Object(map) => Json::Object(map.into_iter().map(|(k, v)| (k, json_of(v))).collect()),
        Value::Number(n) => Json::Number(match (n.as_u64(), n.as_i64(), n.as_f64()) {
            (Some(found), ..) => JsonNumber::Unsigned(found),
            (_, Some(found), _) => JsonNumber::Negative(found),
            (_, _, found) => JsonNumber::Float(found.unwrap_or_default().to_bits()),
        }),
    }
}

/// What a value of `serde_json` holds.
pub fn json_from_value(value: serde_json::Value) -> (r: Json)
    ensures
        r@ == held(value),
        ordered(r@),
{
    json_of(value)
}

/// What a text says, or why it is not JSON.
pub fn read_json(text: &str) -> (r: Result<Json, String>)
    ensures
        parsed(text@) == (match r {
            Ok(value) => Ok::<JsonView, Seq<char>>(value@),
            Err(reason) => Err(reason@),
        }),
        r matches Ok(value) ==> ordered(value@),
{
    match parse_value(text) {
        Ok(value) => Ok(json_of(value)),
        Err(reason) => Err(reason),
    }
}

} // verus!
