//! The conversion of a parsed `serde_json` value into the library's
//! document model.

use vstd::prelude::*;
use crate::json::{keys_distinct, JsonNumber, JsonValue};
use serde_json::Value;

verus! {

#[verifier::external_type_specification]
#[verifier::external_body]
pub struct ExSerdeValue(Value);

/// Converts a `serde_json::Value` one for one: numbers by their integer
/// reading, else by their text; object entries in the order the map
/// yields them. A `serde_json` map holds each key once, so no object of
/// the result repeats a key.
#[verifier::external_body]
pub fn from_serde(v: &Value) -> (r: JsonValue)
    ensures
        keys_distinct(r),
{
    match v {
        Value::Null => JsonValue::Null,
        Value::Bool(b) => JsonValue::Bool(*b),
        Value::Number(n) => JsonValue::Number(match (n.as_u64(), n.as_i64()) {
            (Some(u), _) => JsonNumber::PosInt(u),
            (None, Some(i)) => JsonNumber::NegInt(i),
            _ => JsonNumber::Float(n.to_string()),
        }),
        Value::String(s) => JsonValue::String(s.clone()),
        Value::Array(a) => JsonValue::Array(a.iter().map(from_serde).collect()),
        Value::Object(o) => JsonValue::Object(
            o.iter().map(|(k, x)| (k.clone(), from_serde(x))).collect(),
        ),
    }
}

/// The text of a JSON object, as serialised by `serde_json`.
pub uninterp spec fn json_object_of(
    texts: Seq<(Seq<char>, Seq<char>)>,
    numbers: Seq<(Seq<char>, u64)>,
) -> Seq<char>;

/// `serde_json::Value::to_string` on the object holding the given string
/// and integer members: claims the text is a function of the members
/// alone (`serde_json`'s map keeps its keys sorted, so the order in
/// which they are given does not show).
#[verifier::external_body]
pub fn json_object_text(texts: &Vec<(String, String)>, numbers: &Vec<(String, u64)>) -> (r: String)
    ensures
        r@ == json_object_of(
            texts@.map_values(|e: (String, String)| (e.0@, e.1@)),
            numbers@.map_values(|e: (String, u64)| (e.0@, e.1)),
        ),
{
    let mut m = serde_json::Map::new();
    for (k, v) in texts {
        m.insert(k.clone(), Value::String(v.clone()));
    }
    for (k, n) in numbers {
        m.insert(k.clone(), Value::from(*n));
    }
    Value::Object(m).to_string()
}

} // verus!
