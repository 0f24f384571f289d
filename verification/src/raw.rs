//! The trusted boundary to the JSON parser.
//!
//! Raw resources are text; serde_json parses them into its own value tree,
//! which is converted one for one into the library's [`JsonValue`]. Both
//! steps are trusted; everything downstream of [`parse_json`] is verified.

use vstd::prelude::*;
use crate::json::JsonValue;

verus! {

/// The value that a text parses to: well-formed JSON whose numbers are all
/// 64-bit integers gives `Some`, anything else `None`. The result is a
/// function of the characters alone.
pub uninterp spec fn json_of(s: Seq<char>) -> Option<JsonValue>;

#[verifier::external_type_specification]
#[verifier::external_body]
pub struct ExValue(serde_json::Value);

/// Relies on serde_json::from_str, which parses a text into a
/// serde_json::Value as a function of the text alone, and on
/// [`convert_value`] for the shape of the result.
#[verifier::external_body]
pub(crate) fn parse_json(text: &str) -> (r: Option<JsonValue>)
    ensures
        r == json_of(text@),
{
    match serde_json::from_str::<serde_json::Value>(text) {
        Ok(v) => convert_value(&v),
        Err(_) => None,
    }
}

/// Relies on serde_json::Value's variants, on serde_json::Number::as_i64,
/// and on serde_json::Map::iter, which — with the preserve_order feature —
/// yields object entries in insertion order, the order they appear in the
/// source text. A number that is not a 64-bit integer fails the conversion.
#[verifier::external_body]
fn convert_value(v: &serde_json::Value) -> (r: Option<JsonValue>) {
    match v {
        serde_json::Value::Null => Some(JsonValue::Null),
        serde_json::Value::Bool(b) => Some(JsonValue::Bool(*b)),
        serde_json::Value::Number(n) => n.as_i64().map(JsonValue::Int),
        serde_json::Value::String(s) => Some(JsonValue::Str(s.clone())),
        serde_json::Value::Array(items) => {
            items.iter().map(convert_value).collect::<Option<Vec<_>>>().map(JsonValue::Arr)
        },
        serde_json::Value::Object(entries) => {
            entries.iter().map(
                |(k, x)| Some((k.clone(), convert_value(x)?)),
            ).collect::<Option<Vec<_>>>().map(JsonValue::Obj)
        },
    }
}

} // verus!
