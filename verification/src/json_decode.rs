//! Decoding text as JSON, which the library takes from serde_json.

use vstd::prelude::*;

use crate::json::{opt_json, Json, JsonMember, JsonValue};
use crate::text::{string_of, trim_start};

verus! {

#[verifier::external_type_specification]
#[verifier::external_body]
pub struct ExSerdeJsonValue(serde_json::Value);

/// What `serde_json::from_str::<serde_json::Value>` gives for `text`, in the
/// library's model: `None` when the text is not one JSON value, else the
/// value with numbers as serde_json renders them and object members in the
/// map's iteration order (by key).
pub uninterp spec fn json_decode(text: Seq<char>) -> Option<Json>;

/// A `serde_json::Value` in the library's own type, variant for variant:
/// numbers as their rendered text, object members in the map's iteration
/// order. Used by `decode_json` to hand back what serde_json decoded.
#[verifier::external_body]
fn json_of_serde(v: &serde_json::Value) -> (r: JsonValue) {
    match v {
        serde_json::Value::Null => JsonValue::Null,
        serde_json::Value::Bool(b) => JsonValue::Bool(*b),
        serde_json::Value::Number(n) => JsonValue::Number(n.to_string()),
        serde_json::Value::String(t) => JsonValue::Str(t.clone()),
        serde_json::Value::Array(a) => JsonValue::Array(a.iter().map(json_of_serde).collect()),
        serde_json::Value::Object(m) => JsonValue::Object(
            m.iter().map(|(k, x)| JsonMember { key: k.clone(), value: json_of_serde(x) }).collect(),
        ),
    }
}

/// `serde_json::from_str::<serde_json::Value>`: decodes `text` as one JSON
/// value (`None` when it is not one). What it returns is named by
/// `json_decode`, a function of the text alone.
#[verifier::external_body]
pub(crate) fn decode_json(text: &str) -> (r: Option<JsonValue>)
    ensures
        opt_json(r) == json_decode(text@),
{
    match serde_json::from_str::<serde_json::Value>(text) {
        Ok(v) => Some(json_of_serde(&v)),
        Err(_) => None,
    }
}

/// What a line decodes to once its leading whitespace is removed.
pub open spec fn decoded_line(line: Seq<char>) -> Option<Json> {
    json_decode(trim_start(line))
}

/// Decodes `text` as one JSON value (`None` when it is not one).
pub fn decode(text: &str) -> (r: Option<JsonValue>)
    ensures
        opt_json(r) == json_decode(text@),
{
    decode_json(text)
}

/// Decodes the characters `text` as one JSON value.
pub(crate) fn decode_chars(text: &Vec<char>) -> (r: Option<JsonValue>)
    ensures
        opt_json(r) == json_decode(text@),
{
    let s = string_of(text);
    decode(s.as_str())
}

} // verus!
