//! Trusted boundary around `serde_json`: parsing JSON text into the
//! library's value model.  Serialisation of library values happens outside
//! the library, next to the transport.

use vstd::prelude::*;

use crate::json::{Entry, JsonData, JsonValue, Number};

verus! {

#[verifier::external_type_specification]
#[verifier::external_body]
pub struct ExSerdeValue(serde_json::Value);

/// What parsing a JSON document yields: a function of the text alone.
pub uninterp spec fn json_parse(s: Seq<char>) -> Option<JsonData>;

/// Relies on serde_json::from_str: it parses one JSON document from text,
/// or fails; the result depends on the text alone.
#[verifier::external_body]
pub fn parse_json_text(s: &str) -> (r: Option<JsonValue>)
    ensures
        match r {
            Some(v) => json_parse(s@) == Some(v@),
            None => json_parse(s@) is None,
        },
{
    match serde_json::from_str::<serde_json::Value>(s) {
        Ok(v) => Some(value_from_serde(v)),
        Err(_) => None,
    }
}

/// Relies on the shape of serde_json::Value: each variant carries over
/// one for one.
#[verifier::external_body]
fn value_from_serde(v: serde_json::Value) -> JsonValue {
    match v {
        serde_json::Value::Null => JsonValue::Null,
        serde_json::Value::Bool(b) => JsonValue::Bool(b),
        serde_json::Value::Number(n) => number_from_serde(serde_json::Value::Number(n)),
        serde_json::Value::String(s) => JsonValue::Str(s),
        serde_json::Value::Array(a) => JsonValue::Array(
            a.into_iter().map(value_from_serde).collect(),
        ),
        serde_json::Value::Object(o) => JsonValue::Object(
            o.into_iter().map(|(key, value)| Entry { key, value: value_from_serde(value) }).collect(),
        ),
    }
}

/// Relies on serde_json::Number: it holds an unsigned, a signed, or a
/// double, probed in that order; doubles carry over as their bits.
#[verifier::external_body]
fn number_from_serde(v: serde_json::Value) -> JsonValue {
    match v {
        serde_json::Value::Number(n) => match (n.as_u64(), n.as_i64(), n.as_f64()) {
            (Some(u), _, _) => JsonValue::Num(Number::Unsigned(u)),
            (None, Some(i), _) => JsonValue::Num(Number::Signed(i)),
            (None, None, Some(d)) => JsonValue::Num(Number::FloatBits(d.to_bits())),
            _ => JsonValue::Null,
        },
        _ => JsonValue::Null,
    }
}

} // verus!
