//! Reading a request body as JSON text, by serde_json.
use vstd::prelude::*;
use crate::json::{Json, Number, SpecJson};
use serde_json::Value;

verus! {

/// serde_json's JSON value, carried from the parser to its conversion.
#[verifier::external_type_specification]
#[verifier::external_body]
pub struct ExValue(serde_json::Value);

/// The value that serde_json reads from a JSON text, or nothing where the text is not JSON.
pub uninterp spec fn json_of_text(text: Seq<char>) -> Option<SpecJson>;

/// Converts serde_json's value into the library's, variant for variant: a
/// number by serde_json's own split into non-negative integer, negative
/// integer and float (the float by its bits), an object by its entries in
/// the map's order. It makes no call into serde_json beyond reading the value.
#[verifier::external_body]
fn from_serde(v: Value) -> Json {
    match v {
        Value::Null => Json::Null,
        Value::Bool(b) => Json::Bool(b),
        Value::Number(n) => Json::Number(match (n.as_u64(), n.as_i64()) {
            (Some(u), _) => Number::PosInt(u),
            (None, Some(i)) => Number::NegInt(i),
            (None, None) => Number::Float(n.as_f64().map_or(0, |x| x.to_bits())),
        }),
        Value::String(s) => Json::Str(s),
        Value::Array(a) => Json::Array(a.into_iter().map(from_serde).collect()),
        Value::Object(m) => Json::Object(m.into_iter().map(|(k, x)| (k, from_serde(x))).collect()),
    }
}

/// Parses a text as JSON by serde_json's `from_str` into its `Value`.
/// Claimed of it: the value read, or its absence where serde_json refuses the
/// text, is `json_of_text` of the text; and the three literal texts read as
/// their values (`null`, `true` and `false`), as serde_json's parser reads
/// them. Nothing more is said of what `json_of_text` is on other texts.
#[verifier::external_body]
pub fn parse_json(text: &str) -> (r: Option<Json>)
    ensures
        match r {
            Some(j) => json_of_text(text@) == Some(j@),
            None => json_of_text(text@) is None,
        },
        text@ == "null"@ ==> (r is Some && r.unwrap()@ == SpecJson::Null),
        text@ == "true"@ ==> (r is Some && r.unwrap()@ == SpecJson::Bool(true)),
        text@ == "false"@ ==> (r is Some && r.unwrap()@ == SpecJson::Bool(false)),
{
    match serde_json::from_str::<Value>(text) {
        Ok(v) => Some(from_serde(v)),
        Err(_) => None,
    }
}

} // verus!
