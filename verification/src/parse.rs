//! Parsing wire text into the JSON tree, through serde_json.
//!
//! The parse itself is outside code; the library gives its result the name
//! `text_json` and states no more of it than that it depends on the text
//! alone. Everything after the parse — decoding the tree into the wire
//! model — is verified against that name.

use vstd::prelude::*;
use crate::json::{Json, JVal};

verus! {

#[verifier::external_type_specification]
#[verifier::external_body]
pub struct ExValue(serde_json::Value);

/// The JSON tree a text denotes: `None` exactly where the text is not valid
/// JSON. A number outside the signed 64-bit integers appears as the decimal
/// text serde_json renders for the parsed number.
pub uninterp spec fn text_json(s: Seq<char>) -> Option<JVal>;

/// The tree a parsed JSON value carries.
pub uninterp spec fn value_model(v: serde_json::Value) -> JVal;

/// Relies on serde_json::from_str::<Value>: whether the text parses, and to
/// what, is a function of the text alone.
#[verifier::external_body]
fn parse_value(s: &str) -> (r: Option<serde_json::Value>)
    ensures
        r matches Some(v) ==> text_json(s@) == Some(value_model(v)),
        r is None ==> text_json(s@) is None,
{
    serde_json::from_str::<serde_json::Value>(s).ok()
}

/// Relies on serde_json::Value being the finite tree the parse produced:
/// each variant is moved into the library's own tree, one arm per variant;
/// a number that is not a signed 64-bit integer is carried as the decimal
/// text Number::to_string renders for it.
#[verifier::external_body]
fn value_into_json(v: serde_json::Value) -> (r: Json)
    ensures
        r@ == value_model(v),
{
    match v {
        serde_json::Value::Null => Json::Null,
        serde_json::Value::Bool(b) => Json::Bool(b),
        serde_json::Value::Number(n) => match n.as_i64() {
            Some(i) => Json::Int(i),
            None => Json::Num(n.to_string()),
        },
        serde_json::Value::String(s) => Json::Str(s),
        serde_json::Value::Array(a) => Json::Arr(a.into_iter().map(value_into_json).collect()),
        serde_json::Value::Object(m) => Json::Obj(
            m.into_iter().map(|p: (String, serde_json::Value)| (p.0, value_into_json(p.1))).collect(),
        ),
    }
}

/// Parses wire text to a JSON tree: exactly the tree the text denotes, and
/// `None` exactly where the text is not valid JSON.
pub fn parse_text(s: &str) -> (r: Option<Json>)
    ensures
        match text_json(s@) {
            Some(t) => r matches Some(j) && j@ == t,
            None => r is None,
        },
{
    match parse_value(s) {
        Some(v) => Some(value_into_json(v)),
        None => None,
    }
}

} // verus!
