//! JSON values as the library reads them, and the parser that yields them.
use vstd::prelude::*;

verus! {

/// A JSON value.
#[derive(Debug)]
pub enum Json {
    Null,
    Bool(bool),
    /// A number: `Some` of it where it is an integer that fits `i64`,
    /// `None` where it has a fraction or exponent or is too large.
    Number(Option<i64>),
    Text(String),
    Array(Vec<Json>),
    /// An object's members.
    Object(Vec<(String, Json)>),
}

#[verifier::external_type_specification]
#[verifier::external_body]
pub struct ExValue(serde_json::Value);

/// The value that the bytes `body` hold as one JSON text, or `None` where
/// they are not JSON or nest arrays and objects more than 128 levels deep,
/// where the parser stops.
pub uninterp spec fn json_text(body: Seq<u8>) -> Option<Json>;

/// Moves a parsed value into the library's own type, variant by variant.
#[verifier::external_body]
fn json_of_value(v: serde_json::Value) -> Json {
    match v {
        serde_json::Value::Null => Json::Null,
        serde_json::Value::Bool(b) => Json::Bool(b),
        serde_json::Value::Number(n) => Json::Number(n.as_i64()),
        serde_json::Value::String(s) => Json::Text(s),
        serde_json::Value::Array(a) => Json::Array(a.into_iter().map(json_of_value).collect()),
        serde_json::Value::Object(m) => Json::Object(
            m.into_iter().map(|(k, x)| (k, json_of_value(x))).collect(),
        ),
    }
}

/// Relies on `serde_json::from_slice` into `serde_json::Value`: whether the
/// bytes are JSON within its nesting limit, and what value they hold, depends
/// on the bytes alone.
#[verifier::external_body]
pub(crate) fn parse_json(body: &[u8]) -> (r: Option<Json>)
    ensures
        r == json_text(body@),
{
    serde_json::from_slice::<serde_json::Value>(body).ok().map(json_of_value)
}

} // verus!
