//! A runtime's JSON answers as plain values: serde_json reads the text, and
//! what the answer means is decided over the value it read.
use vstd::prelude::*;

verus! {

/// serde_json's document type.
#[verifier::external_type_specification]
#[verifier::external_body]
pub struct ExJsonValue(serde_json::Value);

/// A JSON document. A number keeps the unsigned integer it is, when it is
/// one; an object keeps its members in serde_json's order.
#[derive(Debug)]
pub enum Json {
    Null,
    Bool(bool),
    Number(Option<u64>),
    Text(String),
    Array(Vec<Json>),
    Object(Vec<(String, Json)>),
}

/// The document `serde_json::from_str` reads from a text, or its message
/// when the text is not JSON.
pub uninterp spec fn json_read(text: Seq<char>) -> core::result::Result<Json, Seq<char>>;

/// `serde_json::from_str::<serde_json::Value>`, with the value carried over
/// into `Json` and the error into its message.
#[verifier::external_body]
pub(crate) fn read_json(text: &str) -> (r: core::result::Result<Json, String>)
    ensures
        match json_read(text@) {
            Ok(j) => r matches Ok(x) && x == j,
            Err(m) => r matches Err(x) && x@ == m,
        },
{
    match serde_json::from_str::<serde_json::Value>(text) {
        Ok(v) => Ok(json_from(v)),
        Err(e) => Err(e.to_string()),
    }
}

/// A serde_json value as a `Json`, variant by variant.
#[verifier::external_body]
fn json_from(v: serde_json::Value) -> Json {
    match v {
        serde_json::Value::Null => Json::Null,
        serde_json::Value::Bool(b) => Json::Bool(b),
        serde_json::Value::Number(n) => Json::Number(n.as_u64()),
        serde_json::Value::String(s) => Json::Text(s),
        serde_json::Value::Array(a) => Json::Array(a.into_iter().map(json_from).collect()),
        serde_json::Value::Object(o) => Json::Object(o.into_iter().map(|(k, x)| (k, json_from(x))).collect()),
    }
}

} // verus!
