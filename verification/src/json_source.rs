//! JSON documents as `serde_json` reads them: the parser's value, kept
//! opaque, and its copy into the library's own tree.

use vstd::prelude::*;
use crate::json::{Json, JsonMap};

verus! {

#[verifier::external_type_specification]
#[verifier::external_body]
pub struct ExJsonValue(serde_json::Value);

/// The value that `serde_json` reads from a text; `None` where the text is
/// no JSON document.
pub uninterp spec fn document_value(text: Seq<char>) -> Option<serde_json::Value>;

/// What a `serde_json` value holds, as a tree of plain values.
pub uninterp spec fn value_json(value: serde_json::Value) -> Json;

/// `serde_json::from_str` for a `Value`: the contract names the value read
/// and claims that an error comes exactly where none is read. The error is
/// handed on as its `Display` text, of which nothing is claimed.
#[verifier::external_body]
pub(crate) fn read_value(text: &str) -> (r: Result<serde_json::Value, String>)
    ensures
        match r {
            Ok(value) => document_value(text@) == Some(value),
            Err(_) => document_value(text@) is None,
        },
{
    serde_json::from_str::<serde_json::Value>(text).map_err(|e| e.to_string())
}

/// Copies a `serde_json::Value` into the library's tree, variant by variant;
/// of a number it keeps what `Number::as_u64` returns. An object's members
/// come in the order in which `Map::iter` yields them.
#[verifier::external_body]
pub(crate) fn json_of_value(value: &serde_json::Value) -> (r: Json)
    ensures
        r == value_json(*value),
{
    match value {
        serde_json::Value::Null => Json::Null,
        serde_json::Value::Bool(b) => Json::Bool(*b),
        serde_json::Value::Number(n) => Json::Number(n.as_u64()),
        serde_json::Value::String(s) => Json::Str(s.clone()),
        serde_json::Value::Array(items) => Json::Array(items.iter().map(json_of_value).collect()),
        serde_json::Value::Object(members) => Json::Object(
            JsonMap { entries: members.iter().map(|(k, v)| (k.clone(), json_of_value(v))).collect() },
        ),
    }
}

} // verus!
