use vstd::prelude::*;

verus! {

/// A JSON value. Object members keep the order in which the parser hands
/// them over; numbers are kept by kind only, as nothing here reads them.
#[derive(Debug)]
pub enum Json {
    Null,
    Bool(bool),
    Number,
    Str(String),
    Array(Vec<Json>),
    Object(Vec<(String, Json)>),
}

#[verifier::external_type_specification]
#[verifier::external_body]
pub struct ExJsonError(serde_json::Error);

#[verifier::external_type_specification]
#[verifier::external_body]
pub struct ExJsonValue(serde_json::Value);

/// The document that the text `text` parses to, or `None` where the parser
/// refuses it.
pub uninterp spec fn json_document(text: Seq<char>) -> Option<Json>;

/// Relies on serde_json::Error::line: the one-based line of a parse error.
pub assume_specification[ serde_json::Error::line ](e: &serde_json::Error) -> usize;

/// Relies on serde_json::Error::column: the one-based column of a parse error.
pub assume_specification[ serde_json::Error::column ](e: &serde_json::Error) -> usize;

/// Relies on serde_json::from_str into serde_json::Value: whether it succeeds,
/// and the value it yields, depend on the text alone (objects are kept in a
/// sorted map, so their order does not depend on the process).
#[verifier::external_body]
pub(crate) fn parse_json(text: &str) -> (r: Result<Json, serde_json::Error>)
    ensures
        match r {
            Ok(doc) => json_document(text@) == Some(doc),
            Err(_) => json_document(text@) is None,
        },
{
    match serde_json::from_str::<serde_json::Value>(text) {
        Ok(v) => Ok(json_from_value(v)),
        Err(e) => Err(e),
    }
}

/// Moves a serde_json::Value into a `Json`, variant by variant, for
/// `parse_json`.
#[verifier::external_body]
fn json_from_value(v: serde_json::Value) -> Json {
    match v {
        serde_json::Value::Null => Json::Null,
        serde_json::Value::Bool(b) => Json::Bool(b),
        serde_json::Value::Number(_) => Json::Number,
        serde_json::Value::String(s) => Json::Str(s),
        serde_json::Value::Array(a) => Json::Array(a.into_iter().map(json_from_value).collect()),
        serde_json::Value::Object(m) => Json::Object(
            m.into_iter().map(|(k, x)| (k, json_from_value(x))).collect(),
        ),
    }
}

} // verus!
