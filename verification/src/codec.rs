//! Documents as JSON text, through `serde_json`.

use serde_json::Value;
use vstd::prelude::*;
use crate::document::{Document, Json};

verus! {

/// `serde_json::Value`, as a type that values of can be handed on and of
/// whose inside nothing is known here.
#[verifier::external_type_specification]
#[verifier::external_body]
pub struct ExValue(serde_json::Value);

/// The document that `bytes` is the JSON text of, as `serde_json::from_slice`
/// reads it; where it reads none, the `Debug` form of its error.
pub uninterp spec fn json_document(bytes: Seq<u8>) -> Result<Json, Seq<char>>;

/// The compact JSON text of `doc`, as `serde_json::to_string` writes it;
/// where it writes none, or `doc` holds a number whose text `serde_json`
/// does not read as one, the `Debug` form of the error.
pub uninterp spec fn json_text(doc: Json) -> Result<Seq<char>, Seq<char>>;

/// Moves a `serde_json::Value` into a [`Document`], node for node: a number
/// becomes the text that `serde_json::Number` prints, an object its members
/// in the order of its map. Nothing is claimed of the result.
#[verifier::external_body]
fn document_from_value(value: serde_json::Value) -> Document {
    match value {
        Value::Null => Document::Null,
        Value::Bool(b) => Document::Bool(b),
        Value::Number(n) => Document::Number(n.to_string()),
        Value::String(s) => Document::Text(s),
        Value::Array(items) => Document::Array(
            items.into_iter().map(document_from_value).collect(),
        ),
        Value::Object(map) => Document::Object(
            map.into_iter().map(|(k, v)| (k, document_from_value(v))).collect(),
        ),
    }
}

/// Copies a [`Document`] into a `serde_json::Value`, node for node. A number
/// is read back from its text with `serde_json::from_str`, and where that
/// text is no JSON number its error is handed on in its `Debug` form; of two
/// members with one key the later stays. Nothing is claimed of the result.
#[verifier::external_body]
fn value_from_document(doc: &Document) -> Result<serde_json::Value, String> {
    Ok(match doc {
        Document::Null => Value::Null,
        Document::Bool(b) => Value::Bool(*b),
        Document::Number(text) => {
            Value::Number(serde_json::from_str(text).map_err(|e| format!("{:?}", e))?)
        },
        Document::Text(s) => Value::String(s.clone()),
        Document::Array(items) => Value::Array(
            items.iter().map(value_from_document).collect::<Result<_, _>>()?,
        ),
        Document::Object(members) => Value::Object(
            members.iter().map(|(k, v)| Ok((k.clone(), value_from_document(v)?))).collect::<Result<_, String>>()?,
        ),
    })
}

/// Calls `serde_json::from_slice` for a `serde_json::Value` and moves it
/// into a [`Document`]; an error is printed with its `Debug` form. The
/// contract gives the outcome its name: the same bytes always read as the
/// same document, or always fail with the same words.
#[verifier::external_body]
fn read_json(bytes: &[u8]) -> (r: Result<Document, String>)
    ensures
        match r {
            Ok(doc) => json_document(bytes@) == Ok::<_, Seq<char>>(doc@),
            Err(detail) => json_document(bytes@) == Err::<Json, _>(detail@),
        },
{
    serde_json::from_slice::<serde_json::Value>(bytes)
        .map(document_from_value)
        .map_err(|e| format!("{:?}", e))
}

/// Calls `serde_json::to_string` on the `serde_json::Value` of `doc`; an
/// error, also one of a number that has no such value, is printed with its
/// `Debug` form. The contract gives the outcome its name: it depends on what
/// `doc` holds alone.
#[verifier::external_body]
fn write_json(doc: &Document) -> (r: Result<String, String>)
    ensures
        match r {
            Ok(text) => json_text(doc@) == Ok::<_, Seq<char>>(text@),
            Err(detail) => json_text(doc@) == Err::<Seq<char>, _>(detail@),
        },
{
    serde_json::to_string(&value_from_document(doc)?).map_err(|e| format!("{:?}", e))
}

/// Reads a document from its JSON text. The error holds what the reader
/// objected to.
pub fn decode(bytes: &[u8]) -> (r: Result<Document, String>)
    ensures
        match r {
            Ok(doc) => json_document(bytes@) == Ok::<_, Seq<char>>(doc@),
            Err(detail) => json_document(bytes@) == Err::<Json, _>(detail@),
        },
{
    read_json(bytes)
}

/// Writes a document as compact JSON text. The error holds what the writer
/// objected to.
pub fn encode(doc: &Document) -> (r: Result<String, String>)
    ensures
        match r {
            Ok(text) => json_text(doc@) == Ok::<_, Seq<char>>(text@),
            Err(detail) => json_text(doc@) == Err::<Seq<char>, _>(detail@),
        },
{
    write_json(doc)
}

} // verus!
