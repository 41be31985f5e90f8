//! The JSON reader that the facet parameters rest on. The text is read by
//! `serde_json`; nothing of that is verified here.

use serde_json::Value;
use vstd::prelude::*;

verus! {

/// The error of `serde_json`. Nothing is known of what it holds.
#[verifier::external_type_specification]
#[verifier::external_body]
pub struct ExJsonError(serde_json::Error);

/// An element of a JSON array, as far as a list of facets is concerned.
#[derive(Debug)]
pub enum JsonItem {
    /// A JSON string, with its content.
    Text(String),
    /// A value of any other kind, written out in compact JSON.
    Other(String),
}

/// A JSON document, as far as a list of facets is concerned.
#[derive(Debug)]
pub enum JsonDocument {
    /// A JSON array, with its elements in order.
    Array(Vec<JsonItem>),
    /// A value of any other kind, written out in compact JSON.
    Other(String),
}

/// A `JsonItem` with its text as a character sequence.
pub enum JsonItemView {
    Text(Seq<char>),
    Other(Seq<char>),
}

/// A `JsonDocument` with its texts as character sequences.
pub enum JsonDocumentView {
    Array(Seq<JsonItemView>),
    Other(Seq<char>),
}

impl View for JsonItem {
    type V = JsonItemView;

    open spec fn view(&self) -> JsonItemView {
        match self {
            JsonItem::Text(text) => JsonItemView::Text(text@),
            JsonItem::Other(text) => JsonItemView::Other(text@),
        }
    }
}

/// The views of a sequence of items, in order.
pub open spec fn items_view(items: Seq<JsonItem>) -> Seq<JsonItemView> {
    Seq::new(items.len(), |i: int| items[i]@)
}

impl View for JsonDocument {
    type V = JsonDocumentView;

    open spec fn view(&self) -> JsonDocumentView {
        match self {
            JsonDocument::Array(items) => JsonDocumentView::Array(items_view(items@)),
            JsonDocument::Other(text) => JsonDocumentView::Other(text@),
        }
    }
}

/// The document that `serde_json` reads from `text`; none where `text` is not
/// one JSON value.
pub uninterp spec fn json_document(text: Seq<char>) -> Option<JsonDocumentView>;

/// Reads `text` with `serde_json::from_str` as a `serde_json::Value` and hands
/// out what a list of facets looks at: for an array its elements, for a string
/// element its content, and for every other value the text that the `Display`
/// of `Value` gives. The contract claims that `serde_json` accepts `text`
/// exactly where `json_document` has a document for it, and that the value read
/// is that document: reading depends on the text alone.
#[verifier::external_body]
pub(crate) fn read_json(text: &str) -> (outcome: Result<JsonDocument, serde_json::Error>)
    ensures
        match outcome {
            Ok(document) => json_document(text@) == Some(document@),
            Err(_) => json_document(text@) is None,
        },
{
    let value: Value = serde_json::from_str(text)?;
    let item = |element: Value| match element {
        Value::String(content) => JsonItem::Text(content),
        other => JsonItem::Other(other.to_string()),
    };
    Ok(match value {
        Value::Array(elements) => JsonDocument::Array(elements.into_iter().map(item).collect()),
        other => JsonDocument::Other(other.to_string()),
    })
}

} // verus!
