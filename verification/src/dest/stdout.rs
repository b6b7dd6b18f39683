//! Stdout destination: documents as NDJSON, each with its index and id.

use crate::json;
use crate::json::{Fields, Json, JsonView};
use crate::{Document, DocumentView};
use vstd::prelude::*;

verus! {

/// The standard output.
pub struct StdoutDestination;

/// A document with its index and id around it.
pub open spec fn envelope(d: DocumentView) -> Fields {
    Map::<Seq<char>, JsonView>::empty().insert("_index"@, JsonView::String(d.index)).insert(
        "_id"@,
        JsonView::String(d.id),
    ).insert("_source"@, d.body)
}

impl StdoutDestination {
    /// The line of one document, without its line break.
    pub fn line(&self, doc: &Document) -> (r: String)
        ensures
            r@ == json::json_text(JsonView::Object(envelope(doc@))),
            !r@.contains('\n'),
    {
        let mut e: Vec<(String, Json)> = Vec::new();
        json::put(&mut e, "_index", Json::String(doc.index.clone()));
        json::put(&mut e, "_id", Json::String(doc.id.clone()));
        json::put(&mut e, "_source", doc.body.clone());
        Json::Object(e).to_text()
    }

    /// Human-readable label.
    pub fn description(&self) -> (r: String)
        ensures
            r@ == "stdout (NDJSON)"@,
    {
        "stdout (NDJSON)".to_owned()
    }
}

/// A document's line holds its index, its id and its body, each under its own key,
/// and nothing else.
pub proof fn envelopes_hold_the_document(d: DocumentView, key: Seq<char>)
    ensures
        envelope(d).dom().contains(key) <==> key == "_index"@ || key == "_id"@ || key == "_source"@,
        envelope(d)["_index"@] == JsonView::String(d.index),
        envelope(d)["_id"@] == JsonView::String(d.id),
        envelope(d)["_source"@] == d.body,
{
    reveal_strlit("_index");
    reveal_strlit("_id");
    reveal_strlit("_source");
    assert("_index"@.len() == 6 && "_id"@.len() == 3 && "_source"@.len() == 7);
}

} // verus!
