//! esift moves documents out of search clusters and log archives and into
//! OpenObserve, object stores and files.
//!
//! This crate holds what the program decides and computes: paging and resuming,
//! flattening and transforming documents, building bulk payloads, accounting
//! responses. Every function is verified. Reading from and writing to the
//! outside world is done around it.

pub mod calendar;
pub mod checkpoint;
pub mod config;
pub mod dest;
pub mod error;
pub mod extraction;
pub mod http;
pub mod json;
pub mod mapping;
pub mod metrics;
pub mod metrics_server;
pub mod number;
pub mod order;
pub mod plan;
pub mod secret;
pub mod source;
pub mod text;
pub mod transform;

use crate::json::{Json, JsonView};
use vstd::prelude::*;

verus! {

/// A single document extracted from a source.
///
/// The body is the raw JSON exactly as the source returned it. Metadata is
/// carried alongside so destinations can route or annotate without parsing the
/// body again.
#[derive(Debug)]
pub struct Document {
    /// The source index this document came from
    pub index: String,
    /// The document _id from the source
    pub id: String,
    /// The raw document body (_source field)
    pub body: Json,
}

/// A document as a mathematical value.
pub struct DocumentView {
    pub index: Seq<char>,
    pub id: Seq<char>,
    pub body: JsonView,
}

impl View for Document {
    type V = DocumentView;

    open spec fn view(&self) -> DocumentView {
        DocumentView { index: self.index@, id: self.id@, body: self.body.view() }
    }
}

/// The views of a list of documents.
pub open spec fn documents(docs: Seq<Document>) -> Seq<DocumentView> {
    docs.map_values(|d: Document| d@)
}

impl Document {
    /// A document of the given index, id and body.
    pub fn new(index: &str, id: &str, body: Json) -> (r: Document)
        ensures
            r@ == (DocumentView { index: index@, id: id@, body: body.view() }),
    {
        Document { index: index.to_owned(), id: id.to_owned(), body }
    }
}

impl Clone for Document {
    fn clone(&self) -> (r: Document)
        ensures
            r@ == self@,
    {
        Document { index: self.index.clone(), id: self.id.clone(), body: self.body.clone() }
    }
}

/// The views of documents are those of each one, in order, and show its index, its
/// id and its body.
pub proof fn views_show_every_field(docs: Seq<Document>, i: int)
    requires
        0 <= i < docs.len(),
    ensures
        documents(docs).len() == docs.len(),
        documents(docs)[i].index == docs[i].index@,
        documents(docs)[i].id == docs[i].id@,
        documents(docs)[i].body == docs[i].body.view(),
{
}

} // verus!
