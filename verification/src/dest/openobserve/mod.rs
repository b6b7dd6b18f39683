//! OpenObserve destination via the _bulk ingestion API.
//!
//!   POST /api/{org}/_bulk
//!
//! The stream name goes in the action line's _index field, not the URL:
//!   {"index": {"_index": "stream_name"}}
//!   {...document body...}
//!
//! Each document is timestamped (`timestamp`) and routed to a stream
//! (`routing`), batched into one or more payloads (`bulk`), encoded and sent
//! (`transport`) one after the other (`pipeline`), and the responses are
//! accounted (`response`) with rejects going to a dead-letter sink
//! (`deadletter`).

pub mod auth;
pub mod bulk;
pub mod config;
pub mod deadletter;
pub mod pipeline;
pub mod response;
pub mod routing;
pub mod timestamp;
pub mod transport;
pub mod types;

use crate::dest::openobserve::config::OpenObserveOptions;
use crate::dest::openobserve::types::{BulkChunk, RoutedDoc, RoutedView};
use crate::error::EsiftError;
use crate::json;
use crate::json::{Fields, JsonView};
use crate::text;
use crate::{Document, DocumentView};
use vstd::prelude::*;

verus! {

/// An OpenObserve stream that documents are ingested into.
pub struct OpenObserveDestination {
    pub bulk_url: String,
    pub username: String,
    pub password: String,
    pub options: OpenObserveOptions,
    pub stream: String,
}

impl OpenObserveDestination {
    /// A document as it is sent: with its timestamp, to its stream.
    pub open spec fn routed(&self, d: DocumentView) -> RoutedView {
        RoutedView {
            stream: self.stream@,
            doc: timestamp::stamped(d, text::opt_text(self.options.timestamp_field)),
        }
    }

    /// A batch as it is sent.
    pub open spec fn routed_batch(&self, docs: Seq<DocumentView>) -> Seq<RoutedView> {
        docs.map_values(|d: DocumentView| self.routed(d))
    }

    /// A destination at an OpenObserve server. The stream is set per document in
    /// the action line's _index field, so the endpoint names only the
    /// organization.
    pub fn new(
        base_url: &str,
        org: &str,
        stream: &str,
        username: &str,
        password: &str,
        options: OpenObserveOptions,
    ) -> (r: Result<OpenObserveDestination, EsiftError>)
        ensures
            r matches Ok(d) && {
                &&& d.bulk_url@ == base_url@ + "/api/"@ + org@ + "/_bulk"@
                &&& d.stream@ == stream@
                &&& d.username@ == username@
                &&& d.password@ == password@
                &&& d.options == options
            },
    {
        Ok(
            OpenObserveDestination {
                bulk_url: text::join4(base_url, "/api/", org, "/_bulk"),
                username: username.to_owned(),
                password: password.to_owned(),
                options,
                stream: stream.to_owned(),
            },
        )
    }

    /// The bulk requests of a batch: every document is stamped and routed, and
    /// the batch is cut into payloads. An empty batch needs no request.
    pub fn prepare(&self, docs: Vec<Document>) -> (r: Vec<BulkChunk>)
        ensures
            bulk::carry(
                r@,
                bulk::grouped(
                    self.routed_batch(crate::documents(docs@)),
                    self.options.max_batch_bytes,
                ),
            ),
    {
        let ghost all = docs@;
        let mut rest = json::reversed(docs);
        let mut routed: Vec<RoutedDoc> = Vec::new();
        while rest.len() > 0
            invariant
                routed@.len() + rest@.len() == all.len(),
                forall|k: int|
                    0 <= k < rest@.len() ==> #[trigger] rest@[k] == all[all.len() - 1 - k],
                forall|k: int|
                    0 <= k < routed@.len() ==> (#[trigger] routed@[k])@ == self.routed(all[k]@),
            decreases rest@.len(),
        {
            let mut doc = rest.pop().unwrap();
            timestamp::apply(&mut doc, &self.options);
            let stream = routing::stream_for(self.stream.as_str());
            routed.push(RoutedDoc { stream, doc });
        }
        assert(types::routed_view(routed@) =~= self.routed_batch(crate::documents(all)));
        bulk::chunks(routed, &self.options)
    }

    /// Human-readable label.
    pub fn description(&self) -> (r: String)
        ensures
            r@ == "OpenObserve "@ + self.bulk_url@ + " stream="@ + self.stream@,
    {
        text::join4("OpenObserve ", self.bulk_url.as_str(), " stream=", self.stream.as_str())
    }
}

/// A batch is sent whole and in order, every document to the destination's stream
/// and with its index and id. Where the configured timestamp field stands in a
/// body, its value stands under `_timestamp` too; without such a field the document
/// is sent as it is.
pub proof fn batches_are_sent_whole(
    dest: OpenObserveDestination,
    docs: Seq<DocumentView>,
    i: int,
    m: Fields,
)
    requires
        0 <= i < docs.len(),
    ensures
        dest.routed_batch(docs).len() == docs.len(),
        ({
            let sent = dest.routed_batch(docs)[i];
            &&& sent.stream == dest.stream@
            &&& sent.doc.index == docs[i].index
            &&& sent.doc.id == docs[i].id
            &&& dest.options.timestamp_field is None ==> sent.doc == docs[i]
            &&& dest.options.timestamp_field matches Some(f) ==> {
                &&& !(docs[i].body is Object) ==> sent.doc == docs[i]
                &&& docs[i].body == JsonView::Object(m) && !m.dom().contains(f@) ==> sent.doc
                    == docs[i]
                &&& docs[i].body == JsonView::Object(m) && m.dom().contains(f@) ==> sent.doc.body
                    == JsonView::Object(m.insert("_timestamp"@, m[f@]))
            }
        }),
{
    if let Some(f) = dest.options.timestamp_field {
        timestamp::other_documents_stay(docs[i], f@);
    }
}

} // verus!
