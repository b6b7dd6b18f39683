//! Shared value types that flow through the OpenObserve sink.

use crate::json::{Json, JsonView};
use crate::{Document, DocumentView};
use vstd::prelude::*;

verus! {

/// A document paired with the destination stream it routes to.
pub struct RoutedDoc {
    pub stream: String,
    pub doc: Document,
}

/// A routed document as a mathematical value.
pub struct RoutedView {
    pub stream: Seq<char>,
    pub doc: DocumentView,
}

impl View for RoutedDoc {
    type V = RoutedView;

    open spec fn view(&self) -> RoutedView {
        RoutedView { stream: self.stream@, doc: self.doc@ }
    }
}

/// The views of a list of routed documents.
pub open spec fn routed_view(docs: Seq<RoutedDoc>) -> Seq<RoutedView> {
    docs.map_values(|d: RoutedDoc| d@)
}

/// One `_bulk` request payload plus the documents it carries, kept together so
/// a partial failure can be correlated back to the rejected source documents.
pub struct BulkChunk {
    pub body: String,
    pub docs: Vec<RoutedDoc>,
}

/// A document OpenObserve refused, with the reason it gave.
#[derive(Debug)]
pub struct RejectedDoc {
    pub stream: String,
    pub reason: String,
    pub body: Json,
}

/// A refused document as a mathematical value.
pub struct RejectedView {
    pub stream: Seq<char>,
    pub reason: Seq<char>,
    pub body: JsonView,
}

impl View for RejectedDoc {
    type V = RejectedView;

    open spec fn view(&self) -> RejectedView {
        RejectedView { stream: self.stream@, reason: self.reason@, body: self.body.view() }
    }
}

/// The views of a list of refused documents.
pub open spec fn rejected_view(docs: Seq<RejectedDoc>) -> Seq<RejectedView> {
    docs.map_values(|d: RejectedDoc| d@)
}

/// Accounting for one or more bulk requests: how many documents OpenObserve
/// accepted, and which it rejected.
pub struct BulkOutcome {
    pub accepted: usize,
    pub rejected: Vec<RejectedDoc>,
}

impl BulkOutcome {
    /// The number of documents accounted for.
    pub open spec fn accounted(&self) -> int {
        self.accepted + self.rejected@.len()
    }

    /// Fold another outcome into this one.
    pub fn merge(&mut self, other: BulkOutcome)
        requires
            old(self).accepted + other.accepted <= usize::MAX,
        ensures
            final(self).accepted == old(self).accepted + other.accepted,
            rejected_view(final(self).rejected@) == rejected_view(old(self).rejected@)
                + rejected_view(other.rejected@),
            final(self).accounted() == old(self).accounted() + other.accounted(),
    {
        let ghost before = rejected_view(self.rejected@);
        let ghost more = rejected_view(other.rejected@);
        self.accepted = self.accepted + other.accepted;
        let mut tail = other.rejected;
        self.rejected.append(&mut tail);
        assert(rejected_view(self.rejected@) =~= before + more);
    }
}

impl Default for BulkOutcome {
    fn default() -> (r: BulkOutcome)
        ensures
            r.accepted == 0,
            r.rejected@.len() == 0,
    {
        BulkOutcome { accepted: 0, rejected: Vec::new() }
    }
}

/// The views of documents are those of each one, in order, and show what it holds.
pub proof fn views_show_every_field(docs: Seq<RoutedDoc>, refused: Seq<RejectedDoc>, i: int)
    ensures
        routed_view(docs).len() == docs.len(),
        rejected_view(refused).len() == refused.len(),
        0 <= i < docs.len() ==> {
            &&& routed_view(docs)[i].stream == docs[i].stream@
            &&& routed_view(docs)[i].doc == docs[i].doc@
        },
        0 <= i < refused.len() ==> {
            &&& rejected_view(refused)[i].stream == refused[i].stream@
            &&& rejected_view(refused)[i].reason == refused[i].reason@
            &&& rejected_view(refused)[i].body == refused[i].body.view()
        },
{
}

/// A document is accounted for once: it is accepted or it is refused.
pub proof fn outcomes_count_both(o: BulkOutcome)
    ensures
        o.accounted() == o.accepted + rejected_view(o.rejected@).len(),
{
}

} // verus!
