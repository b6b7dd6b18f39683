//! Drive the bulk requests of a batch, merging their outcomes.
//!
//! The requests go out one after the other. [`BulkRun`] says what to send next
//! and takes in what came back; a request that fails ends the run.

use crate::dest::ndjson;
use crate::dest::openobserve::bulk;
use crate::dest::openobserve::config::{Compression, OpenObserveOptions};
use crate::dest::openobserve::deadletter;
use crate::dest::openobserve::deadletter::DeadLetter;
use crate::dest::openobserve::response;
use crate::dest::openobserve::transport;
use crate::dest::openobserve::transport::Payload;
use crate::dest::openobserve::types;
use crate::dest::openobserve::types::{BulkChunk, BulkOutcome, RoutedView};
use crate::dest::openobserve::OpenObserveDestination;
use crate::error::EsiftError;
use crate::Document;
use vstd::prelude::*;
use vstd::utf8::*;

verus! {

/// The number of documents that chunks carry.
pub open spec fn docs_in(chunks: Seq<BulkChunk>) -> int
    decreases chunks.len(),
{
    if chunks.len() == 0 {
        0
    } else {
        docs_in(chunks.drop_last()) + chunks.last().docs@.len()
    }
}

/// The bulk requests of one batch and what came of those already sent.
pub struct BulkRun {
    /// The number of documents in the batch.
    pub submitted: usize,
    pub chunks: Vec<BulkChunk>,
    /// The number of requests already answered.
    pub at: usize,
    pub outcome: BulkOutcome,
}

/// What a batch came to.
pub struct BatchReport {
    /// The number of documents accepted.
    pub accepted: usize,
    /// What the dead-letter sink is to be given.
    pub dead_letter: Option<DeadLetter>,
}

impl BulkRun {
    /// Every document is accounted for exactly once: those of answered requests
    /// are accepted or rejected, the others wait in the requests to come.
    pub open spec fn wf(&self) -> bool {
        &&& self.at <= self.chunks@.len()
        &&& self.outcome.accounted() == docs_in(self.chunks@.take(self.at as int))
        &&& self.submitted == docs_in(self.chunks@)
    }

    /// The next request's body as it is sent, if there is another request.
    pub fn next_payload(&self, compression: Compression) -> (r: Result<Option<Payload>, EsiftError>)
        requires
            self.wf(),
        ensures
            if self.at == self.chunks@.len() {
                r matches Ok(None)
            } else {
                match r {
                    Ok(p) => p matches Some(p) && transport::encodes(
                        Ok(p),
                        self.chunks@[self.at as int].body@,
                        compression,
                    ),
                    Err(e) => transport::encodes(
                        Err(e),
                        self.chunks@[self.at as int].body@,
                        compression,
                    ),
                }
            },
    {
        if self.at == self.chunks.len() {
            return Ok(None);
        }
        match transport::payload(self.chunks[self.at].body.as_str(), compression) {
            Ok(p) => Ok(Some(p)),
            Err(e) => Err(e),
        }
    }

    /// Takes in the response to the current request. A success is accounted and
    /// the next request becomes current; anything else is the run's error.
    pub fn on_response(&mut self, status: u16, body: &str) -> (r: Option<EsiftError>)
        requires
            old(self).wf(),
            old(self).at < old(self).chunks@.len(),
            100 <= status <= 999,
        ensures
            final(self).wf(),
            final(self).submitted == old(self).submitted,
            final(self).chunks == old(self).chunks,
            transport::classified(r, status, body@),
            match r {
                Some(_) => *final(self) == *old(self),
                None => {
                    &&& final(self).at == old(self).at + 1
                    &&& types::rejected_view(final(self).outcome.rejected@)
                        == types::rejected_view(old(self).outcome.rejected@) + response::refused(
                        response::results(body@),
                        types::routed_view(old(self).chunks@[old(self).at as int].docs@),
                    )
                },
            },
    {
        match transport::classify(status, body) {
            Some(e) => Some(e),
            None => {
                let n: usize = self.chunks.len();
                let i: usize = self.at;
                assert(i < n);
                let more = response::parse(body, &self.chunks[i].docs);
                proof {
                    let sent = self.chunks@;
                    assert(sent.take(i + 1).drop_last() =~= sent.take(i as int));
                    assert(sent.take(i + 1).last() == sent[i as int]);
                    fewer_carry_less(sent, i + 1);
                }
                self.outcome.merge(more);
                self.at = i + 1;
                None
            },
        }
    }

    /// What the batch came to. Rejected documents go to the dead-letter sink, if
    /// one is configured.
    pub fn report(&self, options: &OpenObserveOptions) -> (r: BatchReport)
        requires
            self.wf(),
        ensures
            r.accepted == self.outcome.accepted,
            self.at == self.chunks@.len() ==> r.accepted + self.outcome.rejected@.len()
                == self.submitted,
            match options.dead_letter_path {
                Some(path) if self.outcome.rejected@.len() > 0 => {
                    &&& r.dead_letter matches Some(d)
                    &&& deadletter::holds(d, path@, types::rejected_view(self.outcome.rejected@))
                },
                _ => r.dead_letter is None,
            },
    {
        assert(self.chunks@.take(self.chunks@.len() as int) =~= self.chunks@);
        let dead_letter: Option<DeadLetter> = if self.outcome.rejected.len() > 0 {
            deadletter::write(options, &self.outcome.rejected)
        } else {
            None
        };
        BatchReport { accepted: self.outcome.accepted, dead_letter }
    }
}

impl OpenObserveDestination {
    /// Starts on a batch.
    pub fn write_batch(&self, docs: Vec<Document>) -> (r: BulkRun)
        ensures
            r.wf(),
            r.submitted == docs@.len(),
            r.at == 0,
            r.outcome.accounted() == 0,
            bulk::carry(
                r.chunks@,
                bulk::grouped(
                    self.routed_batch(crate::documents(docs@)),
                    self.options.max_batch_bytes,
                ),
            ),
    {
        let ghost routed = self.routed_batch(crate::documents(docs@));
        let ghost groups = bulk::grouped(routed, self.options.max_batch_bytes);
        let submitted: usize = docs.len();
        let chunks = self.prepare(docs);
        proof {
            assert(routed.len() == docs@.len());
            bulk::groups_keep_every_document(routed, self.options.max_batch_bytes);
            groups.lemma_flatten_and_flatten_alt_are_equivalent();
            chunks_carry_their_groups(chunks@, groups);
            assert(chunks@.take(0) =~= Seq::empty());
        }
        BulkRun { submitted, chunks, at: 0, outcome: BulkOutcome::default() }
    }
}

/// The first chunks carry no more than all of them.
proof fn fewer_carry_less(chunks: Seq<BulkChunk>, i: int)
    requires
        0 <= i <= chunks.len(),
    ensures
        docs_in(chunks.take(i)) <= docs_in(chunks),
    decreases chunks.len(),
{
    if i == chunks.len() {
        assert(chunks.take(i) =~= chunks);
    } else {
        fewer_carry_less(chunks.drop_last(), i);
        assert(chunks.drop_last().take(i) =~= chunks.take(i));
    }
}

/// Chunks carry as many documents as their groups hold.
proof fn chunks_carry_their_groups(chunks: Seq<BulkChunk>, groups: Seq<Seq<RoutedView>>)
    requires
        bulk::carry(chunks, groups),
    ensures
        docs_in(chunks) == groups.flatten_alt().len(),
    decreases chunks.len(),
{
    if chunks.len() > 0 {
        let n = chunks.len() - 1;
        assert(chunks.last() == chunks[n]);
        assert(types::routed_view(chunks[n].docs@).len() == chunks[n].docs@.len());
        assert forall|i: int| 0 <= i < n implies types::routed_view(
            (#[trigger] chunks.drop_last()[i]).docs@,
        ) == groups.drop_last()[i] && chunks.drop_last()[i].body@ == bulk::body_of(
            groups.drop_last()[i],
        ) by {
            assert(chunks.drop_last()[i] == chunks[i]);
        }
        chunks_carry_their_groups(chunks.drop_last(), groups.drop_last());
    }
}

/// Two lists of chunks carry as many documents as both together.
pub proof fn chunks_add_up(a: Seq<BulkChunk>, b: Seq<BulkChunk>, c: BulkChunk)
    ensures
        docs_in(a + b) == docs_in(a) + docs_in(b),
        docs_in(seq![c]) == c.docs@.len(),
    decreases b.len(),
{
    let one = seq![c];
    assert(one.drop_last() =~= Seq::<BulkChunk>::empty());
    assert(docs_in(one.drop_last()) == 0);
    if b.len() == 0 {
        assert(a + b =~= a);
    } else {
        chunks_add_up(a, b.drop_last(), c);
        assert((a + b).drop_last() =~= a + b.drop_last());
    }
}

/// At every point of a run the documents of the batch are accepted, refused, or
/// still to be sent.
pub proof fn every_document_is_accounted(run: BulkRun)
    requires
        run.wf(),
    ensures
        run.outcome.accepted + run.outcome.rejected@.len() + docs_in(
            run.chunks@.skip(run.at as int),
        ) == run.submitted,
{
    let (sent, rest) = (run.chunks@.take(run.at as int), run.chunks@.skip(run.at as int));
    assert(run.chunks@ =~= sent + rest);
    if run.chunks@.len() > 0 {
        chunks_add_up(sent, rest, run.chunks@[0]);
    }
}

/// A successful response moves the run on by one request and accounts for its
/// documents; any other leaves the run where it stands and is its error.
pub proof fn responses_move_the_run(
    run: &mut BulkRun,
    status: u16,
    body: &str,
    r: Option<EsiftError>,
)
    requires
        call_ensures(BulkRun::on_response, (run, status, body), r),
        old(run).wf(),
        old(run).at < old(run).chunks@.len(),
    ensures
        r is None <==> status / 100 == 2,
        status / 100 == 2 ==> {
            &&& final(run).at == old(run).at + 1
            &&& final(run).outcome.accepted + final(run).outcome.rejected@.len()
                == old(run).outcome.accepted + old(run).outcome.rejected@.len()
                + old(run).chunks@[old(run).at as int].docs@.len()
        },
        status / 100 != 2 ==> final(run).at == old(run).at && final(run).outcome == old(run).outcome,
        r matches Some(e) ==> (e is Transient <==> status == 429 || status / 100 == 5),
        final(run).chunks == old(run).chunks,
{
    transport::statuses_are_sorted(r, status, body@);
    let at = old(run).at as int;
    let chunks = old(run).chunks@;
    assert(chunks.take(at + 1) =~= chunks.take(at) + seq![chunks[at]]);
    chunks_add_up(chunks.take(at), seq![chunks[at]], chunks[at]);
}

/// The body of the current request is what is sent, and it can be read back from
/// the bytes; behind the last request there is none.
pub proof fn current_requests_are_sent(
    run: BulkRun,
    compression: Compression,
    r: Result<Option<Payload>, EsiftError>,
)
    requires
        run.wf(),
        call_ensures(BulkRun::next_payload, (&run, compression), r),
    ensures
        (r matches Ok(None)) <==> run.at == run.chunks@.len(),
        r is Err ==> compression is Gzip,
        r matches Ok(Some(p)) ==> {
            &&& p.gzip <==> compression is Gzip
            &&& !p.gzip ==> valid_utf8(p.bytes@) && decode_utf8(p.bytes@)
                == run.chunks@[run.at as int].body@
        },
{
    if let Ok(Some(p)) = r {
        transport::bodies_can_be_read_back(p, run.chunks@[run.at as int].body@, compression);
    }
}

/// What a batch came to is what was accepted of it, and the refused documents go to
/// the dead-letter file: all of them, where there are any and a file is configured.
pub proof fn refused_documents_are_kept_aside(
    run: BulkRun,
    options: OpenObserveOptions,
    r: BatchReport,
)
    requires
        run.wf(),
        call_ensures(BulkRun::report, (&run, &options), r),
    ensures
        r.accepted == run.outcome.accepted,
        run.at == run.chunks@.len() ==> r.accepted + run.outcome.rejected@.len() == run.submitted,
        r.dead_letter is Some <==> options.dead_letter_path is Some
            && run.outcome.rejected@.len() > 0,
        r.dead_letter matches Some(d) ==> d.path@ == options.dead_letter_path->0@ && d.text@
            == ndjson::lines(deadletter::letters(types::rejected_view(run.outcome.rejected@))),
{
}

} // verus!
