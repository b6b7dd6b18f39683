//! The extraction loop: read a batch, transform it, write it, checkpoint.
//!
//! [`Extraction`] decides; whoever runs it performs the [`Action`] it asks for
//! and hands back the [`Event`] that came of it. The source is closed on every
//! path, failures included, before the run ends.

use crate::checkpoint;
use crate::checkpoint::{Checkpoint, CheckpointView};
use crate::error::EsiftError;
use crate::json;
use crate::json::Json;
use crate::mapping;
use crate::mapping::Transformer;
use crate::metrics;
use crate::metrics::Metrics;
use crate::number;
use crate::text;
use crate::{Document, DocumentView};
use vstd::prelude::*;

verus! {

/// What a run waits for.
#[derive(Debug, Clone, Copy, PartialEq, Eq, Structural)]
pub enum Phase {
    /// The source to be opened.
    Opening,
    /// The next batch.
    Reading,
    /// A batch to be written.
    Writing,
    /// The checkpoint to be saved after this many documents were written.
    Saving(usize),
    /// The destination to be flushed.
    Flushing,
    /// The source to be closed.
    Closing,
    /// Nothing: the run has ended.
    Ended,
}

/// What came of an action.
pub enum Event {
    Opened(Result<(), EsiftError>),
    Batch(Result<Option<Vec<Document>>, EsiftError>),
    /// The number of documents accepted, and the source's cursor behind them.
    Written(Result<usize, EsiftError>, Option<Vec<Json>>),
    Saved(Result<(), EsiftError>),
    Flushed(Result<(), EsiftError>),
    Closed(Result<(), EsiftError>),
}

/// What is to be done.
pub enum Action {
    Open,
    Read,
    Write(Vec<Document>),
    /// Persist the checkpoint as it stands.
    Save,
    Flush,
    Close,
    /// The run has ended.
    End(Result<(), EsiftError>),
}

/// A run of the extraction loop.
pub struct Extraction {
    pub phase: Phase,
    pub transformer: Transformer,
    pub checkpoint: Checkpoint,
    pub metrics: Metrics,
    /// Documents written so far, those of earlier runs counted in.
    pub total: u64,
    /// Why the run fails, once it does.
    pub failure: Option<EsiftError>,
}

/// Whether an event is one that a phase waits for. Counts must fit.
pub open spec fn expected(x: Extraction, event: Event) -> bool {
    match (x.phase, event) {
        (Phase::Opening, Event::Opened(_)) => true,
        (Phase::Reading, Event::Batch(_)) => true,
        (Phase::Writing, Event::Written(Ok(n), _)) => checkpoint::has_room(
            x.checkpoint@,
            n as int,
        ),
        (Phase::Writing, Event::Written(Err(_), _)) => true,
        (Phase::Saving(n), Event::Saved(_)) => true,
        (Phase::Flushing, Event::Flushed(_)) => true,
        (Phase::Closing, Event::Closed(_)) => true,
        _ => false,
    }
}

/// The phase that follows an event.
pub open spec fn next_phase(x: Extraction, event: Event) -> Phase {
    match event {
        Event::Opened(Ok(_)) => Phase::Reading,
        Event::Opened(Err(_)) => Phase::Closing,
        Event::Batch(Ok(Some(_))) => Phase::Writing,
        Event::Batch(Ok(None)) => Phase::Flushing,
        Event::Batch(Err(_)) => Phase::Closing,
        Event::Written(Ok(n), _) => Phase::Saving(n),
        Event::Written(Err(_), _) => Phase::Closing,
        Event::Saved(Ok(_)) => Phase::Reading,
        Event::Saved(Err(_)) => Phase::Closing,
        Event::Flushed(_) => Phase::Closing,
        Event::Closed(_) => Phase::Ended,
    }
}

/// The failure that an event reports, if any.
pub open spec fn failure_of(event: Event) -> Option<EsiftError> {
    match event {
        Event::Opened(Err(e)) => Some(e),
        Event::Batch(Err(e)) => Some(e),
        Event::Written(Err(e), _) => Some(e),
        Event::Saved(Err(e)) => Some(e),
        Event::Flushed(Err(e)) => Some(e),
        Event::Closed(Err(e)) => Some(e),
        _ => None,
    }
}

/// The checkpoint after an event: only a written batch moves it, and then it
/// holds the cursor behind that batch.
pub open spec fn next_checkpoint(c: CheckpointView, event: Event) -> CheckpointView {
    match event {
        Event::Written(Ok(n), cursor) => checkpoint::recorded(
            c,
            n as int,
            json::opt_array(cursor),
        ),
        _ => c,
    }
}

/// The counters after an event: a saved batch is counted, and so is a failure of
/// the source's reading or of the destination's writing.
pub open spec fn next_metrics(m: Metrics, phase: Phase, event: Event) -> Metrics {
    match (phase, event) {
        (Phase::Saving(n), Event::Saved(Ok(_))) => Metrics {
            docs_written: metrics::counted(m.docs_written, n as int) as u64,
            batches: metrics::counted(m.batches, 1) as u64,
            errors: m.errors,
        },
        (_, Event::Batch(Err(_))) => Metrics { errors: metrics::counted(m.errors, 1) as u64, ..m },
        (_, Event::Written(Err(_), _)) => Metrics {
            errors: metrics::counted(m.errors, 1) as u64,
            ..m
        },
        _ => m,
    }
}

/// Whether an action is the one that follows an event.
pub open spec fn follows(action: Action, x: Extraction, event: Event) -> bool {
    match next_phase(x, event) {
        Phase::Opening => action is Open,
        Phase::Reading => action is Read,
        Phase::Writing => {
            &&& action matches Action::Write(docs)
            &&& event matches Event::Batch(Ok(Some(batch)))
            &&& crate::documents(docs@) == crate::documents(batch@).map_values(
                |d: DocumentView|
                    mapping::transformed_document(x.transformer.transforms@, d),
            )
        },
        Phase::Saving(_) => action is Save,
        Phase::Flushing => action is Flush,
        Phase::Closing => action is Close,
        Phase::Ended => action matches Action::End(r) && r == match failure_of(event) {
            Some(e) => Err::<(), EsiftError>(e),
            None => match x.failure {
                Some(e) => Err::<(), EsiftError>(e),
                None => Ok::<(), EsiftError>(()),
            },
        },
    }
}

impl Extraction {
    /// Whether the total is what the checkpoint counts, but for a batch whose
    /// checkpoint is being saved.
    pub open spec fn wf(&self) -> bool {
        match self.phase {
            Phase::Saving(n) => self.checkpoint.docs_written == self.total + n && self.failure is None,
            Phase::Closing => self.failure is None ==> self.checkpoint.docs_written == self.total,
            Phase::Ended => true,
            _ => self.checkpoint.docs_written == self.total && self.failure is None,
        }
    }

    /// A run that continues a checkpoint. The source is to be opened first.
    pub fn start(transformer: Transformer, checkpoint: Checkpoint) -> (r: Extraction)
        ensures
            r.phase == Phase::Opening,
            r.transformer == transformer,
            r.checkpoint == checkpoint,
            r.metrics == (Metrics { docs_written: 0, batches: 0, errors: 0 }),
            r.total == checkpoint.docs_written,
            r.failure is None,
            r.wf(),
    {
        let total: u64 = checkpoint.docs_written;
        Extraction {
            phase: Phase::Opening,
            transformer,
            checkpoint,
            metrics: Metrics::default(),
            total,
            failure: None,
        }
    }

    /// Ends a run that failed: the source is closed first.
    fn fail(&mut self, e: EsiftError) -> (r: Action)
        ensures
            r is Close,
            final(self).phase == Phase::Closing,
            final(self).failure == Some(e),
            final(self).transformer == old(self).transformer,
            final(self).checkpoint == old(self).checkpoint,
            final(self).metrics == old(self).metrics,
            final(self).total == old(self).total,
    {
        self.failure = Some(e);
        self.phase = Phase::Closing;
        Action::Close
    }

    /// Takes in what came of an action and gives the next one.
    pub fn advance(&mut self, event: Event) -> (r: Action)
        requires
            old(self).wf(),
            expected(*old(self), event),
        ensures
            final(self).wf(),
            final(self).phase == next_phase(*old(self), event),
            follows(r, *old(self), event),
            final(self).transformer == old(self).transformer,
            !(event is Closed) ==> final(self).failure == failure_of(event),
            final(self).checkpoint@ == next_checkpoint(old(self).checkpoint@, event),
            final(self).metrics == next_metrics(old(self).metrics, old(self).phase, event),
            final(self).total == match (old(self).phase, event) {
                (Phase::Saving(n), Event::Saved(Ok(_))) => old(self).total + n,
                _ => old(self).total as int,
            },
    {
        match event {
            Event::Opened(Ok(_)) => {
                self.phase = Phase::Reading;
                Action::Read
            },
            Event::Opened(Err(e)) => self.fail(e),
            Event::Batch(Ok(Some(docs))) => {
                self.phase = Phase::Writing;
                Action::Write(self.transformer.apply_batch(docs))
            },
            Event::Batch(Ok(None)) => {
                self.phase = Phase::Flushing;
                Action::Flush
            },
            Event::Batch(Err(e)) => {
                self.metrics.record_error();
                self.fail(e)
            },
            Event::Written(Ok(n), cursor) => {
                self.checkpoint.record_batch(n, cursor);
                self.phase = Phase::Saving(n);
                Action::Save
            },
            Event::Written(Err(e), _) => {
                self.metrics.record_error();
                self.fail(e)
            },
            Event::Saved(Ok(_)) => {
                if let Phase::Saving(n) = self.phase {
                    self.total = self.total + n as u64;
                    self.metrics.record_batch(n as u64);
                }
                self.phase = Phase::Reading;
                Action::Read
            },
            Event::Saved(Err(e)) => self.fail(e),
            Event::Flushed(Ok(_)) => {
                self.phase = Phase::Closing;
                Action::Close
            },
            Event::Flushed(Err(e)) => self.fail(e),
            Event::Closed(Ok(_)) => {
                self.phase = Phase::Ended;
                let mut held: Option<EsiftError> = None;
                std::mem::swap(&mut held, &mut self.failure);
                match held {
                    Some(e) => Action::End(Err(e)),
                    None => Action::End(Ok(())),
                }
            },
            Event::Closed(Err(e)) => {
                self.phase = Phase::Ended;
                Action::End(Err(e))
            },
        }
    }

    /// The line shown while the run goes on, or once it is done.
    pub fn progress_text(&self) -> (r: String)
        ensures
            r@ == match self.phase {
                Phase::Opening => "Starting ("@ + number::decimal_text(self.total as int)
                    + " already written)"@,
                Phase::Flushing => "Done. "@ + number::decimal_text(self.total as int)
                    + " documents extracted."@,
                _ => number::decimal_text(self.total as int) + " documents extracted"@,
            },
    {
        let n = number::decimal(self.total);
        match self.phase {
            Phase::Opening => text::join3("Starting (", n.as_str(), " already written)"),
            Phase::Flushing => text::join3("Done. ", n.as_str(), " documents extracted."),
            _ => text::join2(n.as_str(), " documents extracted"),
        }
    }
}

// ---------------------------------------------------------------------------
// Laws
// ---------------------------------------------------------------------------

/// The source is closed on every path: a run ends only on the event of the
/// source's closing, and the action before that event was to close it.
pub proof fn runs_end_by_closing(x: Extraction, event: Event)
    requires
        expected(x, event),
        next_phase(x, event) == Phase::Ended,
    ensures
        x.phase == Phase::Closing,
        event is Closed,
{
}

/// Every failure leads to the closing of the source, and the run then ends with
/// that failure or with one of the closing itself; never with success.
pub proof fn failures_are_not_lost(x: Extraction, event: Event, closed: Event, after: Extraction)
    requires
        expected(x, event),
        x.phase != Phase::Closing,
        failure_of(event) is Some,
        after.failure == failure_of(event),
        after.phase == next_phase(x, event),
        expected(after, closed),
    ensures
        next_phase(x, event) == Phase::Closing,
        forall|a: Action| #[trigger]
            follows(a, after, closed) ==> (a matches Action::End(r) && r is Err),
{
}

/// The checkpoint moves only when a batch has been written, and by what was
/// accepted of it: nothing that was not written is ever counted or passed over.
pub proof fn checkpoints_follow_writes(c: CheckpointView, event: Event)
    requires
        !(event matches Event::Written(Ok(_), _)),
    ensures
        next_checkpoint(c, event) == c,
{
}

/// The loop goes round: an open source is read, a batch is written, what was
/// written is saved, and then the next batch is read. At the end of the source the
/// destination is flushed and the source closed. A failure on the way closes the
/// source at once, and its closing ends the run.
pub proof fn the_loop_goes_round(x: Extraction, event: Event, a: Action)
    requires
        expected(x, event),
        follows(a, x, event),
    ensures
        x.phase is Opening && failure_of(event) is None ==> a is Read,
        x.phase is Reading && (event matches Event::Batch(Ok(Some(_)))) ==> a is Write,
        x.phase is Reading && (event matches Event::Batch(Ok(None))) ==> a is Flush,
        x.phase is Writing && failure_of(event) is None ==> a is Save,
        x.phase is Saving && failure_of(event) is None ==> a is Read,
        x.phase is Flushing ==> a is Close,
        failure_of(event) is Some && !(x.phase is Closing) ==> a is Close,
        x.phase is Closing ==> a is End,
{
}

/// The phase of a run is that of the action it waits for.
pub proof fn phases_wait_for_the_action(x: Extraction, event: Event, a: Action, next: Extraction)
    requires
        expected(x, event),
        follows(a, x, event),
        next.phase == next_phase(x, event),
    ensures
        a is Read <==> next.phase is Reading,
        a is Write <==> next.phase is Writing,
        a is Save <==> next.phase is Saving,
        a is Flush <==> next.phase is Flushing,
        a is Close <==> next.phase is Closing,
        a is End <==> next.phase is Ended,
        event matches Event::Written(Ok(n), _) ==> next.phase == Phase::Saving(n),
{
}

/// A run takes the outcome of what it waits for and of nothing else, be it a
/// success or a failure. Only a count that does not fit is not taken, and an ended
/// run takes nothing.
pub proof fn outcomes_answer_the_action(x: Extraction, event: Event)
    ensures
        x.phase is Opening ==> (expected(x, event) <==> event is Opened),
        x.phase is Reading ==> (expected(x, event) <==> event is Batch),
        x.phase is Writing ==> (expected(x, event) ==> event is Written),
        x.phase is Writing && event is Written ==> (match event {
            Event::Written(Ok(n), _) => expected(x, event) <==> x.checkpoint.docs_written + n
                <= u64::MAX && x.checkpoint.batches_completed < u64::MAX,
            _ => expected(x, event),
        }),
        x.phase is Saving ==> (expected(x, event) <==> event is Saved),
        x.phase is Flushing ==> (expected(x, event) <==> event is Flushed),
        x.phase is Closing ==> (expected(x, event) <==> event is Closed),
        x.phase is Ended ==> !expected(x, event),
{
}

/// An outcome reports a failure exactly if it is an error, and then that error.
pub proof fn errors_are_failures(
    done: Result<(), EsiftError>,
    batch: Result<Option<Vec<Document>>, EsiftError>,
    written: Result<usize, EsiftError>,
    cursor: Option<Vec<Json>>,
)
    ensures
        match done {
            Ok(_) => {
                &&& failure_of(Event::Opened(done)) is None
                &&& failure_of(Event::Saved(done)) is None
                &&& failure_of(Event::Flushed(done)) is None
                &&& failure_of(Event::Closed(done)) is None
            },
            Err(e) => {
                &&& failure_of(Event::Opened(done)) == Some(e)
                &&& failure_of(Event::Saved(done)) == Some(e)
                &&& failure_of(Event::Flushed(done)) == Some(e)
                &&& failure_of(Event::Closed(done)) == Some(e)
            },
        },
        match batch {
            Ok(_) => failure_of(Event::Batch(batch)) is None,
            Err(e) => failure_of(Event::Batch(batch)) == Some(e),
        },
        match written {
            Ok(_) => failure_of(Event::Written(written, cursor)) is None,
            Err(e) => failure_of(Event::Written(written, cursor)) == Some(e),
        },
{
}

/// A batch is written whole and in order, every document with its index and id and
/// with its body transformed.
pub proof fn batches_are_written_transformed(
    x: Extraction,
    batch: Vec<Document>,
    docs: Vec<Document>,
    i: int,
)
    requires
        follows(Action::Write(docs), x, Event::Batch(Ok(Some(batch)))),
        0 <= i < batch@.len(),
    ensures
        docs@.len() == batch@.len(),
        docs@[i].index@ == batch@[i].index@,
        docs@[i].id@ == batch@[i].id@,
        docs@[i].body.view() == mapping::transformed(
            x.transformer.transforms@,
            batch@[i].body.view(),
        ),
{
    let given = crate::documents(batch@);
    let sent = given.map_values(
        |d: DocumentView| mapping::transformed_document(x.transformer.transforms@, d),
    );
    assert(crate::documents(docs@) == sent);
    assert(crate::documents(docs@).len() == docs@.len());
    assert(crate::documents(docs@)[i] == docs@[i]@);
    assert(sent[i] == mapping::transformed_document(x.transformer.transforms@, given[i]));
}

/// A run ends well exactly if nothing failed on the way and the source was closed.
/// A failure to close is what it ends with, whatever failed before.
pub proof fn runs_end_as_they_went(x: Extraction, done: Result<(), EsiftError>, r: Result<(), EsiftError>)
    requires
        follows(Action::End(r), x, Event::Closed(done)),
    ensures
        r is Ok <==> done is Ok && x.failure is None,
        done matches Err(e) ==> r == Err::<(), EsiftError>(e),
        done is Ok && x.failure is Some ==> r == Err::<(), EsiftError>(x.failure->0),
{
}

/// A saved batch is counted with its documents, a batch that could not be read or
/// written is counted as one error, and nothing else is counted.
pub proof fn what_happened_is_counted(m: Metrics, phase: Phase, event: Event, n: usize)
    ensures
        phase == Phase::Saving(n) && (event matches Event::Saved(Ok(_))) ==> {
            let r = next_metrics(m, phase, event);
            &&& m.docs_written + n <= u64::MAX ==> r.docs_written == m.docs_written + n
            &&& m.batches < u64::MAX ==> r.batches == m.batches + 1
            &&& r.errors == m.errors
        },
        failure_of(event) is Some && (event is Batch || event is Written) ==> {
            let r = next_metrics(m, phase, event);
            &&& m.errors < u64::MAX ==> r.errors == m.errors + 1
            &&& r.docs_written == m.docs_written
            &&& r.batches == m.batches
        },
        !(event is Saved) && !(event is Batch) && !(event is Written) ==> next_metrics(
            m,
            phase,
            event,
        ) == m,
        failure_of(event) is None && (event is Batch || event is Written) ==> next_metrics(
            m,
            phase,
            event,
        ) == m,
        failure_of(event) is Some && event is Saved ==> next_metrics(m, phase, event) == m,
{
}

/// A written batch moves the checkpoint behind itself: it holds the cursor, counts
/// the documents that were accepted, and counts the batch.
pub proof fn written_batches_move_the_checkpoint(
    c: CheckpointView,
    n: usize,
    cursor: Option<Vec<Json>>,
)
    ensures
        ({
            let r = next_checkpoint(c, Event::Written(Ok(n), cursor));
            &&& r.search_after == json::opt_array(cursor)
            &&& r.docs_written == c.docs_written + n
            &&& r.batches_completed == c.batches_completed + 1
        }),
{
}

/// Whenever a run reads on, flushes or closes without a failure, its total is what
/// its checkpoint counts; while a batch is being saved the checkpoint is ahead by
/// that batch.
pub proof fn totals_follow_the_checkpoint(x: Extraction, n: usize)
    requires
        x.wf(),
    ensures
        x.phase is Opening || x.phase is Reading || x.phase is Writing || x.phase is Flushing
            ==> x.total == x.checkpoint.docs_written && x.failure is None,
        x.phase is Closing && x.failure is None ==> x.total == x.checkpoint.docs_written,
        x.phase == Phase::Saving(n) ==> x.checkpoint.docs_written == x.total + n && x.failure is None,
{
}

/// A step of a run keeps what it was told: the transforms stay, a failure is
/// remembered until the run ends, and the total grows by a batch once its checkpoint
/// is saved and by nothing else.
pub proof fn steps_keep_the_account(x: &mut Extraction, event: Event, a: Action, n: usize)
    requires
        old(x).wf(),
        expected(*old(x), event),
        call_ensures(Extraction::advance, (x, event), a),
    ensures
        final(x).wf(),
        final(x).transformer == old(x).transformer,
        !(event is Closed) && failure_of(event) is Some ==> final(x).failure == failure_of(event),
        !(event is Closed) && failure_of(event) is None ==> final(x).failure is None,
        old(x).phase == Phase::Saving(n) && (event matches Event::Saved(Ok(_))) ==> final(x).total
            == old(x).total + n && final(x).total == final(x).checkpoint.docs_written,
        !(event is Saved) || failure_of(event) is Some ==> final(x).total == old(x).total,
        !(event is Written) ==> final(x).checkpoint@ == old(x).checkpoint@,
        a is End <==> event is Closed,
{
}

/// The line that is shown holds the number of documents written so far, whatever
/// the run waits for.
pub proof fn progress_shows_the_total(x: Extraction, r: String)
    requires
        call_ensures(Extraction::progress_text, (&x,), r),
    ensures
        x.phase is Opening ==> text::has_prefix(
            r@,
            "Starting ("@ + number::decimal_text(x.total as int),
        ),
        x.phase is Flushing ==> text::has_prefix(
            r@,
            "Done. "@ + number::decimal_text(x.total as int),
        ),
        !(x.phase is Opening) && !(x.phase is Flushing) ==> text::has_prefix(
            r@,
            number::decimal_text(x.total as int),
        ),
{
    let n = number::decimal_text(x.total as int);
    text::affixes_can_be_taken_off(r@, "Starting ("@ + n, " already written)"@);
    text::affixes_can_be_taken_off(r@, "Done. "@ + n, " documents extracted."@);
    text::affixes_can_be_taken_off(r@, n, " documents extracted"@);
}

} // verus!
