//! Resumable extraction state.

use crate::json;
use crate::json::{Json, JsonView};
use vstd::prelude::*;

verus! {

/// Resumable extraction state, persisted to disk after each successful batch.
#[derive(Debug)]
pub struct Checkpoint {
    /// The search_after cursor from the last successful batch.
    /// None means start from the beginning.
    pub search_after: Option<Vec<Json>>,
    /// Total documents successfully written so far.
    pub docs_written: u64,
    /// Total batches completed.
    pub batches_completed: u64,
}

/// A checkpoint as a mathematical value.
pub struct CheckpointView {
    pub search_after: Option<Seq<JsonView>>,
    pub docs_written: int,
    pub batches_completed: int,
}

impl View for Checkpoint {
    type V = CheckpointView;

    open spec fn view(&self) -> CheckpointView {
        CheckpointView {
            search_after: json::opt_array(self.search_after),
            docs_written: self.docs_written as int,
            batches_completed: self.batches_completed as int,
        }
    }
}

/// A checkpoint after one more batch.
pub open spec fn recorded(c: CheckpointView, written: int, cursor: Option<Seq<JsonView>>) -> CheckpointView {
    CheckpointView {
        search_after: cursor,
        docs_written: c.docs_written + written,
        batches_completed: c.batches_completed + 1,
    }
}

/// Whether one more batch can be counted.
pub open spec fn has_room(c: CheckpointView, written: int) -> bool {
    c.docs_written + written <= u64::MAX && c.batches_completed < u64::MAX
}

impl Default for Checkpoint {
    fn default() -> (r: Checkpoint)
        ensures
            r@ == (CheckpointView { search_after: None, docs_written: 0, batches_completed: 0 }),
    {
        Checkpoint { search_after: None, docs_written: 0, batches_completed: 0 }
    }
}

impl Clone for Checkpoint {
    fn clone(&self) -> (r: Checkpoint)
        ensures
            r@ == self@,
    {
        Checkpoint {
            search_after: json::clone_opt_items(&self.search_after),
            docs_written: self.docs_written,
            batches_completed: self.batches_completed,
        }
    }
}

impl Checkpoint {
    /// Counts a batch of `docs_written` documents and keeps the cursor behind it.
    pub fn record_batch(&mut self, docs_written: usize, search_after: Option<Vec<Json>>)
        requires
            has_room(old(self)@, docs_written as int),
        ensures
            final(self)@ == recorded(old(self)@, docs_written as int, json::opt_array(search_after)),
    {
        self.docs_written = self.docs_written + docs_written as u64;
        self.batches_completed = self.batches_completed + 1;
        self.search_after = search_after;
    }
}

/// The state of an extraction and the file it is kept in.
pub struct CheckpointManager {
    pub path: String,
    pub state: Checkpoint,
}

impl CheckpointManager {
    /// The manager of a checkpoint file. `stored` is what the file holds; a file
    /// that is not there starts fresh.
    pub fn new(path: &str, stored: Option<Checkpoint>) -> (r: CheckpointManager)
        ensures
            r.path@ == path@,
            r.state@ == match stored {
                Some(c) => c@,
                None => CheckpointView { search_after: None, docs_written: 0, batches_completed: 0 },
            },
    {
        let state: Checkpoint = match stored {
            Some(c) => c,
            None => Checkpoint { search_after: None, docs_written: 0, batches_completed: 0 },
        };
        CheckpointManager { path: path.to_owned(), state }
    }
}

// ---------------------------------------------------------------------------
// Laws
// ---------------------------------------------------------------------------

/// The checkpoint after a list of batches, each with its count and cursor.
pub open spec fn after_batches(
    c: CheckpointView,
    batches: Seq<(int, Option<Seq<JsonView>>)>,
) -> CheckpointView
    decreases batches.len(),
{
    if batches.len() == 0 {
        c
    } else {
        recorded(after_batches(c, batches.drop_last()), batches.last().0, batches.last().1)
    }
}

/// The sum of the counts of a list of batches.
pub open spec fn total(batches: Seq<(int, Option<Seq<JsonView>>)>) -> int
    decreases batches.len(),
{
    if batches.len() == 0 {
        0
    } else {
        total(batches.drop_last()) + batches.last().0
    }
}

/// Counts accumulate over the batches, and the latest cursor is kept.
pub proof fn counts_accumulate(c: CheckpointView, batches: Seq<(int, Option<Seq<JsonView>>)>)
    ensures
        after_batches(c, batches).docs_written == c.docs_written + total(batches),
        after_batches(c, batches).batches_completed == c.batches_completed + batches.len(),
        batches.len() > 0 ==> after_batches(c, batches).search_after == batches.last().1,
    decreases batches.len(),
{
    if batches.len() > 0 {
        counts_accumulate(c, batches.drop_last());
    }
}

/// There is room for a batch exactly if both counts still fit once it is recorded.
pub proof fn room_is_for_the_counts(c: CheckpointView, written: int, cursor: Option<Seq<JsonView>>)
    ensures
        has_room(c, written) <==> recorded(c, written, cursor).docs_written <= u64::MAX && recorded(
            c,
            written,
            cursor,
        ).batches_completed <= u64::MAX,
{
}

/// The view of a checkpoint shows its counts and its cursor.
pub proof fn views_show_every_field(c: Checkpoint)
    ensures
        c@.docs_written == c.docs_written,
        c@.batches_completed == c.batches_completed,
        c.search_after matches Some(cursor) ==> c@.search_after == Some(json::array_view(cursor@)),
        c.search_after is None ==> c@.search_after is None,
{
}

/// Recording a batch counts its documents and the batch, and keeps the cursor
/// behind it.
pub proof fn batches_are_recorded(
    c: &mut Checkpoint,
    written: usize,
    cursor: Option<Vec<Json>>,
)
    requires
        call_ensures(Checkpoint::record_batch, (c, written, cursor), ()),
    ensures
        final(c).docs_written == old(c).docs_written + written,
        final(c).batches_completed == old(c).batches_completed + 1,
        json::opt_array(final(c).search_after) == json::opt_array(cursor),
{
    assert(final(c)@ == recorded(old(c)@, written as int, json::opt_array(cursor)));
}

} // verus!
