//! OpenSearch / Elasticsearch source using a point in time (PIT) and
//! `search_after`.
//!
//! OpenSearch 2.4+:
//!   Create: POST /{index}/_search/point_in_time?keep_alive=5m
//!   Response field: "pit_id"
//!   Delete: DELETE /_search/point_in_time  body: {"pit_id": ["<id>"]}
//!
//! Elasticsearch 7.10+:
//!   Create: POST /{index}/_pit?keep_alive=5m
//!   Response field: "id"
//!   Delete: DELETE /_pit  body: {"id": "<id>"}
//!
//! Documents are sorted by _id ascending. It is always present, requires no
//! mapping, and provides a stable, unique cursor for `search_after` on both.

use crate::error::EsiftError;
use crate::http;
use crate::json;
use crate::json::{Fields, Json, JsonNumber, JsonView, NumberView};
use crate::number;
use crate::text;
use crate::{Document, DocumentView};
use vstd::prelude::*;

verus! {

/// How requests are authenticated.
#[derive(Debug, Clone)]
pub enum Auth {
    Anonymous,
    Basic { username: String, password: Option<String> },
    /// AWS Signature Version 4, with credentials resolved for each request.
    AwsSigV4 { region: String },
}

/// Which of the two APIs the cluster speaks.
#[derive(Debug, Clone, Copy, PartialEq, Eq, Structural)]
pub enum ApiFlavor {
    Unknown,
    OpenSearch,
    Elasticsearch,
}

// ---------------------------------------------------------------------------
// Slices
// ---------------------------------------------------------------------------

/// Per-slice cursor for sliced PIT extraction. Each slice owns its own
/// `search_after` cursor and exhaustion flag; the shared PIT id lives on the
/// parent struct.
#[derive(Debug)]
pub struct SliceState {
    pub search_after: Option<Vec<Json>>,
    pub exhausted: bool,
}

/// Where a slice stands.
pub struct SliceView {
    pub after: Option<Seq<JsonView>>,
    pub exhausted: bool,
}

impl View for SliceState {
    type V = SliceView;

    open spec fn view(&self) -> SliceView {
        SliceView { after: json::opt_array(self.search_after), exhausted: self.exhausted }
    }
}

impl Default for SliceState {
    fn default() -> (r: SliceState)
        ensures
            r@ == fresh_slice(),
    {
        SliceState { search_after: None, exhausted: false }
    }
}

impl Clone for SliceState {
    fn clone(&self) -> (r: SliceState)
        ensures
            r@ == self@,
    {
        SliceState {
            search_after: json::clone_opt_items(&self.search_after),
            exhausted: self.exhausted,
        }
    }
}

/// A slice of which nothing has been read.
pub open spec fn fresh_slice() -> SliceView {
    SliceView { after: None, exhausted: false }
}

/// Where the slices of a list stand.
pub open spec fn slices_view(s: Seq<SliceState>) -> Seq<SliceView> {
    s.map_values(|x: SliceState| x@)
}

/// Whether every slice is drained.
pub open spec fn all_drained(s: Seq<SliceView>) -> bool {
    forall|i: int| 0 <= i < s.len() ==> (#[trigger] s[i]).exhausted
}

/// The first slice that is not drained, looking at `left` slices in turn from
/// `start` on.
pub open spec fn next_live(s: Seq<SliceView>, start: int, left: int) -> Option<int>
    decreases left,
{
    if left <= 0 {
        None
    } else if !s[start].exhausted {
        Some(start)
    } else {
        next_live(s, (start + 1) % s.len() as int, left - 1)
    }
}

/// A list of values, or null.
pub open spec fn values_or_null(v: Option<Seq<JsonView>>) -> JsonView {
    match v {
        Some(items) => JsonView::Array(items),
        None => JsonView::Null,
    }
}

/// A slice in a checkpoint cursor.
pub open spec fn slice_entry(s: SliceView) -> JsonView {
    JsonView::Object(
        Map::<Seq<char>, JsonView>::empty().insert("after"@, values_or_null(s.after)).insert(
            "done"@,
            JsonView::Bool(s.exhausted),
        ),
    )
}

/// The slice that an entry of a checkpoint cursor stands for.
pub open spec fn entry_slice(entry: JsonView) -> SliceView {
    SliceView {
        after: match json::field(entry, "after"@) {
            Some(JsonView::Array(items)) => Some(items),
            _ => None,
        },
        exhausted: json::field(entry, "done"@) == Some(JsonView::Bool(true)),
    }
}

/// The slices of a run as one checkpoint cursor.
pub open spec fn encoded_slices(s: Seq<SliceView>, slices: int) -> Seq<JsonView> {
    seq![
        JsonView::Object(
            Map::<Seq<char>, JsonView>::empty().insert(
                "__esift_slices"@,
                JsonView::Number(NumberView::Int(slices)),
            ).insert("cursors"@, JsonView::Array(s.map_values(|x: SliceView| slice_entry(x)))),
        ),
    ]
}

/// Whether a checkpoint cursor encodes slices. A single-slice cursor is a list
/// of `sort` values and never a one-element list holding an object with this
/// marker, so the two are unambiguous.
pub open spec fn sliced_encoding(cursor: Seq<JsonView>) -> bool {
    cursor.len() == 1 && json::field(cursor[0], "__esift_slices"@) is Some
}

/// The slices that a checkpoint cursor encodes, where there are as many as this
/// run has.
pub open spec fn decoded_slices(cursor: Seq<JsonView>, slices: int) -> Option<Seq<SliceView>> {
    if cursor.len() == 0 {
        None
    } else if json::field(cursor[0], "__esift_slices"@) != Some(
        JsonView::Number(NumberView::Int(slices)),
    ) {
        None
    } else {
        match json::field(cursor[0], "cursors"@) {
            Some(JsonView::Array(entries)) => if entries.len() == slices {
                Some(entries.map_values(|e: JsonView| entry_slice(e)))
            } else {
                None
            },
            _ => None,
        }
    }
}

/// Whether `cursor` is a sliced-resume encoding produced by
/// [`OpenSearchSource::cursor`].
pub fn is_sliced_encoding(cursor: &Vec<Json>) -> (r: bool)
    ensures
        r == sliced_encoding(json::array_view(cursor@)),
{
    proof {
        json::array_view_index(cursor@);
    }
    cursor.len() == 1 && cursor[0].get("__esift_slices").is_some()
}

/// Decode a sliced-resume cursor into per-slice state. Gives nothing (start
/// fresh) when the encoding is malformed or its slice count differs from this
/// run's `slices`.
pub fn decode_slice_cursors(cursor: &Vec<Json>, slices: usize) -> (r: Option<Vec<SliceState>>)
    ensures
        match r {
            Some(s) => decoded_slices(json::array_view(cursor@), slices as int) == Some(
                slices_view(s@),
            ),
            None => decoded_slices(json::array_view(cursor@), slices as int) is None,
        },
{
    proof {
        json::array_view_index(cursor@);
    }
    if cursor.len() == 0 {
        return None;
    }
    let saved: Option<u64> = match cursor[0].get("__esift_slices") {
        Some(v) => v.as_u64(),
        None => None,
    };
    match saved {
        Some(n) => if n != slices as u64 {
            return None;
        },
        None => {
            return None;
        },
    }
    match cursor[0].get("cursors") {
        Some(Json::Array(entries)) => {
            let n: usize = entries.len();
            proof {
                json::array_view_index(entries@);
            }
            if n != slices {
                return None;
            }
            let ghost views = json::array_view(entries@);
            let mut out: Vec<SliceState> = Vec::new();
            let mut i: usize = 0;
            while i < n
                invariant
                    n == entries@.len(),
                    i <= n,
                    out@.len() == i,
                    forall|k: int|
                        0 <= k < i ==> (#[trigger] out@[k])@ == entry_slice(entries@[k].view()),
                decreases n - i,
            {
                let search_after: Option<Vec<Json>> = match entries[i].get("after") {
                    Some(Json::Array(a)) => Some(json::clone_items(a)),
                    _ => None,
                };
                let exhausted: bool = match entries[i].get("done") {
                    Some(Json::Bool(b)) => *b,
                    _ => false,
                };
                out.push(SliceState { search_after, exhausted });
                i = i + 1;
            }
            assert(slices_view(out@) =~= views.map_values(|e: JsonView| entry_slice(e)));
            Some(out)
        },
        _ => None,
    }
}

// ---------------------------------------------------------------------------
// The source
// ---------------------------------------------------------------------------

/// An OpenSearch or Elasticsearch index as a source of documents.
pub struct OpenSearchSource {
    pub base_url: String,
    pub index: String,
    pub query: Json,
    pub batch_size: usize,
    pub auth: Auth,
    pub pit_id: Option<String>,
    pub search_after: Option<Vec<Json>>,
    pub exhausted: bool,
    pub flavor: ApiFlavor,
    pub slices: usize,
    /// Per-slice extraction state, used only when `slices > 1`. Empty on the
    /// single-slice path, which relies on `search_after`/`exhausted` instead.
    pub slice_state: Vec<SliceState>,
    /// Round-robin pointer into `slice_state` for the sliced path.
    pub next_slice: usize,
}

/// A search to be sent to `/_search`.
pub struct Search {
    /// The slice it reads, on the sliced path.
    pub slice: Option<usize>,
    pub body: Json,
}

/// The part of a search body that names the slice.
pub open spec fn slice_fields(id: int, max: int) -> Fields {
    Map::<Seq<char>, JsonView>::empty().insert("id"@, JsonView::Number(NumberView::Int(id))).insert(
        "max"@,
        JsonView::Number(NumberView::Int(max)),
    )
}

/// The part of a search body that names the point in time.
pub open spec fn pit_fields(pit: Seq<char>) -> Fields {
    Map::<Seq<char>, JsonView>::empty().insert("id"@, JsonView::String(pit)).insert(
        "keep_alive"@,
        JsonView::String("5m"@),
    )
}

/// Sorted by _id, ascending.
pub open spec fn sort_order() -> JsonView {
    JsonView::Array(
        seq![
            JsonView::Object(
                Map::<Seq<char>, JsonView>::empty().insert("_id"@, JsonView::String("asc"@)),
            ),
        ],
    )
}

/// The body of a search: a page of documents behind a cursor, of the whole index
/// or of one slice.
pub open spec fn search_fields(
    size: int,
    query: JsonView,
    pit: Seq<char>,
    slice: Option<(int, int)>,
    after: Option<Seq<JsonView>>,
) -> Fields {
    let base = Map::<Seq<char>, JsonView>::empty().insert(
        "size"@,
        JsonView::Number(NumberView::Int(size)),
    ).insert("query"@, query).insert("sort"@, sort_order()).insert(
        "pit"@,
        JsonView::Object(pit_fields(pit)),
    ).insert("track_total_hits"@, JsonView::Bool(false));
    let sliced = match slice {
        Some((id, max)) => base.insert("slice"@, JsonView::Object(slice_fields(id, max))),
        None => base,
    };
    match after {
        Some(cursor) => sliced.insert("search_after"@, JsonView::Array(cursor)),
        None => sliced,
    }
}

/// The document of a hit. A hit without an id is no document.
pub open spec fn hit_document(hit: JsonView, index: Seq<char>) -> Option<DocumentView> {
    match json::as_text(json::field(hit, "_id"@)) {
        Some(id) => Some(
            DocumentView {
                index: match json::as_text(json::field(hit, "_index"@)) {
                    Some(i) => i,
                    None => index,
                },
                id,
                body: match json::field(hit, "_source"@) {
                    Some(body) => body,
                    None => JsonView::Null,
                },
            },
        ),
        None => None,
    }
}

/// The documents of the hits of a page, in order.
pub open spec fn hit_documents(hits: Seq<JsonView>, index: Seq<char>) -> Seq<DocumentView>
    decreases hits.len(),
{
    if hits.len() == 0 {
        Seq::empty()
    } else {
        let head = hit_documents(hits.drop_last(), index);
        match hit_document(hits.last(), index) {
            Some(d) => head.push(d),
            None => head,
        }
    }
}

/// The hits of a response page.
pub open spec fn page_hits(page: JsonView) -> Option<Seq<JsonView>> {
    match json::field(page, "hits"@) {
        Some(outer) => match json::field(outer, "hits"@) {
            Some(JsonView::Array(hits)) => Some(hits),
            _ => None,
        },
        None => None,
    }
}

/// The cursor behind the last hit of a page.
pub open spec fn hits_cursor(hits: Seq<JsonView>) -> Option<Seq<JsonView>> {
    match json::field(hits.last(), "sort"@) {
        Some(JsonView::Array(values)) => Some(values),
        _ => None,
    }
}

/// Where a slice, or the whole index, stands after a page of hits: drained where
/// the page is not full, and behind the last hit.
pub open spec fn turned(s: SliceView, hits: Seq<JsonView>, size: int) -> SliceView {
    if hits.len() == 0 {
        SliceView { after: s.after, exhausted: true }
    } else {
        SliceView {
            after: match hits_cursor(hits) {
                Some(c) => Some(c),
                None => s.after,
            },
            exhausted: s.exhausted || hits.len() < size,
        }
    }
}

/// The documents of the hits of a page.
fn documents_of(hits: &Vec<Json>, index: &str) -> (r: Vec<Document>)
    ensures
        crate::documents(r@) == hit_documents(json::array_view(hits@), index@),
{
    let n: usize = hits.len();
    let ghost all = json::array_view(hits@);
    let mut out: Vec<Document> = Vec::new();
    let mut i: usize = 0;
    proof {
        json::array_view_index(hits@);
        assert(all.take(0) =~= Seq::empty());
        assert(crate::documents(out@) =~= Seq::empty());
    }
    while i < n
        invariant
            n == hits@.len(),
            i <= n,
            all == json::array_view(hits@),
            all.len() == n,
            forall|k: int| 0 <= k < n ==> #[trigger] all[k] == hits@[k].view(),
            crate::documents(out@) == hit_documents(all.take(i as int), index@),
        decreases n - i,
    {
        let ghost before = out@;
        let hit = &hits[i];
        proof {
            assert(all[i as int] == hit.view());
            assert(all.take(i + 1).drop_last() =~= all.take(i as int));
            assert(all.take(i + 1).last() == hit.view());
        }
        if let Some(id) = hit.text_field("_id") {
            let own: String = match hit.text_field("_index") {
                Some(x) => x,
                None => index.to_owned(),
            };
            let body: Json = match hit.get("_source") {
                Some(b) => b.clone(),
                None => Json::Null,
            };
            let doc = Document { index: own, id, body };
            out.push(doc);
            assert(crate::documents(out@) =~= crate::documents(before).push(doc@));
        }
        i = i + 1;
    }
    assert(all.take(n as int) =~= all);
    out
}

impl OpenSearchSource {
    /// Where the whole index stands, on the single-slice path.
    pub open spec fn single(&self) -> SliceView {
        SliceView { after: json::opt_array(self.search_after), exhausted: self.exhausted }
    }

    /// Whether there is at least one slice, as many states as slices once the
    /// source is open, and a pointer into them.
    pub open spec fn wf(&self) -> bool {
        &&& self.slices >= 1
        &&& self.slice_state@.len() == 0 || self.slice_state@.len() == self.slices
        &&& self.next_slice < self.slice_state@.len() || self.next_slice == 0
    }

    /// Whether two sources are configured alike.
    pub open spec fn same_settings(&self, other: &OpenSearchSource) -> bool {
        &&& self.base_url == other.base_url
        &&& self.index == other.index
        &&& self.query == other.query
        &&& self.batch_size == other.batch_size
        &&& self.auth == other.auth
        &&& self.slices == other.slices
    }

    /// Build a source. `resume_after` seeds the `search_after` cursor from a
    /// prior checkpoint so a resumed run continues where it left off; pass
    /// `None` to start from the beginning.
    pub fn new(
        base_url: &str,
        index: &str,
        query: Json,
        batch_size: usize,
        auth: Auth,
        resume_after: Option<Vec<Json>>,
    ) -> (r: Result<OpenSearchSource, EsiftError>)
        ensures
            r matches Ok(s) && {
                &&& s.base_url@ == base_url@
                &&& s.index@ == index@
                &&& s.query == query
                &&& s.batch_size == batch_size
                &&& s.auth == auth
                &&& s.search_after == resume_after
                &&& s.pit_id is None
                &&& !s.exhausted
                &&& s.flavor == ApiFlavor::Unknown
                &&& s.slices == 1
                &&& s.slice_state@.len() == 0
                &&& s.next_slice == 0
                &&& s.wf()
            },
    {
        Ok(
            OpenSearchSource {
                base_url: base_url.to_owned(),
                index: index.to_owned(),
                query,
                batch_size,
                auth,
                pit_id: None,
                search_after: resume_after,
                exhausted: false,
                flavor: ApiFlavor::Unknown,
                slices: 1,
                slice_state: Vec::new(),
                next_slice: 0,
            },
        )
    }

    /// Set the number of parallel extraction slices (sliced PIT). Values below
    /// 1 are treated as 1.
    pub fn with_slices(self, slices: usize) -> (r: OpenSearchSource)
        ensures
            r == (OpenSearchSource {
                slices: if slices >= 1 {
                    slices
                } else {
                    1
                },
                ..self
            }),
    {
        let count: usize = if slices >= 1 {
            slices
        } else {
            1
        };
        OpenSearchSource { slices: count, ..self }
    }

    /// Where the slices stand after seeding: restored from a sliced cursor of as
    /// many slices, fresh otherwise.
    pub open spec fn seeded_slices(&self) -> Seq<SliceView> {
        match self.restored() {
            Some(s) => s,
            None => Seq::new(self.slices as nat, |i: int| fresh_slice()),
        }
    }

    /// What a sliced checkpoint cursor restores.
    pub open spec fn restored(&self) -> Option<Seq<SliceView>> {
        match json::opt_array(self.search_after) {
            Some(cursor) => if sliced_encoding(cursor) {
                decoded_slices(cursor, self.slices as int)
            } else {
                None
            },
            None => None,
        }
    }

    /// Prepare the cursors after the PIT is established. For the sliced path this
    /// allocates one cursor per slice and, when the checkpoint carries a
    /// sliced-resume encoding, restores each slice's `search_after` and
    /// exhaustion so the run continues where it left off. For the single-slice
    /// path it discards an incompatible sliced encoding (e.g. a run that dropped
    /// from many slices to one) and starts fresh.
    pub fn seed_cursors(&mut self)
        requires
            old(self).wf(),
        ensures
            final(self).wf(),
            final(self).same_settings(old(self)),
            final(self).pit_id == old(self).pit_id,
            final(self).flavor == old(self).flavor,
            old(self).slices > 1 ==> {
                &&& slices_view(final(self).slice_state@) == old(self).seeded_slices()
                &&& final(self).next_slice == 0
                &&& final(self).search_after is None
                &&& final(self).exhausted == (old(self).exhausted || (
                old(self).restored() is Some && all_drained(old(self).seeded_slices())))
            },
            old(self).slices == 1 ==> {
                &&& final(self).slice_state == old(self).slice_state
                &&& final(self).next_slice == old(self).next_slice
                &&& final(self).exhausted == old(self).exhausted
                &&& json::opt_array(final(self).search_after) == match json::opt_array(
                    old(self).search_after,
                ) {
                    Some(c) => if sliced_encoding(c) {
                        None
                    } else {
                        Some(c)
                    },
                    None => None,
                }
            },
    {
        let sliced: bool = match &self.search_after {
            Some(c) => is_sliced_encoding(c),
            None => false,
        };
        if self.slices > 1 {
            let decoded: Option<Vec<SliceState>> = if sliced {
                match &self.search_after {
                    Some(c) => decode_slice_cursors(c, self.slices),
                    None => None,
                }
            } else {
                None
            };
            match decoded {
                Some(states) => {
                    if drained(&states) {
                        self.exhausted = true;
                    }
                    self.slice_state = states;
                    assert(slices_view(self.slice_state@).len() == self.slice_state@.len());
                },
                None => {
                    self.slice_state = fresh_slices(self.slices);
                },
            }
            self.next_slice = 0;
            // A single-slice cursor is meaningless in sliced mode.
            self.search_after = None;
        } else if sliced {
            self.search_after = None;
        }
    }
}

/// Whether every slice is drained.
fn drained(states: &Vec<SliceState>) -> (r: bool)
    ensures
        r == all_drained(slices_view(states@)),
{
    let n: usize = states.len();
    let mut i: usize = 0;
    while i < n
        invariant
            n == states@.len(),
            i <= n,
            forall|k: int| 0 <= k < i ==> (#[trigger] slices_view(states@)[k]).exhausted,
        decreases n - i,
    {
        assert(slices_view(states@)[i as int] == states@[i as int]@);
        if !states[i].exhausted {
            return false;
        }
        i = i + 1;
    }
    true
}

/// Slices of which nothing has been read.
fn fresh_slices(count: usize) -> (r: Vec<SliceState>)
    ensures
        r@.len() == count,
        slices_view(r@) == Seq::new(count as nat, |i: int| fresh_slice()),
{
    let mut out: Vec<SliceState> = Vec::new();
    let mut i: usize = 0;
    while i < count
        invariant
            i <= count,
            out@.len() == i,
            forall|k: int| 0 <= k < i ==> (#[trigger] out@[k])@ == fresh_slice(),
        decreases count - i,
    {
        out.push(SliceState { search_after: None, exhausted: false });
        i = i + 1;
    }
    assert(slices_view(out@) =~= Seq::new(count as nat, |i: int| fresh_slice()));
    out
}

proof fn turn_of(at: int, n: int)
    requires
        0 <= at < n,
    ensures
        (at + 1) % n == if at + 1 < n {
            at + 1
        } else {
            0
        },
{
    if at + 1 < n {
        vstd::arithmetic::div_mod::lemma_small_mod((at + 1) as nat, n as nat);
    } else {
        vstd::arithmetic::div_mod::lemma_mod_self_0(n);
    }
}

/// The first slice that is not drained, in turn from `start` on.
fn pick_slice(states: &Vec<SliceState>, start: usize) -> (r: Option<usize>)
    requires
        start < states@.len() || states@.len() == 0,
    ensures
        match r {
            Some(i) => i < states@.len() && next_live(
                slices_view(states@),
                start as int,
                states@.len() as int,
            ) == Some(i as int),
            None => next_live(slices_view(states@), start as int, states@.len() as int) is None,
        },
{
    let n: usize = states.len();
    let ghost s = slices_view(states@);
    let mut at: usize = start;
    let mut left: usize = n;
    while left > 0
        invariant
            n == states@.len(),
            s == slices_view(states@),
            left <= n,
            n > 0 ==> at < n,
            next_live(s, at as int, left as int) == next_live(s, start as int, n as int),
        decreases left,
    {
        assert(s[at as int] == states@[at as int]@);
        if !states[at].exhausted {
            return Some(at);
        }
        let next: usize = if at + 1 < n {
            at + 1
        } else {
            0
        };
        proof {
            turn_of(at as int, n as int);
        }
        at = next;
        left = left - 1;
    }
    None
}

impl OpenSearchSource {
    /// Build the body of a search.
    pub fn search_body(&self, pit: &str, slice: Option<usize>, after: &Option<Vec<Json>>) -> (r: Json)
        ensures
            r.view() == JsonView::Object(
                search_fields(
                    self.batch_size as int,
                    self.query.view(),
                    pit@,
                    match slice {
                        Some(i) => Some((i as int, self.slices as int)),
                        None => None,
                    },
                    json::opt_array(*after),
                ),
            ),
    {
        let mut order: Vec<(String, Json)> = Vec::new();
        json::put(&mut order, "_id", Json::String("asc".to_owned()));
        let sort: Vec<Json> = vec![Json::Object(order)];
        proof {
            json::array_view_index(sort@);
            assert(JsonView::Array(json::array_view(sort@)) == sort_order()) by {
                assert(json::array_view(sort@) =~= sort_order()->Array_0);
            }
        }
        let mut point: Vec<(String, Json)> = Vec::new();
        json::put(&mut point, "id", Json::String(pit.to_owned()));
        json::put(&mut point, "keep_alive", Json::String("5m".to_owned()));
        let mut body: Vec<(String, Json)> = Vec::new();
        json::put(&mut body, "size", Json::Number(JsonNumber::Unsigned(self.batch_size as u64)));
        json::put(&mut body, "query", self.query.clone());
        json::put(&mut body, "sort", Json::Array(sort));
        json::put(&mut body, "pit", Json::Object(point));
        json::put(&mut body, "track_total_hits", Json::Bool(false));
        if let Some(i) = slice {
            let mut part: Vec<(String, Json)> = Vec::new();
            json::put(&mut part, "id", Json::Number(JsonNumber::Unsigned(i as u64)));
            json::put(&mut part, "max", Json::Number(JsonNumber::Unsigned(self.slices as u64)));
            json::put(&mut body, "slice", Json::Object(part));
        }
        if let Some(cursor) = after {
            json::put(&mut body, "search_after", Json::Array(json::clone_items(cursor)));
        }
        Json::Object(body)
    }

    /// The slice that the next search reads: the first one in turn that is not
    /// drained.
    pub open spec fn next_live_slice(&self) -> Option<int> {
        next_live(
            slices_view(self.slice_state@),
            self.next_slice as int,
            self.slice_state@.len() as int,
        )
    }

    /// Whether there is nothing left to read.
    pub open spec fn finished(&self) -> bool {
        self.exhausted || (self.slices > 1 && self.next_live_slice() is None)
    }

    /// The next search to send, or nothing once everything is read. Slices take
    /// turns; the run is exhausted only once every slice has drained.
    pub fn next_search(&mut self) -> (r: Result<Option<Search>, EsiftError>)
        requires
            old(self).wf(),
        ensures
            final(self).wf(),
            final(self).same_settings(old(self)),
            final(self).pit_id == old(self).pit_id,
            final(self).search_after == old(self).search_after,
            final(self).flavor == old(self).flavor,
            final(self).slice_state == old(self).slice_state,
            final(self).exhausted == old(self).finished(),
            final(self).next_slice == if old(self).finished() || old(self).slices == 1 {
                old(self).next_slice as int
            } else {
                (old(self).next_live_slice()->0 + 1) % (old(self).slice_state@.len() as int)
            },
            match r {
                Ok(None) => old(self).finished(),
                Ok(Some(s)) => {
                    &&& !old(self).finished()
                    &&& old(self).pit_id matches Some(pit)
                    &&& if old(self).slices > 1 {
                        &&& s.slice matches Some(i)
                        &&& old(self).next_live_slice() == Some(i as int)
                        &&& i < old(self).slice_state@.len()
                        &&& s.body.view() == JsonView::Object(
                            search_fields(
                                old(self).batch_size as int,
                                old(self).query.view(),
                                pit@,
                                Some((i as int, old(self).slices as int)),
                                old(self).slice_state@[i as int]@.after,
                            ),
                        )
                    } else {
                        &&& s.slice is None
                        &&& s.body.view() == JsonView::Object(
                            search_fields(
                                old(self).batch_size as int,
                                old(self).query.view(),
                                pit@,
                                None,
                                json::opt_array(old(self).search_after),
                            ),
                        )
                    }
                },
                Err(e) => {
                    &&& !old(self).finished()
                    &&& old(self).pit_id is None
                    &&& e is Source
                    &&& e.detail() == "Call open() before next_batch()"@
                },
            },
    {
        if self.exhausted {
            return Ok(None);
        }
        let mut slice: Option<usize> = None;
        if self.slices > 1 {
            slice = pick_slice(&self.slice_state, self.next_slice);
            match slice {
                Some(i) => {
                    let n: usize = self.slice_state.len();
                    self.next_slice = if i + 1 < n {
                        i + 1
                    } else {
                        0
                    };
                    proof {
                        turn_of(i as int, n as int);
                    }
                },
                None => {
                    self.exhausted = true;
                    return Ok(None);
                },
            }
        }
        match &self.pit_id {
            Some(pit) => {
                let body: Json = match slice {
                    Some(i) => self.search_body(
                        pit.as_str(),
                        slice,
                        &self.slice_state[i].search_after,
                    ),
                    None => self.search_body(pit.as_str(), slice, &self.search_after),
                };
                Ok(Some(Search { slice, body }))
            },
            None => Err(EsiftError::Source("Call open() before next_batch()".to_owned())),
        }
    }

    /// Takes in the page that answered a search of `slice`, or of the whole
    /// index. Gives its documents, or nothing where it has no hits; then the
    /// slice is drained, and the next search is asked for.
    ///
    /// The server may rotate the PIT id; the latest one counts.
    pub fn on_page(&mut self, slice: Option<usize>, page: &Json) -> (r: Result<
        Option<Vec<Document>>,
        EsiftError,
    >)
        requires
            old(self).wf(),
            slice matches Some(i) ==> i < old(self).slice_state@.len(),
        ensures
            final(self).wf(),
            final(self).same_settings(old(self)),
            final(self).flavor == old(self).flavor,
            final(self).next_slice == old(self).next_slice,
            text::opt_text(final(self).pit_id) == match json::as_text(
                json::field(page.view(), "pit_id"@),
            ) {
                Some(p) => Some(p),
                None => text::opt_text(old(self).pit_id),
            },
            match r {
                Err(e) => page_hits(page.view()) is None && e is Source && e.detail()
                    == "Response missing hits.hits"@,
                Ok(None) => page_hits(page.view()) matches Some(hits) && hits.len() == 0,
                Ok(Some(docs)) => page_hits(page.view()) matches Some(hits) && hits.len() > 0
                    && crate::documents(docs@) == hit_documents(hits, old(self).index@),
            },
            match page_hits(page.view()) {
                Some(hits) => match slice {
                    Some(i) => {
                        &&& final(self).single() == old(self).single()
                        &&& slices_view(final(self).slice_state@) == slices_view(
                            old(self).slice_state@,
                        ).update(
                            i as int,
                            turned(
                                old(self).slice_state@[i as int]@,
                                hits,
                                old(self).batch_size as int,
                            ),
                        )
                    },
                    None => {
                        &&& final(self).slice_state == old(self).slice_state
                        &&& final(self).single() == turned(
                            old(self).single(),
                            hits,
                            old(self).batch_size as int,
                        )
                    },
                },
                None => final(self).single() == old(self).single() && final(self).slice_state
                    == old(self).slice_state,
            },
    {
        if let Some(p) = page.text_field("pit_id") {
            self.pit_id = Some(p);
        }
        let hits: Option<&Vec<Json>> = match page.get("hits") {
            Some(outer) => match outer.get("hits") {
                Some(Json::Array(h)) => Some(h),
                _ => None,
            },
            None => None,
        };
        match hits {
            Some(h) => {
                proof {
                    json::array_view_index(h@);
                }
                let n: usize = h.len();
                let docs = documents_of(h, self.index.as_str());
                let next: Option<Vec<Json>> = if n > 0 {
                    match h[n - 1].get("sort") {
                        Some(Json::Array(c)) => Some(json::clone_items(c)),
                        _ => None,
                    }
                } else {
                    None
                };
                let short: bool = n == 0 || n < self.batch_size;
                match slice {
                    Some(i) => {
                        let mut state = self.slice_state[i].clone();
                        if short {
                            state.exhausted = true;
                        }
                        if next.is_some() {
                            state.search_after = next;
                        }
                        let ghost before = slices_view(self.slice_state@);
                        self.slice_state.set(i, state);
                        assert(slices_view(self.slice_state@) =~= before.update(i as int, state@));
                    },
                    None => {
                        if short {
                            self.exhausted = true;
                        }
                        if next.is_some() {
                            self.search_after = next;
                        }
                    },
                }
                if n == 0 {
                    Ok(None)
                } else {
                    Ok(Some(docs))
                }
            },
            None => Err(EsiftError::Source("Response missing hits.hits".to_owned())),
        }
    }
}

// ---------------------------------------------------------------------------
// Opening and closing
// ---------------------------------------------------------------------------

/// The URL of a request: the base URL and the path, with one slash between them
/// where the path has none.
pub open spec fn joined_url(base: Seq<char>, path: Seq<char>) -> Seq<char> {
    if path.len() > 0 && path[0] == '/' {
        base + path
    } else {
        base + "/"@ + path
    }
}

/// What to do with a response to a request for a point in time.
#[derive(Debug, Clone, Copy, PartialEq, Eq, Structural)]
pub enum PitVerdict {
    /// Opened: the body holds the id.
    Opened,
    /// OpenSearch's path is unknown here: try Elasticsearch's.
    Fallback,
    /// Refused: report the status and the body.
    Refused,
}

/// What a response to a request for a point in time asks for. `fallback` tells
/// whether it went to Elasticsearch's path already.
pub fn judge_pit(fallback: bool, status: u16) -> (r: PitVerdict)
    ensures
        r == if http::is_success(status) {
            PitVerdict::Opened
        } else if !fallback && (status == 404 || status == 405) {
            PitVerdict::Fallback
        } else {
            PitVerdict::Refused
        },
{
    if http::success(status) {
        PitVerdict::Opened
    } else if !fallback && (status == 404 || status == 405) {
        PitVerdict::Fallback
    } else {
        PitVerdict::Refused
    }
}

/// The error of a refused point in time.
pub fn pit_refused(fallback: bool, status: u16, body: &str) -> (r: EsiftError)
    requires
        100 <= status <= 999,
    ensures
        r is Source,
        r.detail() == http::failure_text(
            if fallback {
                "PIT open failed (ES fallback)"@
            } else {
                "PIT open failed"@
            },
            status,
            body@,
        ),
{
    if fallback {
        EsiftError::Source(http::failure("PIT open failed (ES fallback)", status, body))
    } else {
        EsiftError::Source(http::failure("PIT open failed", status, body))
    }
}

/// The error of a refused search.
pub fn search_failed(status: u16, body: &str) -> (r: EsiftError)
    requires
        100 <= status <= 999,
    ensures
        r is Source,
        r.detail() == http::failure_text("Search failed"@, status, body@),
{
    EsiftError::Source(http::failure("Search failed", status, body))
}

/// The request that releases a point in time.
pub struct CloseRequest {
    pub path: String,
    pub body: Json,
}

/// The body that releases a point in time.
pub open spec fn close_body(flavor: ApiFlavor, pit: Seq<char>) -> JsonView {
    match flavor {
        ApiFlavor::Elasticsearch => JsonView::Object(
            Map::<Seq<char>, JsonView>::empty().insert("id"@, JsonView::String(pit)),
        ),
        _ => JsonView::Object(
            Map::<Seq<char>, JsonView>::empty().insert(
                "pit_id"@,
                JsonView::Array(seq![JsonView::String(pit)]),
            ),
        ),
    }
}

/// The path that releases a point in time.
pub open spec fn close_path(flavor: ApiFlavor) -> Seq<char> {
    match flavor {
        ApiFlavor::Elasticsearch => "/_pit"@,
        _ => "/_search/point_in_time"@,
    }
}

impl OpenSearchSource {
    /// The URL of a request to the cluster.
    pub fn request_url(&self, path: &str) -> (r: Result<String, EsiftError>)
        ensures
            match http::url_parsed(joined_url(self.base_url@, path@)) {
                Ok(_) => r matches Ok(u) && u@ == joined_url(self.base_url@, path@),
                Err(words) => r matches Err(e) && e is Source && e.detail() == "Invalid URL: "@
                    + words,
            },
    {
        let cs = text::chars_of(path);
        let url: String = if cs.len() > 0 && cs[0] == '/' {
            text::join2(self.base_url.as_str(), path)
        } else {
            text::join3(self.base_url.as_str(), "/", path)
        };
        match http::parse_url(url.as_str()) {
            Ok(_) => Ok(url),
            Err(e) => Err(EsiftError::Source(text::join2("Invalid URL: ", e.as_str()))),
        }
    }

    /// The path that opens a point in time: OpenSearch's first, Elasticsearch's
    /// as the fallback.
    pub fn pit_path(&self, fallback: bool) -> (r: String)
        ensures
            r@ == "/"@ + self.index@ + (if fallback {
                "/_pit?keep_alive=5m"@
            } else {
                "/_search/point_in_time?keep_alive=5m"@
            }),
    {
        if fallback {
            text::join3("/", self.index.as_str(), "/_pit?keep_alive=5m")
        } else {
            text::join3("/", self.index.as_str(), "/_search/point_in_time?keep_alive=5m")
        }
    }

    /// Takes in the body of a response that opened a point in time: remembers its
    /// id and which API gave it, and prepares the cursors.
    pub fn on_pit(&mut self, fallback: bool, body: &Json) -> (r: Result<(), EsiftError>)
        requires
            old(self).wf(),
        ensures
            final(self).wf(),
            final(self).same_settings(old(self)),
            ({
                let key = if fallback {
                    "id"@
                } else {
                    "pit_id"@
                };
                match json::as_text(json::field(body.view(), key)) {
                    Some(pit) => {
                        &&& r is Ok
                        &&& text::opt_text(final(self).pit_id) == Some(pit)
                        &&& final(self).flavor == if fallback {
                            ApiFlavor::Elasticsearch
                        } else {
                            ApiFlavor::OpenSearch
                        }
                        &&& old(self).slices > 1 ==> {
                            &&& slices_view(final(self).slice_state@) == old(self).seeded_slices()
                            &&& final(self).next_slice == 0
                            &&& final(self).search_after is None
                            &&& final(self).exhausted == (old(self).exhausted || (
                            old(self).restored() is Some && all_drained(
                                old(self).seeded_slices(),
                            )))
                        }
                        &&& old(self).slices == 1 ==> {
                            &&& final(self).slice_state == old(self).slice_state
                            &&& final(self).next_slice == old(self).next_slice
                            &&& final(self).exhausted == old(self).exhausted
                            &&& json::opt_array(final(self).search_after) == match json::opt_array(
                                old(self).search_after,
                            ) {
                                Some(c) => if sliced_encoding(c) {
                                    None
                                } else {
                                    Some(c)
                                },
                                None => None,
                            }
                        }
                    },
                    None => {
                        &&& r matches Err(e)
                        &&& e is Source
                        &&& e.detail() == if fallback {
                            "PIT response missing 'id'"@
                        } else {
                            "PIT response missing 'pit_id'"@
                        }
                        &&& *final(self) == *old(self)
                    },
                }
            }),
    {
        let pit: Option<String> = if fallback {
            body.text_field("id")
        } else {
            body.text_field("pit_id")
        };
        if pit.is_none() {
            return Err(
                EsiftError::Source(
                    if fallback {
                        "PIT response missing 'id'".to_owned()
                    } else {
                        "PIT response missing 'pit_id'".to_owned()
                    },
                ),
            );
        }
        self.pit_id = pit;
        self.flavor = if fallback {
            ApiFlavor::Elasticsearch
        } else {
            ApiFlavor::OpenSearch
        };
        self.seed_cursors();
        Ok(())
    }

    /// The request that releases the point in time, where one is open. It is
    /// asked for once: the source then holds none.
    pub fn close_request(&mut self) -> (r: Option<CloseRequest>)
        ensures
            final(self).same_settings(old(self)),
            final(self).pit_id is None,
            final(self).slice_state == old(self).slice_state,
            final(self).search_after == old(self).search_after,
            final(self).exhausted == old(self).exhausted,
            final(self).next_slice == old(self).next_slice,
            final(self).flavor == old(self).flavor,
            match old(self).pit_id {
                Some(pit) => r matches Some(c) && c.path@ == close_path(old(self).flavor)
                    && c.body.view() == close_body(old(self).flavor, pit@),
                None => r is None,
            },
    {
        let mut held: Option<String> = None;
        std::mem::swap(&mut held, &mut self.pit_id);
        match held {
            Some(pit) => {
                let mut body: Vec<(String, Json)> = Vec::new();
                match self.flavor {
                    ApiFlavor::Elasticsearch => {
                        json::put(&mut body, "id", Json::String(pit));
                        Some(CloseRequest { path: "/_pit".to_owned(), body: Json::Object(body) })
                    },
                    _ => {
                        let ids: Vec<Json> = vec![Json::String(pit)];
                        proof {
                            json::array_view_index(ids@);
                            assert(json::array_view(ids@) =~= seq![JsonView::String(pit@)]);
                        }
                        json::put(&mut body, "pit_id", Json::Array(ids));
                        Some(
                            CloseRequest {
                                path: "/_search/point_in_time".to_owned(),
                                body: Json::Object(body),
                            },
                        )
                    },
                }
            },
            None => None,
        }
    }

    /// The resume cursor. On the sliced path it encodes every slice's cursor and
    /// exhaustion into one opaque value, so the checkpoint can persist it like
    /// any other cursor; nothing before the slices are initialized.
    pub fn cursor(&self) -> (r: Option<Vec<Json>>)
        ensures
            json::opt_array(r) == if self.slices > 1 {
                if self.slice_state@.len() == 0 {
                    None
                } else {
                    Some(encoded_slices(slices_view(self.slice_state@), self.slices as int))
                }
            } else {
                json::opt_array(self.search_after)
            },
    {
        if self.slices > 1 {
            let n: usize = self.slice_state.len();
            if n == 0 {
                return None;
            }
            let ghost views = slices_view(self.slice_state@);
            let mut cursors: Vec<Json> = Vec::new();
            let mut i: usize = 0;
            while i < n
                invariant
                    n == self.slice_state@.len(),
                    i <= n,
                    cursors@.len() == i,
                    forall|k: int|
                        0 <= k < i ==> (#[trigger] cursors@[k]).view() == slice_entry(
                            self.slice_state@[k]@,
                        ),
                decreases n - i,
            {
                let mut entry: Vec<(String, Json)> = Vec::new();
                match &self.slice_state[i].search_after {
                    Some(a) => {
                        json::put(&mut entry, "after", Json::Array(json::clone_items(a)));
                    },
                    None => {
                        json::put(&mut entry, "after", Json::Null);
                    },
                }
                json::put(&mut entry, "done", Json::Bool(self.slice_state[i].exhausted));
                cursors.push(Json::Object(entry));
                i = i + 1;
            }
            proof {
                json::array_view_index(cursors@);
                assert(json::array_view(cursors@) =~= views.map_values(
                    |x: SliceView| slice_entry(x),
                ));
            }
            let mut marked: Vec<(String, Json)> = Vec::new();
            json::put(
                &mut marked,
                "__esift_slices",
                Json::Number(JsonNumber::Unsigned(self.slices as u64)),
            );
            json::put(&mut marked, "cursors", Json::Array(cursors));
            let blob: Vec<Json> = vec![Json::Object(marked)];
            proof {
                json::array_view_index(blob@);
                assert(json::array_view(blob@) =~= encoded_slices(views, self.slices as int));
            }
            return Some(blob);
        }
        json::clone_opt_items(&self.search_after)
    }

    /// Human-readable label.
    pub fn description(&self) -> (r: String)
        ensures
            r@ == "OpenSearch "@ + self.base_url@ + " index="@ + self.index@ + " slices="@
                + number::decimal_text(self.slices as int),
    {
        let mut out = text::join4(
            "OpenSearch ",
            self.base_url.as_str(),
            " index=",
            self.index.as_str(),
        );
        text::append_text(&mut out, " slices=");
        text::append_text(&mut out, number::decimal(self.slices as u64).as_str());
        out
    }
}

// ---------------------------------------------------------------------------
// Laws
// ---------------------------------------------------------------------------

/// A sliced cursor gives back, to a run with as many slices, where every slice
/// stood.
pub proof fn slices_read_back(s: Seq<SliceView>)
    ensures
        sliced_encoding(encoded_slices(s, s.len() as int)),
        decoded_slices(encoded_slices(s, s.len() as int), s.len() as int) == Some(s),
{
    marker_apart();
    reveal_strlit("after");
    reveal_strlit("done");
    assert("after"@.len() != "done"@.len());
    let entries = s.map_values(|x: SliceView| slice_entry(x));
    assert forall|i: int| 0 <= i < s.len() implies #[trigger] entry_slice(entries[i]) == s[i] by {
        assert(entries[i] == slice_entry(s[i]));
    }
    assert(entries.map_values(|e: JsonView| entry_slice(e)) =~= s);
}

proof fn marker_apart()
    ensures
        "__esift_slices"@ != "cursors"@,
{
    reveal_strlit("__esift_slices");
    reveal_strlit("cursors");
    assert("__esift_slices"@.len() != "cursors"@.len());
}

/// A cursor that was written with another number of slices restores nothing: the
/// run starts fresh.
pub proof fn other_slice_counts_start_fresh(s: Seq<SliceView>, slices: int)
    requires
        slices != s.len(),
    ensures
        decoded_slices(encoded_slices(s, s.len() as int), slices) is None,
{
    marker_apart();
}

/// A resumed run continues where the slices stood: a source with as many slices,
/// made with the cursor of another, is seeded with that one's slices.
pub proof fn resumed_slices_continue(from: OpenSearchSource, to: OpenSearchSource)
    requires
        from.wf(),
        from.slice_state@.len() > 0,
        to.slices == from.slices,
        json::opt_array(to.search_after) == Some(
            encoded_slices(slices_view(from.slice_state@), from.slices as int),
        ),
    ensures
        to.seeded_slices() == slices_view(from.slice_state@),
{
    slices_read_back(slices_view(from.slice_state@));
}

/// A cursor of `sort` values, none of which is an object, is never taken for a
/// sliced one.
pub proof fn sort_values_are_no_slices(cursor: Seq<JsonView>)
    requires
        forall|i: int| 0 <= i < cursor.len() ==> !(#[trigger] cursor[i] is Object),
    ensures
        !sliced_encoding(cursor),
{
}

/// Slices take turns without losing one: as long as some slice is not drained,
/// one that is not is found; and none is found only once all are drained.
pub proof fn live_slices_are_found(s: Seq<SliceView>, start: int)
    requires
        0 <= start < s.len(),
    ensures
        next_live(s, start, s.len() as int) is None <==> all_drained(s),
        next_live(s, start, s.len() as int) matches Some(i) ==> 0 <= i < s.len() && !s[i].exhausted,
{
    let n = s.len() as int;
    scan(s, start, n);
    if next_live(s, start, n) is None {
        assert forall|i: int| 0 <= i < n implies (#[trigger] s[i]).exhausted by {
            let k = if i >= start {
                i - start
            } else {
                i - start + n
            };
            assert((start + k) % n == i) by {
                if i >= start {
                    vstd::arithmetic::div_mod::lemma_small_mod(i as nat, n as nat);
                } else {
                    assert(start + k == i + n);
                    vstd::arithmetic::div_mod::lemma_mod_add_multiples_vanish(i, n);
                    vstd::arithmetic::div_mod::lemma_small_mod(i as nat, n as nat);
                }
            }
            assert(s[(start + k) % n].exhausted);
        }
    }
}

proof fn scan(s: Seq<SliceView>, start: int, left: int)
    requires
        0 <= start < s.len(),
        0 <= left,
    ensures
        next_live(s, start, left) matches Some(i) ==> 0 <= i < s.len() && !s[i].exhausted,
        next_live(s, start, left) is None ==> forall|k: int|
            0 <= k < left ==> (#[trigger] s[(start + k) % s.len() as int]).exhausted,
    decreases left,
{
    let n = s.len() as int;
    if left > 0 && s[start].exhausted {
        let next = (start + 1) % n;
        vstd::arithmetic::div_mod::lemma_mod_bound(start + 1, n);
        scan(s, next, left - 1);
        if next_live(s, start, left) is None {
            assert forall|k: int| 0 <= k < left implies (#[trigger] s[(start + k)
                % n]).exhausted by {
                if k == 0 {
                    vstd::arithmetic::div_mod::lemma_small_mod(start as nat, n as nat);
                } else {
                    vstd::arithmetic::div_mod::lemma_add_mod_noop(start + 1, k - 1, n);
                    vstd::arithmetic::div_mod::lemma_add_mod_noop(next, k - 1, n);
                    vstd::arithmetic::div_mod::lemma_mod_twice(start + 1, n);
                    assert((next + (k - 1)) % n == (start + k) % n);
                    assert(s[(next + (k - 1)) % n].exhausted);
                }
            }
        }
    }
}

/// Whether a page drains what it is a page of.
pub open spec fn drains(hits: Seq<JsonView>, size: int) -> bool {
    hits.len() == 0 || hits.len() < size
}

/// The cursor with which page `j` is asked for: none for the first page, and for
/// a later one the cursor behind the page before it.
pub open spec fn asked_with(pages: Seq<Seq<JsonView>>, j: int) -> Option<Seq<JsonView>> {
    if j == 0 {
        None
    } else {
        hits_cursor(pages[j - 1])
    }
}

/// Whether a server holds `pages`, as lists of hits, for a slice or for the whole
/// index: whatever the point in time is called, it answers each page when asked
/// with that page's cursor, the last page is the only one that drains, and every
/// other one ends in a hit with a cursor.
pub open spec fn serves(
    server: spec_fn(JsonView) -> JsonView,
    size: int,
    query: JsonView,
    slice: Option<(int, int)>,
    pages: Seq<Seq<JsonView>>,
) -> bool {
    &&& pages.len() > 0
    &&& forall|pit: Seq<char>, j: int|
        0 <= j < pages.len() ==> page_hits(
            #[trigger] server(
                JsonView::Object(search_fields(size, query, pit, slice, asked_with(pages, j))),
            ),
        ) == Some(pages[j])
    &&& forall|j: int|
        0 <= j < pages.len() ==> (drains(#[trigger] pages[j], size) <==> j == pages.len() - 1)
    &&& forall|j: int| 0 <= j < pages.len() - 1 ==> hits_cursor(#[trigger] pages[j]) is Some
}

/// The documents of pages, in order.
pub open spec fn page_documents(pages: Seq<Seq<JsonView>>, index: Seq<char>) -> Seq<DocumentView> {
    pages.map_values(|hits: Seq<JsonView>| hit_documents(hits, index)).flatten()
}

proof fn page_documents_step(pages: Seq<Seq<JsonView>>, j: int, index: Seq<char>)
    requires
        0 <= j < pages.len(),
    ensures
        page_documents(pages.skip(j), index) == hit_documents(pages[j], index) + page_documents(
            pages.skip(j + 1),
            index,
        ),
{
    let f = |hits: Seq<JsonView>| hit_documents(hits, index);
    assert(pages.skip(j).map_values(f).drop_first() =~= pages.skip(j + 1).map_values(f));
}

/// The PIT id after a page: the page's own, if it names one.
pub open spec fn rotated(pit: Seq<char>, page: JsonView) -> Seq<char> {
    match json::as_text(json::field(page, "pit_id"@)) {
        Some(p) => p,
        None => pit,
    }
}

/// The batches of a run over the whole index that makes at most so many
/// searches, and where it then stands.
pub open spec fn run(
    server: spec_fn(JsonView) -> JsonView,
    size: int,
    query: JsonView,
    index: Seq<char>,
    s: SliceView,
    pit: Seq<char>,
    searches: nat,
) -> (Seq<Seq<DocumentView>>, SliceView)
    decreases searches,
{
    if searches == 0 || s.exhausted {
        (Seq::empty(), s)
    } else {
        let page = server(JsonView::Object(search_fields(size, query, pit, None, s.after)));
        match page_hits(page) {
            Some(hits) => {
                let (rest, end) = run(
                    server,
                    size,
                    query,
                    index,
                    turned(s, hits, size),
                    rotated(pit, page),
                    (searches - 1) as nat,
                );
                (
                    if hits.len() > 0 {
                        seq![hit_documents(hits, index)] + rest
                    } else {
                        rest
                    },
                    end,
                )
            },
            None => (Seq::empty(), s),
        }
    }
}

/// A run over the whole index reads what is left of it: against a server that
/// holds finitely many pages, a source that stands before page `j` gives the
/// documents of that page and of every later one, each page once and in order.
/// As many searches as pages drain the source, and no later one adds anything.
pub proof fn runs_read_the_rest(
    server: spec_fn(JsonView) -> JsonView,
    size: int,
    query: JsonView,
    index: Seq<char>,
    s: SliceView,
    pit: Seq<char>,
    pages: Seq<Seq<JsonView>>,
    j: int,
    searches: nat,
)
    requires
        serves(server, size, query, None, pages),
        0 <= j <= pages.len(),
        s.exhausted == (j == pages.len()),
        !s.exhausted ==> s.after == asked_with(pages, j),
        searches >= pages.len() - j,
    ensures
        ({
            let (out, end) = run(server, size, query, index, s, pit, searches);
            &&& out.flatten() == page_documents(pages.skip(j), index)
            &&& end.exhausted
        }),
    decreases pages.len() - j,
{
    if j == pages.len() {
        assert(pages.skip(j).map_values(
            |hits: Seq<JsonView>| hit_documents(hits, index),
        ) =~= Seq::empty());
    } else {
        let page = server(JsonView::Object(search_fields(size, query, pit, None, s.after)));
        let hits = pages[j];
        assert(page_hits(page) == Some(hits));
        let next = turned(s, hits, size);
        assert(drains(hits, size) <==> j == pages.len() - 1);
        runs_read_the_rest(
            server,
            size,
            query,
            index,
            next,
            rotated(pit, page),
            pages,
            j + 1,
            (searches - 1) as nat,
        );
        let (rest, end) = run(
            server,
            size,
            query,
            index,
            next,
            rotated(pit, page),
            (searches - 1) as nat,
        );
        page_documents_step(pages, j, index);
        let docs = hit_documents(hits, index);
        if hits.len() > 0 {
            assert((seq![docs] + rest).drop_first() =~= rest);
        } else {
            assert(docs + rest.flatten() =~= rest.flatten());
        }
    }
}

/// A sliced run: where its slices stand, whose turn it is, and the PIT id.
pub struct Sliced {
    pub slices: Seq<SliceView>,
    pub next: int,
    pub pit: Seq<char>,
}

impl OpenSearchSource {
    /// Where a sliced run stands.
    pub open spec fn sliced(&self) -> Sliced {
        Sliced {
            slices: slices_view(self.slice_state@),
            next: self.next_slice as int,
            pit: self.pit_id->0@,
        }
    }
}

/// The batches of a sliced run that makes at most so many searches, each with the
/// slice that it came from, and where the run then stands. Each search is for the
/// slice whose turn it is.
pub open spec fn sliced_run(
    server: spec_fn(JsonView) -> JsonView,
    size: int,
    query: JsonView,
    index: Seq<char>,
    s: Sliced,
    searches: nat,
) -> (Seq<(int, Seq<DocumentView>)>, Sliced)
    decreases searches,
{
    let n = s.slices.len() as int;
    let live = next_live(s.slices, s.next, n);
    if searches == 0 || live is None {
        (Seq::empty(), s)
    } else {
        let i = live->0;
        let page = server(
            JsonView::Object(
                search_fields(size, query, s.pit, Some((i, n)), s.slices[i].after),
            ),
        );
        match page_hits(page) {
            Some(hits) => {
                let next = Sliced {
                    slices: s.slices.update(i, turned(s.slices[i], hits, size)),
                    next: (i + 1) % n,
                    pit: rotated(s.pit, page),
                };
                let (rest, end) = sliced_run(server, size, query, index, next, (searches - 1) as nat);
                (
                    if hits.len() > 0 {
                        seq![(i, hit_documents(hits, index))] + rest
                    } else {
                        rest
                    },
                    end,
                )
            },
            None => (Seq::empty(), s),
        }
    }
}

/// What a sliced run gave of one slice, in order.
pub open spec fn of_slice(out: Seq<(int, Seq<DocumentView>)>, i: int) -> Seq<DocumentView>
    decreases out.len(),
{
    if out.len() == 0 {
        Seq::empty()
    } else {
        let rest = of_slice(out.drop_first(), i);
        if out[0].0 == i {
            out[0].1 + rest
        } else {
            rest
        }
    }
}

/// How many pages of the slices are still to come, where `counts` of them were
/// read.
pub open spec fn pages_left(chains: Seq<Seq<Seq<JsonView>>>, counts: Seq<int>) -> int
    decreases chains.len(),
{
    if chains.len() == 0 {
        0
    } else {
        pages_left(chains.drop_last(), counts) + chains.last().len() - counts[chains.len() - 1]
    }
}

/// Whether slices stand where `counts` pages of each were read.
pub open spec fn stand_at(
    s: Seq<SliceView>,
    chains: Seq<Seq<Seq<JsonView>>>,
    counts: Seq<int>,
) -> bool {
    &&& s.len() == chains.len()
    &&& counts.len() == chains.len()
    &&& forall|i: int|
        0 <= i < s.len() ==> {
            &&& 0 <= #[trigger] counts[i] <= chains[i].len()
            &&& s[i].exhausted == (counts[i] == chains[i].len())
            &&& !s[i].exhausted ==> s[i].after == asked_with(chains[i], counts[i])
        }
}

proof fn pages_left_step(chains: Seq<Seq<Seq<JsonView>>>, counts: Seq<int>, i: int)
    requires
        chains.len() <= counts.len(),
        0 <= i < counts.len(),
    ensures
        pages_left(chains, counts.update(i, counts[i] + 1)) == pages_left(chains, counts) - if i
            < chains.len() {
            1int
        } else {
            0
        },
    decreases chains.len(),
{
    if chains.len() > 0 {
        pages_left_step(chains.drop_last(), counts, i);
    }
}

proof fn pages_left_over(chains: Seq<Seq<Seq<JsonView>>>, counts: Seq<int>, i: int)
    requires
        chains.len() <= counts.len(),
        forall|k: int| 0 <= k < chains.len() ==> #[trigger] counts[k] <= chains[k].len(),
        0 <= i < chains.len(),
    ensures
        pages_left(chains, counts) >= chains[i].len() - counts[i],
    decreases chains.len(),
{
    let head = chains.drop_last();
    assert forall|k: int| 0 <= k < head.len() implies #[trigger] counts[k] <= head[k].len() by {
        assert(counts[k] <= chains[k].len());
    }
    assert(counts[chains.len() - 1] <= chains.last().len());
    if i < head.len() {
        pages_left_over(head, counts, i);
    } else if head.len() > 0 {
        pages_left_over(head, counts, 0);
        assert(counts[0] <= head[0].len());
    } else {
        assert(pages_left(head, counts) == 0);
    }
}

/// A sliced run reads what is left of every slice: against a server that holds
/// finitely many pages for each slice, it gives the documents of every page that
/// was still to come, each once, and those of one slice in that slice's own
/// order. It ends only once every slice is drained. As many searches as there are
/// pages drain the source, and no later one adds anything.
pub proof fn sliced_runs_read_the_rest(
    server: spec_fn(JsonView) -> JsonView,
    size: int,
    query: JsonView,
    index: Seq<char>,
    s: Sliced,
    chains: Seq<Seq<Seq<JsonView>>>,
    counts: Seq<int>,
    searches: nat,
)
    requires
        0 <= s.next < s.slices.len(),
        stand_at(s.slices, chains, counts),
        forall|i: int|
            0 <= i < chains.len() ==> serves(
                server,
                size,
                query,
                Some((i, chains.len() as int)),
                #[trigger] chains[i],
            ),
        searches >= pages_left(chains, counts),
    ensures
        ({
            let (out, end) = sliced_run(server, size, query, index, s, searches);
            &&& all_drained(end.slices)
            &&& next_live(end.slices, end.next, end.slices.len() as int) is None
            &&& forall|k: int| 0 <= k < out.len() ==> 0 <= (#[trigger] out[k]).0 < chains.len()
            &&& forall|i: int|
                0 <= i < chains.len() ==> #[trigger] of_slice(out, i) == page_documents(
                    chains[i].skip(counts[i]),
                    index,
                )
        }),
    decreases pages_left(chains, counts),
{
    let n = s.slices.len() as int;
    live_slices_are_found(s.slices, s.next);
    match next_live(s.slices, s.next, n) {
        None => {
            let (out, end) = sliced_run(server, size, query, index, s, searches);
            assert forall|i: int| 0 <= i < n implies #[trigger] of_slice(out, i) == page_documents(
                chains[i].skip(counts[i]),
                index,
            ) by {
                assert(s.slices[i].exhausted);
                assert(counts[i] == chains[i].len());
                assert(chains[i].skip(counts[i]).map_values(
                    |hits: Seq<JsonView>| hit_documents(hits, index),
                ) =~= Seq::empty());
            }
        },
        Some(i) => {
            let pages = chains[i];
            let j = counts[i];
            let hits = pages[j];
            let page = server(
                JsonView::Object(
                    search_fields(size, query, s.pit, Some((i, n)), s.slices[i].after),
                ),
            );
            assert(serves(server, size, query, Some((i, n)), chains[i]));
            assert(page_hits(page) == Some(hits));
            assert(drains(hits, size) <==> j == pages.len() - 1);
            pages_left_over(chains, counts, i);
            pages_left_step(chains, counts, i);
            let next = Sliced {
                slices: s.slices.update(i, turned(s.slices[i], hits, size)),
                next: (i + 1) % n,
                pit: rotated(s.pit, page),
            };
            let read = counts.update(i, j + 1);
            vstd::arithmetic::div_mod::lemma_mod_bound(i + 1, n);
            assert(stand_at(next.slices, chains, read)) by {
                assert forall|k: int| 0 <= k < n implies {
                    &&& 0 <= #[trigger] read[k] <= chains[k].len()
                    &&& next.slices[k].exhausted == (read[k] == chains[k].len())
                    &&& !next.slices[k].exhausted ==> next.slices[k].after == asked_with(
                        chains[k],
                        read[k],
                    )
                } by {
                    assert(0 <= counts[k] <= chains[k].len());
                }
            }
            sliced_runs_read_the_rest(
                server,
                size,
                query,
                index,
                next,
                chains,
                read,
                (searches - 1) as nat,
            );
            let (rest, end) = sliced_run(server, size, query, index, next, (searches - 1) as nat);
            let (out, _) = sliced_run(server, size, query, index, s, searches);
            page_documents_step(pages, j, index);
            assert forall|k: int| 0 <= k < out.len() implies 0 <= (#[trigger] out[k]).0
                < chains.len() by {
                if hits.len() > 0 && k > 0 {
                    assert(out[k] == rest[k - 1]);
                }
            }
            assert forall|k: int| 0 <= k < n implies #[trigger] of_slice(out, k) == page_documents(
                chains[k].skip(counts[k]),
                index,
            ) by {
                assert(of_slice(rest, k) == page_documents(chains[k].skip(read[k]), index));
                let docs = hit_documents(hits, index);
                if hits.len() > 0 {
                    assert(out.drop_first() =~= rest);
                } else if k == i {
                    assert(docs + of_slice(rest, k) =~= of_slice(rest, k));
                }
            }
        },
    }
}

/// A sliced run that starts afresh reads every page of every slice, each once,
/// and those of one slice in that slice's own order.
pub proof fn sliced_runs_read_everything(
    source: OpenSearchSource,
    server: spec_fn(JsonView) -> JsonView,
    chains: Seq<Seq<Seq<JsonView>>>,
    searches: nat,
)
    requires
        source.wf(),
        chains.len() == source.slice_state@.len(),
        chains.len() > 0,
        forall|i: int|
            0 <= i < chains.len() ==> (#[trigger] source.slice_state@[i])@ == fresh_slice(),
        forall|i: int|
            0 <= i < chains.len() ==> serves(
                server,
                source.batch_size as int,
                source.query.view(),
                Some((i, chains.len() as int)),
                #[trigger] chains[i],
            ),
        searches >= pages_left(chains, Seq::new(chains.len(), |i: int| 0int)),
    ensures
        ({
            let (out, end) = sliced_run(
                server,
                source.batch_size as int,
                source.query.view(),
                source.index@,
                source.sliced(),
                searches,
            );
            &&& all_drained(end.slices)
            &&& forall|k: int| 0 <= k < out.len() ==> 0 <= (#[trigger] out[k]).0 < chains.len()
            &&& forall|i: int|
                0 <= i < chains.len() ==> #[trigger] of_slice(out, i) == page_documents(
                    chains[i],
                    source.index@,
                )
        }),
{
    let counts = Seq::new(chains.len(), |i: int| 0int);
    let s = source.sliced();
    let size = source.batch_size as int;
    assert forall|i: int| 0 <= i < s.slices.len() implies {
        &&& 0 <= #[trigger] counts[i] <= chains[i].len()
        &&& s.slices[i].exhausted == (counts[i] == chains[i].len())
        &&& !s.slices[i].exhausted ==> s.slices[i].after == asked_with(chains[i], counts[i])
    } by {
        assert(source.slice_state@[i]@ == fresh_slice());
        assert(serves(server, size, source.query.view(), Some((i, chains.len() as int)), chains[i]));
    }
    sliced_runs_read_the_rest(
        server,
        size,
        source.query.view(),
        source.index@,
        s,
        chains,
        counts,
        searches,
    );
    assert forall|i: int| 0 <= i < chains.len() implies chains[i].skip(#[trigger] counts[i])
        == chains[i] by {}
}

proof fn page_documents_join(pages: Seq<Seq<JsonView>>, from: int, to: int, index: Seq<char>)
    requires
        0 <= from <= to <= pages.len(),
    ensures
        page_documents(pages.skip(from), index) == page_documents(pages.subrange(from, to), index)
            + page_documents(pages.skip(to), index),
{
    let f = |hits: Seq<JsonView>| hit_documents(hits, index);
    let (a, b) = (pages.subrange(from, to), pages.skip(to));
    assert(pages.skip(from).map_values(f) =~= a.map_values(f) + b.map_values(f));
    vstd::seq_lib::lemma_flatten_concat(a.map_values(f), b.map_values(f));
}

/// Where a run over the whole index stands after so many searches, and what it
/// has given.
proof fn run_reaches(
    server: spec_fn(JsonView) -> JsonView,
    size: int,
    query: JsonView,
    index: Seq<char>,
    s: SliceView,
    pit: Seq<char>,
    pages: Seq<Seq<JsonView>>,
    j: int,
    searches: nat,
)
    requires
        serves(server, size, query, None, pages),
        0 <= j,
        j + searches < pages.len(),
        !s.exhausted,
        s.after == asked_with(pages, j),
    ensures
        ({
            let (out, end) = run(server, size, query, index, s, pit, searches);
            &&& out.flatten() == page_documents(pages.subrange(j, j + searches), index)
            &&& !end.exhausted
            &&& end.after == asked_with(pages, j + searches)
        }),
    decreases searches,
{
    let f = |hits: Seq<JsonView>| hit_documents(hits, index);
    let part = pages.subrange(j, j + searches);
    if searches == 0 {
        assert(part.map_values(f) =~= Seq::empty());
    } else {
        let page = server(JsonView::Object(search_fields(size, query, pit, None, s.after)));
        let hits = pages[j];
        assert(page_hits(page) == Some(hits));
        assert(!drains(hits, size));
        let next = turned(s, hits, size);
        run_reaches(
            server,
            size,
            query,
            index,
            next,
            rotated(pit, page),
            pages,
            j + 1,
            (searches - 1) as nat,
        );
        let (rest, _) = run(
            server,
            size,
            query,
            index,
            next,
            rotated(pit, page),
            (searches - 1) as nat,
        );
        assert((seq![hit_documents(hits, index)] + rest).drop_first() =~= rest);
        assert(part.map_values(f).drop_first() =~= pages.subrange(j + 1, j + searches).map_values(
            f,
        ));
    }
}

/// Nothing is lost or read twice where a run over the whole index is interrupted
/// before its last page: a run that starts afresh and stops after some searches,
/// and one that takes up its cursor with a point in time of its own, together
/// give what one run gives.
pub proof fn interrupted_runs_are_whole(
    server: spec_fn(JsonView) -> JsonView,
    size: int,
    query: JsonView,
    index: Seq<char>,
    pit: Seq<char>,
    pages: Seq<Seq<JsonView>>,
    searches: nat,
    resumed: SliceView,
    next_pit: Seq<char>,
    more: nat,
)
    requires
        serves(server, size, query, None, pages),
        searches < pages.len(),
        resumed.after == run(server, size, query, index, fresh_slice(), pit, searches).1.after,
        !resumed.exhausted,
        more >= pages.len() - searches,
    ensures
        ({
            let (before, _) = run(server, size, query, index, fresh_slice(), pit, searches);
            let (after, end) = run(server, size, query, index, resumed, next_pit, more);
            &&& before.flatten() + after.flatten() == page_documents(pages, index)
            &&& end.exhausted
        }),
{
    let k = searches as int;
    run_reaches(server, size, query, index, fresh_slice(), pit, pages, 0, searches);
    runs_read_the_rest(server, size, query, index, resumed, next_pit, pages, k, more);
    page_documents_join(pages, 0, k, index);
    assert(pages.skip(0) =~= pages);
}

/// Where a sliced run stands after so many searches, and what it has given.
proof fn sliced_run_reaches(
    server: spec_fn(JsonView) -> JsonView,
    size: int,
    query: JsonView,
    index: Seq<char>,
    s: Sliced,
    chains: Seq<Seq<Seq<JsonView>>>,
    counts: Seq<int>,
    searches: nat,
) -> (reached: Seq<int>)
    requires
        0 <= s.next < s.slices.len(),
        stand_at(s.slices, chains, counts),
        forall|i: int|
            0 <= i < chains.len() ==> serves(
                server,
                size,
                query,
                Some((i, chains.len() as int)),
                #[trigger] chains[i],
            ),
    ensures
        ({
            let (out, end) = sliced_run(server, size, query, index, s, searches);
            &&& stand_at(end.slices, chains, reached)
            &&& forall|i: int|
                0 <= i < chains.len() ==> {
                    &&& counts[i] <= #[trigger] reached[i]
                    &&& of_slice(out, i) == page_documents(
                        chains[i].subrange(counts[i], reached[i]),
                        index,
                    )
                }
        }),
    decreases searches,
{
    let n = s.slices.len() as int;
    let f = |hits: Seq<JsonView>| hit_documents(hits, index);
    let (out, end) = sliced_run(server, size, query, index, s, searches);
    live_slices_are_found(s.slices, s.next);
    let live = next_live(s.slices, s.next, n);
    if searches == 0 || live is None {
        assert forall|i: int| 0 <= i < chains.len() implies {
            &&& counts[i] <= #[trigger] counts[i]
            &&& of_slice(out, i) == page_documents(chains[i].subrange(counts[i], counts[i]), index)
        } by {
            assert(chains[i].subrange(counts[i], counts[i]).map_values(f) =~= Seq::empty());
        }
        counts
    } else {
        let i = live->0;
        let pages = chains[i];
        let j = counts[i];
        let hits = pages[j];
        let page = server(
            JsonView::Object(search_fields(size, query, s.pit, Some((i, n)), s.slices[i].after)),
        );
        assert(serves(server, size, query, Some((i, n)), chains[i]));
        assert(page_hits(page) == Some(hits));
        assert(drains(hits, size) <==> j == pages.len() - 1);
        let next = Sliced {
            slices: s.slices.update(i, turned(s.slices[i], hits, size)),
            next: (i + 1) % n,
            pit: rotated(s.pit, page),
        };
        let read = counts.update(i, j + 1);
        vstd::arithmetic::div_mod::lemma_mod_bound(i + 1, n);
        assert(stand_at(next.slices, chains, read)) by {
            assert forall|k: int| 0 <= k < n implies {
                &&& 0 <= #[trigger] read[k] <= chains[k].len()
                &&& next.slices[k].exhausted == (read[k] == chains[k].len())
                &&& !next.slices[k].exhausted ==> next.slices[k].after == asked_with(
                    chains[k],
                    read[k],
                )
            } by {
                assert(0 <= counts[k] <= chains[k].len());
            }
        }
        let reached = sliced_run_reaches(
            server,
            size,
            query,
            index,
            next,
            chains,
            read,
            (searches - 1) as nat,
        );
        let (rest, _) = sliced_run(server, size, query, index, next, (searches - 1) as nat);
        assert forall|k: int| 0 <= k < chains.len() implies {
            &&& counts[k] <= #[trigger] reached[k]
            &&& of_slice(out, k) == page_documents(
                chains[k].subrange(counts[k], reached[k]),
                index,
            )
        } by {
            assert(read[k] <= reached[k]);
            assert(of_slice(rest, k) == page_documents(
                chains[k].subrange(read[k], reached[k]),
                index,
            ));
            let docs = hit_documents(hits, index);
            if hits.len() > 0 {
                assert(out.drop_first() =~= rest);
            } else if k == i {
                assert(docs + of_slice(rest, k) =~= of_slice(rest, k));
            }
            if k == i {
                assert(chains[k].subrange(j, reached[k]).map_values(f).drop_first()
                    =~= chains[k].subrange(j + 1, reached[k]).map_values(f));
            }
        }
        reached
    }
}

proof fn fewer_pages_left(chains: Seq<Seq<Seq<JsonView>>>, a: Seq<int>, b: Seq<int>)
    requires
        forall|i: int| 0 <= i < chains.len() ==> a[i] <= #[trigger] b[i],
    ensures
        pages_left(chains, b) <= pages_left(chains, a),
    decreases chains.len(),
{
    if chains.len() > 0 {
        assert(a[chains.len() - 1] <= b[chains.len() - 1]);
        fewer_pages_left(chains.drop_last(), a, b);
    }
}

/// Nothing is lost or read twice where a sliced run is interrupted: a run that
/// stops after some searches, and one that takes up where each slice stood,
/// together give of every slice what was still to come when the first began, in
/// the slice's own order. Whose turn it is, and the point in time, may begin anew.
pub proof fn interrupted_sliced_runs_are_whole(
    server: spec_fn(JsonView) -> JsonView,
    size: int,
    query: JsonView,
    index: Seq<char>,
    s: Sliced,
    chains: Seq<Seq<Seq<JsonView>>>,
    counts: Seq<int>,
    searches: nat,
    resumed: Sliced,
    more: nat,
)
    requires
        0 <= s.next < s.slices.len(),
        stand_at(s.slices, chains, counts),
        forall|i: int|
            0 <= i < chains.len() ==> serves(
                server,
                size,
                query,
                Some((i, chains.len() as int)),
                #[trigger] chains[i],
            ),
        resumed.slices == sliced_run(server, size, query, index, s, searches).1.slices,
        0 <= resumed.next < resumed.slices.len(),
        more >= pages_left(chains, counts),
    ensures
        ({
            let (before, _) = sliced_run(server, size, query, index, s, searches);
            let (after, end) = sliced_run(server, size, query, index, resumed, more);
            &&& all_drained(end.slices)
            &&& forall|i: int|
                0 <= i < chains.len() ==> #[trigger] of_slice(before, i) + of_slice(after, i)
                    == page_documents(chains[i].skip(counts[i]), index)
        }),
{
    let reached = sliced_run_reaches(server, size, query, index, s, chains, counts, searches);
    fewer_pages_left(chains, counts, reached);
    sliced_runs_read_the_rest(server, size, query, index, resumed, chains, reached, more);
    let (before, _) = sliced_run(server, size, query, index, s, searches);
    let (after, _) = sliced_run(server, size, query, index, resumed, more);
    assert forall|i: int| 0 <= i < chains.len() implies #[trigger] of_slice(before, i) + of_slice(
        after,
        i,
    ) == page_documents(chains[i].skip(counts[i]), index) by {
        assert(counts[i] <= reached[i]);
        assert(of_slice(after, i) == page_documents(chains[i].skip(reached[i]), index));
        page_documents_join(chains[i], counts[i], reached[i], index);
    }
}

proof fn search_keys_apart()
    ensures
        "size"@ != "query"@,
        "size"@ != "sort"@,
        "size"@ != "pit"@,
        "size"@ != "track_total_hits"@,
        "size"@ != "slice"@,
        "size"@ != "search_after"@,
        "query"@ != "sort"@,
        "query"@ != "pit"@,
        "query"@ != "track_total_hits"@,
        "query"@ != "slice"@,
        "query"@ != "search_after"@,
        "sort"@ != "pit"@,
        "sort"@ != "track_total_hits"@,
        "sort"@ != "slice"@,
        "sort"@ != "search_after"@,
        "pit"@ != "track_total_hits"@,
        "pit"@ != "slice"@,
        "pit"@ != "search_after"@,
        "track_total_hits"@ != "slice"@,
        "track_total_hits"@ != "search_after"@,
        "slice"@ != "search_after"@,
        "id"@ != "max"@,
        "id"@ != "keep_alive"@,
{
    reveal_strlit("size");
    reveal_strlit("query");
    reveal_strlit("sort");
    reveal_strlit("pit");
    reveal_strlit("track_total_hits");
    reveal_strlit("slice");
    reveal_strlit("search_after");
    reveal_strlit("id");
    reveal_strlit("max");
    reveal_strlit("keep_alive");
    assert("size"@[1] == 'i' && "sort"@[1] == 'o');
    assert("query"@[0] == 'q' && "slice"@[0] == 's');
    assert("size"@.len() == 4 && "query"@.len() == 5 && "pit"@.len() == 3
        && "track_total_hits"@.len() == 16 && "search_after"@.len() == 12 && "id"@.len() == 2
        && "max"@.len() == 3 && "keep_alive"@.len() == 10 && "sort"@.len() == 4
        && "slice"@.len() == 5);
}

/// Every search asks the same question. Whatever the slice and the cursor, it
/// carries the configured query and page size, sorts by `_id` in ascending order,
/// names the point in time and keeps it alive, and counts no totals.
pub proof fn searches_ask_the_configured_query(
    size: int,
    query: JsonView,
    pit: Seq<char>,
    slice: Option<(int, int)>,
    after: Option<Seq<JsonView>>,
)
    ensures
        ({
            let m = search_fields(size, query, pit, slice, after);
            &&& json::field_of(m, "query"@) == Some(query)
            &&& json::field_of(m, "size"@) == Some(JsonView::Number(NumberView::Int(size)))
            &&& json::field_of(m, "track_total_hits"@) == Some(JsonView::Bool(false))
            &&& json::field_of(m, "sort"@) matches Some(JsonView::Array(order))
            &&& order.len() == 1
            &&& json::field(order[0], "_id"@) == Some(JsonView::String("asc"@))
            &&& json::field_of(m, "pit"@) matches Some(point)
            &&& json::field(point, "id"@) == Some(JsonView::String(pit))
            &&& json::field(point, "keep_alive"@) == Some(JsonView::String("5m"@))
        }),
{
    search_keys_apart();
}

/// A search reads on from its cursor and stays in its slice: the cursor stands
/// under `search_after` and the slice, with its number and their count, under
/// `slice`, each exactly where there is one. A search holds nothing else beside
/// its question.
pub proof fn searches_carry_cursor_and_slice(
    size: int,
    query: JsonView,
    pit: Seq<char>,
    slice: Option<(int, int)>,
    after: Option<Seq<JsonView>>,
    key: Seq<char>,
)
    ensures
        ({
            let m = search_fields(size, query, pit, slice, after);
            &&& match after {
                Some(cursor) => json::field_of(m, "search_after"@) == Some(JsonView::Array(cursor)),
                None => json::field_of(m, "search_after"@) is None,
            }
            &&& match slice {
                Some((id, max)) => {
                    &&& json::field_of(m, "slice"@) matches Some(part)
                    &&& json::field(part, "id"@) == Some(JsonView::Number(NumberView::Int(id)))
                    &&& json::field(part, "max"@) == Some(JsonView::Number(NumberView::Int(max)))
                },
                None => json::field_of(m, "slice"@) is None,
            }
            &&& m.dom().contains(key) ==> key == "size"@ || key == "query"@ || key == "sort"@
                || key == "pit"@ || key == "track_total_hits"@ || key == "slice"@ || key
                == "search_after"@
        }),
{
    search_keys_apart();
}

/// A hit with an id is a document: that id, the hit's own index or else the one
/// that was asked for, and what it holds as its source.
pub proof fn hits_are_documents(hit: JsonView, index: Seq<char>, id: Seq<char>)
    requires
        json::field(hit, "_id"@) == Some(JsonView::String(id)),
    ensures
        ({
            let docs = hit_documents(seq![hit], index);
            &&& docs.len() == 1
            &&& docs[0].id == id
            &&& match json::field(hit, "_source"@) {
                Some(body) => docs[0].body == body,
                None => docs[0].body is Null,
            }
            &&& match json::field(hit, "_index"@) {
                Some(JsonView::String(own)) => docs[0].index == own,
                _ => docs[0].index == index,
            }
        }),
{
    assert(seq![hit].drop_last() =~= Seq::empty());
    assert(hit_documents(seq![hit].drop_last(), index) =~= Seq::empty());
}

/// A hit whose id is missing or no text is no document, and nothing else of the
/// page is lost with it: the documents of two lists of hits are those of the
/// first and then those of the second.
pub proof fn hits_are_read_in_order(
    a: Seq<JsonView>,
    b: Seq<JsonView>,
    hit: JsonView,
    index: Seq<char>,
)
    requires
        !(json::field(hit, "_id"@) matches Some(JsonView::String(_))),
    ensures
        hit_documents(a + b, index) == hit_documents(a, index) + hit_documents(b, index),
        hit_documents(seq![hit], index).len() == 0,
        hit_documents(Seq::empty(), index).len() == 0,
{
    hits_concatenate(a, b, index);
    assert(seq![hit].drop_last() =~= Seq::empty());
    assert(hit_documents(seq![hit].drop_last(), index) =~= Seq::empty());
}

proof fn hits_concatenate(a: Seq<JsonView>, b: Seq<JsonView>, index: Seq<char>)
    ensures
        hit_documents(a + b, index) == hit_documents(a, index) + hit_documents(b, index),
    decreases b.len(),
{
    if b.len() == 0 {
        assert(a + b =~= a);
        assert(hit_documents(a, index) + hit_documents(b, index) =~= hit_documents(a, index));
    } else {
        hits_concatenate(a, b.drop_last(), index);
        assert((a + b).drop_last() =~= a + b.drop_last());
        assert(hit_documents(a + b, index) =~= hit_documents(a, index) + hit_documents(b, index));
    }
}

/// The hits of a response are the list under `hits.hits`, and only a list is
/// taken for one.
pub proof fn hits_stand_under_hits(page: JsonView, outer: JsonView, list: Seq<JsonView>)
    requires
        json::field(page, "hits"@) == Some(outer),
    ensures
        page_hits(page) == Some(list) <==> json::field(outer, "hits"@) == Some(
            JsonView::Array(list),
        ),
{
}

/// A page that is not full drains what it is a page of; a full one, of at least
/// one hit, does not. The next search is behind the sort values of the last hit.
pub proof fn short_pages_drain(s: SliceView, hits: Seq<JsonView>, size: int)
    ensures
        hits.len() < size ==> turned(s, hits, size).exhausted,
        hits.len() == 0 ==> turned(s, hits, size).exhausted,
        hits.len() >= size && hits.len() > 0 ==> turned(s, hits, size).exhausted == s.exhausted,
        hits.len() == 0 ==> turned(s, hits, size).after == s.after,
        hits.len() > 0 ==> turned(s, hits, size).after == match json::field(
            hits.last(),
            "sort"@,
        ) {
            Some(JsonView::Array(values)) => Some(values),
            _ => s.after,
        },
{
}

/// A request goes to the base URL followed by the path, with a slash between
/// them: the path's own, or one that is put there.
pub proof fn urls_are_joined_once(base: Seq<char>, path: Seq<char>)
    ensures
        joined_url(base, seq!['/'] + path) == base + seq!['/'] + path,
        !(path.len() > 0 && path[0] == '/') ==> joined_url(base, path) == joined_url(
            base,
            seq!['/'] + path,
        ),
{
    reveal_strlit("/");
    assert("/"@ =~= seq!['/']);
    assert((seq!['/'] + path)[0] == '/');
    assert(base + (seq!['/'] + path) =~= base + seq!['/'] + path);
}

/// The point in time that is released is the one that was opened: Elasticsearch
/// is given its id, OpenSearch a list of one.
pub proof fn the_open_pit_is_released(flavor: ApiFlavor, pit: Seq<char>)
    ensures
        flavor == ApiFlavor::Elasticsearch ==> json::field(close_body(flavor, pit), "id"@) == Some(
            JsonView::String(pit),
        ) && close_path(flavor) == "/_pit"@,
        flavor != ApiFlavor::Elasticsearch ==> {
            &&& json::field(close_body(flavor, pit), "pit_id"@) matches Some(JsonView::Array(ids))
            &&& ids.len() == 1
            &&& ids[0] == JsonView::String(pit)
            &&& close_path(flavor) == "/_search/point_in_time"@
        },
{
}

/// A sliced cursor is one value, with the number of slices under
/// `__esift_slices` and, under `cursors`, for each slice in turn what it is behind
/// and whether it is done.
pub proof fn sliced_cursors_have_their_form(s: Seq<SliceView>, slices: int, i: int)
    requires
        0 <= i < s.len(),
    ensures
        ({
            let cursor = encoded_slices(s, slices);
            &&& cursor.len() == 1
            &&& json::field(cursor[0], "__esift_slices"@) == Some(
                JsonView::Number(NumberView::Int(slices)),
            )
            &&& json::field(cursor[0], "cursors"@) matches Some(JsonView::Array(entries))
            &&& entries.len() == s.len()
            &&& json::field(entries[i], "done"@) == Some(JsonView::Bool(s[i].exhausted))
            &&& match s[i].after {
                Some(values) => json::field(entries[i], "after"@) == Some(JsonView::Array(values)),
                None => json::field(entries[i], "after"@) == Some(JsonView::Null),
            }
        }),
{
    marker_apart();
    reveal_strlit("after");
    reveal_strlit("done");
    assert("after"@.len() != "done"@.len());
}

/// A cursor that is not a sliced one restores nothing in a sliced run, which then
/// begins with every slice fresh; so does a run without a cursor.
pub proof fn sliced_runs_begin_fresh(source: OpenSearchSource, i: int)
    requires
        source.search_after is None || !sliced_encoding(
            json::array_view(source.search_after->0@),
        ),
        0 <= i < source.slices,
    ensures
        source.restored() is None,
        source.seeded_slices().len() == source.slices,
        source.seeded_slices()[i].after is None,
        !source.seeded_slices()[i].exhausted,
{
}

/// Slices take turns: the one that is searched next is the first live one from
/// the pointer on, and those between are drained.
pub proof fn turns_pass_over_drained_slices(s: Seq<SliceView>, start: int, k: int)
    requires
        0 <= start < s.len(),
        0 <= k < s.len(),
        !s[(start + k) % s.len() as int].exhausted,
        forall|j: int| 0 <= j < k ==> (#[trigger] s[(start + j) % s.len() as int]).exhausted,
    ensures
        next_live(s, start, s.len() as int) == Some((start + k) % s.len() as int),
{
    turns_from(s, start, s.len() as int, k);
}

proof fn one_turn_on(start: int, j: int, n: int)
    requires
        n > 0,
    ensures
        ((start + 1) % n + j) % n == (start + (j + 1)) % n,
{
    let next = (start + 1) % n;
    vstd::arithmetic::div_mod::lemma_add_mod_noop(start + 1, j, n);
    vstd::arithmetic::div_mod::lemma_add_mod_noop(next, j, n);
    vstd::arithmetic::div_mod::lemma_mod_twice(start + 1, n);
}

proof fn turns_from(s: Seq<SliceView>, start: int, left: int, k: int)
    requires
        0 <= start < s.len(),
        0 <= k < left,
        !s[(start + k) % s.len() as int].exhausted,
        forall|j: int| 0 <= j < k ==> (#[trigger] s[(start + j) % s.len() as int]).exhausted,
    ensures
        next_live(s, start, left) == Some((start + k) % s.len() as int),
    decreases left,
{
    let n = s.len() as int;
    vstd::arithmetic::div_mod::lemma_small_mod(start as nat, n as nat);
    if k > 0 {
        assert(s[(start + 0) % n].exhausted);
        let next = (start + 1) % n;
        vstd::arithmetic::div_mod::lemma_mod_bound(start + 1, n);
        one_turn_on(start, k - 1, n);
        assert forall|j: int| 0 <= j < k - 1 implies (#[trigger] s[(next + j) % n]).exhausted by {
            one_turn_on(start, j, n);
            assert(s[(start + (j + 1)) % n].exhausted);
        }
        turns_from(s, next, left - 1, k - 1);
    }
}

/// Two sources that are configured alike agree on every setting.
pub proof fn settings_are_all_kept(a: OpenSearchSource, b: OpenSearchSource)
    requires
        a.same_settings(&b),
    ensures
        a.base_url == b.base_url,
        a.index == b.index,
        a.query == b.query,
        a.batch_size == b.batch_size,
        a.auth == b.auth,
        a.slices == b.slices,
{
}

/// What is known of a slice's state, and of the whole index's, is its cursor and
/// whether it is drained.
pub proof fn standings_show_cursor_and_end(x: SliceState, source: OpenSearchSource)
    ensures
        x@.exhausted == x.exhausted,
        x@.after == json::opt_array(x.search_after),
        source.single().exhausted == source.exhausted,
        source.single().after == json::opt_array(source.search_after),
{
}

/// A run over the whole index is finished when the index is drained; a sliced run
/// when all of its slices are.
pub proof fn runs_finish_when_drained(source: OpenSearchSource)
    requires
        source.wf(),
        source.slices > 1 ==> source.slice_state@.len() > 0,
    ensures
        source.slices == 1 ==> source.finished() == source.exhausted,
        source.slices > 1 ==> source.finished() == (source.exhausted || forall|i: int|
            0 <= i < source.slice_state@.len() ==> (
            #[trigger] source.slice_state@[i]).exhausted),
{
    if source.slices > 1 {
        let s = slices_view(source.slice_state@);
        live_slices_are_found(s, source.next_slice as int);
        assert forall|i: int| 0 <= i < s.len() implies (#[trigger] s[i]).exhausted
            == source.slice_state@[i].exhausted by {}
        if all_drained(s) {
            assert forall|i: int| 0 <= i < source.slice_state@.len() implies (
            #[trigger] source.slice_state@[i]).exhausted by {
                assert(s[i].exhausted);
            }
        }
    }
}

/// A sliced cursor is read only by a run of as many slices: the mark names their
/// number, and there is an entry for each. What is read has that many slices, each
/// with the sort values of its entry and drained exactly if the entry says so.
pub proof fn sliced_cursors_are_read_whole(cursor: Seq<JsonView>, slices: int, i: int)
    ensures
        decoded_slices(cursor, slices) matches Some(s) ==> {
            &&& s.len() == slices
            &&& cursor.len() > 0
            &&& json::field(cursor[0], "__esift_slices"@) == Some(
                JsonView::Number(NumberView::Int(slices)),
            )
            &&& json::field(cursor[0], "cursors"@) matches Some(JsonView::Array(entries))
                && entries.len() == slices && (0 <= i < slices ==> {
                &&& s[i].exhausted <==> json::field(entries[i], "done"@) == Some(
                    JsonView::Bool(true),
                )
                &&& match json::field(entries[i], "after"@) {
                    Some(JsonView::Array(values)) => s[i].after == Some(values),
                    _ => s[i].after is None,
                }
            })
        },
{
}

/// A page may name a new point in time, and then the next search uses it; otherwise
/// the point in time stays.
pub proof fn points_in_time_are_renewed(pit: Seq<char>, page: JsonView, id: Seq<char>)
    ensures
        json::field(page, "pit_id"@) == Some(JsonView::String(id)) ==> rotated(pit, page) == id,
        !(json::field(page, "pit_id"@) matches Some(JsonView::String(_))) ==> rotated(pit, page)
            == pit,
{
}

/// A point in time is open after a success and after nothing else. Where the first
/// path is unknown the other is tried, once: every other failure is final.
pub proof fn the_other_path_is_tried_once(fallback: bool, status: u16, r: PitVerdict)
    requires
        call_ensures(judge_pit, (fallback, status), r),
    ensures
        r is Opened <==> status / 100 == 2,
        r is Fallback <==> !fallback && (status == 404 || status == 405),
        r is Refused || r is Opened || r is Fallback,
{
}

/// Whatever its cursor and slice, a source asks its own query in batches of its own
/// size, of the point in time that it is given.
pub proof fn sources_ask_their_query(
    source: OpenSearchSource,
    pit: &str,
    slice: Option<usize>,
    after: Option<Vec<Json>>,
    r: Json,
)
    requires
        call_ensures(OpenSearchSource::search_body, (&source, pit, slice, &after), r),
    ensures
        json::field(r.view(), "query"@) == Some(source.query.view()),
        json::field(r.view(), "size"@) == Some(
            JsonView::Number(NumberView::Int(source.batch_size as int)),
        ),
        json::field(r.view(), "pit"@) matches Some(p) && json::field(p, "id"@) == Some(
            JsonView::String(pit@),
        ),
        after matches Some(cursor) ==> json::field(r.view(), "search_after"@) == Some(
            JsonView::Array(json::array_view(cursor@)),
        ),
        after is None ==> json::field(r.view(), "search_after"@) is None,
        slice matches Some(i) ==> (json::field(r.view(), "slice"@) matches Some(s) && json::field(
            s,
            "id"@,
        ) == Some(JsonView::Number(NumberView::Int(i as int))) && json::field(s, "max"@) == Some(
            JsonView::Number(NumberView::Int(source.slices as int)),
        )),
        slice is None ==> json::field(r.view(), "slice"@) is None,
{
    search_keys_apart();
    reveal_strlit("id");
    reveal_strlit("max");
    reveal_strlit("keep_alive");
    assert("id"@.len() == 2 && "max"@.len() == 3 && "keep_alive"@.len() == 10);
}

/// Both APIs open a point in time of the source's own index, for the same time.
pub proof fn points_in_time_are_of_the_index(source: OpenSearchSource, first: String, other: String)
    requires
        call_ensures(OpenSearchSource::pit_path, (&source, false), first),
        call_ensures(OpenSearchSource::pit_path, (&source, true), other),
    ensures
        text::has_prefix(first@, "/"@ + source.index@),
        text::has_prefix(other@, "/"@ + source.index@),
        first@.skip(1 + source.index@.len() as int) == "/_search/point_in_time?keep_alive=5m"@,
        other@.skip(1 + source.index@.len() as int) == "/_pit?keep_alive=5m"@,
{
    reveal_strlit("/");
    let head = "/"@ + source.index@;
    assert("/"@.len() == 1);
    assert(first@.take(head.len() as int) =~= head);
    assert(other@.take(head.len() as int) =~= head);
    assert(first@.skip(head.len() as int) =~= "/_search/point_in_time?keep_alive=5m"@);
    assert(other@.skip(head.len() as int) =~= "/_pit?keep_alive=5m"@);
}

/// Every search asks the source's own query in batches of its own size, of the open
/// point in time, whatever the cursor and the slice; and asking changes neither the
/// settings nor the cursors.
pub proof fn every_search_asks_the_query(
    source: &mut OpenSearchSource,
    r: Result<Option<Search>, EsiftError>,
)
    requires
        call_ensures(OpenSearchSource::next_search, (source,), r),
    ensures
        r matches Ok(Some(s)) ==> {
            &&& json::field(s.body.view(), "query"@) == Some(old(source).query.view())
            &&& json::field(s.body.view(), "size"@) == Some(
                JsonView::Number(NumberView::Int(old(source).batch_size as int)),
            )
            &&& old(source).pit_id matches Some(pit) && (json::field(
                s.body.view(),
                "pit"@,
            ) matches Some(p) && json::field(p, "id"@) == Some(JsonView::String(pit@)))
            &&& s.slice is Some <==> old(source).slices > 1
        },
        (r matches Ok(None)) <==> old(source).finished(),
        r is Err <==> !old(source).finished() && old(source).pit_id is None,
        final(source).query == old(source).query,
        final(source).search_after == old(source).search_after,
        final(source).slice_state == old(source).slice_state,
        final(source).pit_id == old(source).pit_id,
{
    search_keys_apart();
    reveal_strlit("id");
    reveal_strlit("keep_alive");
    assert("id"@.len() == 2 && "keep_alive"@.len() == 10);
}

/// A page gives the documents of its hits, or nothing where it has none, and is
/// refused where it has no list of hits. It moves the cursor that was searched with
/// and no other.
pub proof fn pages_give_their_documents(
    source: &mut OpenSearchSource,
    slice: Option<usize>,
    page: Json,
    hits: Seq<JsonView>,
    r: Result<Option<Vec<Document>>, EsiftError>,
    j: int,
)
    requires
        slice matches Some(i) ==> i < old(source).slice_state@.len(),
        call_ensures(OpenSearchSource::on_page, (source, slice, &page), r),
        page_hits(page.view()) == Some(hits),
    ensures
        (r matches Ok(None)) <==> hits.len() == 0,
        hits.len() > 0 ==> (r matches Ok(Some(docs)) && crate::documents(docs@) == hit_documents(
            hits,
            old(source).index@,
        )),
        slice is None ==> {
            &&& final(source).slice_state == old(source).slice_state
            &&& final(source).exhausted <==> old(source).exhausted || hits.len() == 0 || hits.len()
                < old(source).batch_size
        },
        slice matches Some(i) ==> {
            &&& json::opt_array(final(source).search_after) == json::opt_array(
                old(source).search_after,
            )
            &&& final(source).exhausted == old(source).exhausted
            &&& final(source).slice_state@.len() == old(source).slice_state@.len()
            &&& 0 <= j < old(source).slice_state@.len() && j != i
                ==> final(source).slice_state@[j]@ == old(source).slice_state@[j]@
        },
{
    let (a, b) = (slices_view(old(source).slice_state@), slices_view(final(source).slice_state@));
    if let Some(i) = slice {
        assert(a.len() == old(source).slice_state@.len());
        assert(b.len() == final(source).slice_state@.len());
        if 0 <= j < a.len() && j != i {
            assert(b[j] == a[j]);
            assert(a[j] == old(source).slice_state@[j]@);
            assert(b[j] == final(source).slice_state@[j]@);
        }
    }
}

/// A run that is resumed from its cursor stands where the cursor was taken: every
/// slice of a sliced run, and the sort values of another.
pub proof fn cursors_hold_where_the_run_stands(source: OpenSearchSource, r: Option<Vec<Json>>)
    requires
        call_ensures(OpenSearchSource::cursor, (&source,), r),
    ensures
        source.slices <= 1 ==> json::opt_array(r) == json::opt_array(source.search_after),
        source.slices > 1 && source.slice_state@.len() == 0 ==> r is None,
        source.slices > 1 && source.slice_state@.len() == source.slices ==> (r matches Some(blob)
            && sliced_encoding(json::array_view(blob@)) && decoded_slices(
            json::array_view(blob@),
            source.slices as int,
        ) == Some(slices_view(source.slice_state@))),
{
    slices_read_back(slices_view(source.slice_state@));
    assert(slices_view(source.slice_state@).len() == source.slice_state@.len());
}

/// The point in time that a response opens is that which its API names: `pit_id` at
/// OpenSearch's path, `id` at Elasticsearch's. A response that names none opens none.
pub proof fn points_in_time_are_remembered(
    source: &mut OpenSearchSource,
    fallback: bool,
    body: Json,
    r: Result<(), EsiftError>,
    id: Seq<char>,
)
    requires
        call_ensures(OpenSearchSource::on_pit, (source, fallback, &body), r),
    ensures
        !fallback && json::field(body.view(), "pit_id"@) == Some(JsonView::String(id)) ==> {
            &&& r is Ok
            &&& final(source).pit_id matches Some(own) && own@ == id
            &&& final(source).flavor == ApiFlavor::OpenSearch
        },
        fallback && json::field(body.view(), "id"@) == Some(JsonView::String(id)) ==> {
            &&& r is Ok
            &&& final(source).pit_id matches Some(own) && own@ == id
            &&& final(source).flavor == ApiFlavor::Elasticsearch
        },
        !fallback && !(json::field(body.view(), "pit_id"@) matches Some(JsonView::String(_)))
            ==> r is Err,
        fallback && !(json::field(body.view(), "id"@) matches Some(JsonView::String(_)))
            ==> r is Err,
        final(source).query == old(source).query,
        final(source).index == old(source).index,
{
}

/// The point in time that is open is released once, at the API that opened it, and
/// without one nothing is asked for.
pub proof fn points_in_time_are_released_once(
    source: &mut OpenSearchSource,
    first: Option<CloseRequest>,
    again: &mut OpenSearchSource,
    second: Option<CloseRequest>,
)
    requires
        call_ensures(OpenSearchSource::close_request, (source,), first),
        *old(again) == *final(source),
        call_ensures(OpenSearchSource::close_request, (again,), second),
    ensures
        first is Some <==> old(source).pit_id is Some,
        second is None,
        first is Some && old(source).flavor == ApiFlavor::Elasticsearch ==> first->0.path@
            == "/_pit"@ && json::field(first->0.body.view(), "id"@) == Some(
            JsonView::String(old(source).pit_id->0@),
        ),
        first is Some && old(source).flavor == ApiFlavor::OpenSearch ==> first->0.path@
            == "/_search/point_in_time"@ && json::field(first->0.body.view(), "pit_id"@) == Some(
            JsonView::Array(seq![JsonView::String(old(source).pit_id->0@)]),
        ),
{
}

} // verus!
