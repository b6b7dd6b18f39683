//! Datadog Logs Search API source.
//!
//! Reads logs via `POST /api/v2/logs/events/search`, cursor-paginated and
//! time-window chunked. The `[from, to]` range is split into `window_minutes`
//! windows; each window is paginated to exhaustion (following
//! `meta.page.after`) before the next window opens. Regional base URL comes
//! from `site::base_url`; each `data[]` event is collapsed by
//! `flatten_api::flatten`. On HTTP 429 the source waits until the instant that
//! `X-RateLimit-Reset` names (unix seconds) plus a small jitter, then retries the
//! search once; a second 429 is an error like any other refusal.
//!
//! Resume: [`DatadogApiSource::cursor`] encodes the live window bounds, the
//! in-window cursor, and the count of finished windows. [`DatadogApiSource::open`]
//! decodes that blob (when present) to continue mid-window; after a finished run
//! it leaves nothing to read.

use crate::calendar;
use crate::error::EsiftError;
use crate::http;
use crate::json;
use crate::json::{Fields, Json, JsonNumber, JsonView, NumberView};
use crate::number;
use crate::source::datadog::{flatten_api, site};
use crate::text;
use crate::{Document, DocumentView};
use vstd::prelude::*;

verus! {

// ---------------------------------------------------------------------------
// Time windows
// ---------------------------------------------------------------------------

/// A single time window: an optional inclusive `[from, to]` ISO 8601 pair. Either
/// bound may be absent (then it is simply omitted from the request filter).
#[derive(Debug)]
pub struct Window {
    pub from: Option<String>,
    pub to: Option<String>,
}

/// A window's bounds as texts.
pub struct WindowView {
    pub from: Option<Seq<char>>,
    pub to: Option<Seq<char>>,
}

impl View for Window {
    type V = WindowView;

    open spec fn view(&self) -> WindowView {
        WindowView { from: text::opt_text(self.from), to: text::opt_text(self.to) }
    }
}

impl Clone for Window {
    fn clone(&self) -> (r: Window)
        ensures
            r@ == self@,
    {
        Window { from: text::clone_opt(&self.from), to: text::clone_opt(&self.to) }
    }
}

impl Window {
    /// Whether two windows have the same bounds.
    pub fn same(&self, other: &Window) -> (r: bool)
        ensures
            r == (self@ == other@),
    {
        text::same_opt(&self.from, &other.from) && text::same_opt(&self.to, &other.to)
    }
}

/// The views of a list of windows.
pub open spec fn windows_view(ws: Seq<Window>) -> Seq<WindowView> {
    ws.map_values(|w: Window| w@)
}

/// The instants of a range that can be chunked: both bounds are there and parse,
/// and the range is not empty.
pub open spec fn instants(from: Option<Seq<char>>, to: Option<Seq<char>>) -> Option<(int, int)> {
    match (from, to) {
        (Some(f), Some(t)) => match (calendar::instant_of(f), calendar::instant_of(t)) {
            (Some(start), Some(end)) => if start < end {
                Some((start, end))
            } else {
                None
            },
            _ => None,
        },
        _ => None,
    }
}

/// The number of steps that cover a length.
pub open spec fn step_count(length: int, step: int) -> int {
    (length + step - 1) / step
}

/// The window of a chunked range that begins `i` steps after its start. The
/// outermost bounds are the range's own texts.
pub open spec fn chunk(
    from: Seq<char>,
    to: Seq<char>,
    start: int,
    end: int,
    step: int,
    i: int,
) -> WindowView {
    WindowView {
        from: Some(
            if i == 0 {
                from
            } else {
                calendar::instant_text(start + i * step)
            },
        ),
        to: Some(
            if i == step_count(end - start, step) - 1 {
                to
            } else {
                calendar::instant_text(start + (i + 1) * step)
            },
        ),
    }
}

/// The windows of a range: chunks of `minutes`, or the range itself where it
/// cannot be chunked.
pub open spec fn planned(from: Option<Seq<char>>, to: Option<Seq<char>>, minutes: int) -> Seq<
    WindowView,
> {
    match instants(from, to) {
        Some((start, end)) if minutes > 0 => Seq::new(
            step_count(end - start, minutes * 60) as nat,
            |i: int| chunk(from->0, to->0, start, end, minutes * 60, i),
        ),
        _ => seq![WindowView { from, to }],
    }
}

/// Whether the first boundary of a chunked range is an instant that an `i64`
/// counts.
pub open spec fn plan_fits(from: Option<Seq<char>>, to: Option<Seq<char>>, minutes: int) -> bool {
    match instants(from, to) {
        Some((start, _)) => minutes * 60 <= i64::MAX && start + minutes * 60 <= i64::MAX,
        None => true,
    }
}

proof fn step_count_covers(length: int, step: int)
    requires
        length > 0,
        step > 0,
    ensures
        step_count(length, step) >= 1,
        (step_count(length, step) - 1) * step < length <= step_count(length, step) * step,
{
    let n = step_count(length, step);
    assert((n - 1) * step < length && length <= n * step && n >= 1) by (nonlinear_arith)
        requires
            n == (length + step - 1) / step,
            length > 0,
            step > 0,
    ;
}

/// Whether the windows of a range can be computed.
pub fn windows_fit(from: &Option<String>, to: &Option<String>, window_minutes: u64) -> (r: bool)
    ensures
        r == plan_fits(text::opt_text(*from), text::opt_text(*to), window_minutes as int),
{
    match (from, to) {
        (Some(f), Some(t)) => match (
            calendar::parse_epoch_secs(f.as_str()),
            calendar::parse_epoch_secs(t.as_str()),
        ) {
            (Some(start), Some(end)) => if start < end {
                let step: i128 = window_minutes as i128 * 60;
                step <= i64::MAX as i128 && start as i128 + step <= i64::MAX as i128
            } else {
                true
            },
            _ => true,
        },
        _ => true,
    }
}

/// The window with the range's own bounds.
fn single(from: &Option<String>, to: &Option<String>) -> (r: Vec<Window>)
    ensures
        windows_view(r@) == seq![
            WindowView { from: text::opt_text(*from), to: text::opt_text(*to) },
        ],
{
    let mut out: Vec<Window> = Vec::new();
    out.push(Window { from: text::clone_opt(from), to: text::clone_opt(to) });
    assert(windows_view(out@) =~= seq![
        WindowView { from: text::opt_text(*from), to: text::opt_text(*to) },
    ]);
    out
}

/// Split a range of instants into windows of `step` seconds.
fn chunks(f: &String, t: &String, start: i64, end: i64, step: i64) -> (r: Vec<Window>)
    requires
        start < end,
        -1_000_000_000_000 <= start,
        end <= 1_000_000_000_000,
        step > 0,
        start + step <= i64::MAX,
    ensures
        windows_view(r@) == Seq::new(
            step_count(end - start, step as int) as nat,
            |i: int| chunk(f@, t@, start as int, end as int, step as int, i),
        ),
{
    let ghost n = step_count(end - start, step as int);
    let ghost plan = Seq::new(
        n as nat,
        |i: int| chunk(f@, t@, start as int, end as int, step as int, i),
    );
    proof {
        step_count_covers(end - start, step as int);
    }
    let mut windows: Vec<Window> = Vec::new();
    let mut cursor: i64 = start;
    let ghost mut i: int = 0;
    while cursor < end
        invariant
            start <= cursor <= end,
            -1_000_000_000_000 <= start,
            end <= 1_000_000_000_000,
            step > 0,
            start + step <= i64::MAX,
            n == step_count(end - start, step as int),
            n >= 1,
            (n - 1) * step < end - start <= n * step,
            plan == Seq::new(
                n as nat,
                |i: int| chunk(f@, t@, start as int, end as int, step as int, i),
            ),
            0 <= i <= n,
            windows@.len() == i,
            cursor < end ==> cursor == start + i * step && i < n,
            cursor == end ==> i == n,
            forall|k: int| 0 <= k < i ==> (#[trigger] windows@[k])@ == plan[k],
        decreases end - cursor,
    {
        proof {
            assert(i == 0 <==> cursor == start) by (nonlinear_arith)
                requires
                    cursor == start + i * step,
                    step > 0,
                    i >= 0,
            ;
            assert((i + 1) * step == i * step + step) by (nonlinear_arith);
            assert(i < n - 1 ==> (i + 1) * step <= (n - 1) * step) by (nonlinear_arith)
                requires
                    step > 0,
            ;
            assert(cursor + step <= i64::MAX) by {
                if i > 0 {
                    assert(i * step >= step) by (nonlinear_arith)
                        requires
                            i > 0,
                            step > 0,
                    ;
                }
            }
        }
        let reach: i64 = cursor + step;
        let next: i64 = if reach < end {
            reach
        } else {
            end
        };
        assert(next == end <==> i == n - 1);
        let w = Window {
            // Preserve the caller's exact original endpoints at the extremes so
            // the request bounds round-trip byte-for-byte at the edges.
            from: Some(
                if cursor == start {
                    f.clone()
                } else {
                    calendar::format_epoch_secs(cursor)
                },
            ),
            to: Some(
                if next == end {
                    t.clone()
                } else {
                    calendar::format_epoch_secs(next)
                },
            ),
        };
        assert(w@ == plan[i]);
        windows.push(w);
        cursor = next;
        proof {
            i = i + 1;
        }
    }
    assert(windows_view(windows@) =~= plan);
    windows
}

/// Split `[from, to]` into contiguous windows of `window_minutes`. Adjacent
/// windows share a boundary (window i ends where window i+1 begins); the
/// per-window pagination cursor prevents a boundary event being read twice.
///
/// If either bound is missing or unparseable, or `window_minutes == 0`, returns
/// a single window carrying the original bounds unchanged.
pub fn build_windows(from: &Option<String>, to: &Option<String>, window_minutes: u64) -> (r: Vec<
    Window,
>)
    requires
        plan_fits(text::opt_text(*from), text::opt_text(*to), window_minutes as int),
    ensures
        windows_view(r@) == planned(
            text::opt_text(*from),
            text::opt_text(*to),
            window_minutes as int,
        ),
{
    match (from, to) {
        (Some(f), Some(t)) => match (
            calendar::parse_epoch_secs(f.as_str()),
            calendar::parse_epoch_secs(t.as_str()),
        ) {
            (Some(start), Some(end)) => {
                if window_minutes == 0 || end <= start {
                    return single(from, to);
                }
                chunks(f, t, start, end, window_minutes as i64 * 60)
            },
            _ => single(from, to),
        },
        _ => single(from, to),
    }
}

// ---------------------------------------------------------------------------
// The resume cursor
// ---------------------------------------------------------------------------

/// A text as a JSON string, or null.
pub open spec fn text_or_null(t: Option<Seq<char>>) -> JsonView {
    match t {
        Some(s) => JsonView::String(s),
        None => JsonView::Null,
    }
}

/// Where a run stands: its live window, the cursor inside it, and the number of
/// windows drained.
pub struct Position {
    pub window: WindowView,
    pub after: Option<Seq<char>>,
    pub done: int,
}

/// What the blob holds under its marker.
pub open spec fn encoded_fields(p: Position) -> Fields {
    Map::<Seq<char>, JsonView>::empty().insert("win_from"@, text_or_null(p.window.from)).insert(
        "win_to"@,
        text_or_null(p.window.to),
    ).insert("after"@, text_or_null(p.after)).insert(
        "windows_done"@,
        JsonView::Number(NumberView::Int(p.done)),
    )
}

/// A position as a resume blob.
pub open spec fn encoded(p: Position) -> Seq<JsonView> {
    seq![
        JsonView::Object(
            Map::<Seq<char>, JsonView>::empty().insert(
                "dd_api"@,
                JsonView::Object(encoded_fields(p)),
            ),
        ),
    ]
}

/// The number of a field, where it is one that a `u64` holds; 0 otherwise.
pub open spec fn count_of(v: Option<JsonView>) -> int {
    match v {
        Some(JsonView::Number(NumberView::Int(i))) => if 0 <= i <= u64::MAX {
            i
        } else {
            0
        },
        _ => 0,
    }
}

/// The position that a resume blob stands for, where it is one this source wrote.
pub open spec fn decoded(blob: Seq<JsonView>) -> Option<Position> {
    if blob.len() == 0 {
        None
    } else {
        match json::field(blob[0], "dd_api"@) {
            Some(JsonView::Object(m)) => Some(
                Position {
                    window: WindowView {
                        from: json::as_text(json::field_of(m, "win_from"@)),
                        to: json::as_text(json::field_of(m, "win_to"@)),
                    },
                    after: json::as_text(json::field_of(m, "after"@)),
                    done: count_of(json::field_of(m, "windows_done"@)),
                },
            ),
            _ => None,
        }
    }
}

/// Decode a resume blob produced by [`DatadogApiSource::cursor`]. Gives the live
/// window, the cursor inside it and the count of drained windows when the blob
/// is one this source wrote; nothing otherwise (start fresh).
pub fn decode_resume(blob: &Vec<Json>) -> (r: Option<(Window, Option<String>, u64)>)
    ensures
        match r {
            Some((win, after, done)) => decoded(json::array_view(blob@)) == Some(
                Position { window: win@, after: text::opt_text(after), done: done as int },
            ),
            None => decoded(json::array_view(blob@)) is None,
        },
{
    proof {
        json::array_view_index(blob@);
    }
    if blob.len() == 0 {
        return None;
    }
    match blob[0].get("dd_api") {
        Some(Json::Object(m)) => {
            let from: Option<String> = text_of(json::get(m, "win_from"));
            let to: Option<String> = text_of(json::get(m, "win_to"));
            let after: Option<String> = text_of(json::get(m, "after"));
            let done: u64 = match json::get(m, "windows_done") {
                Some(v) => match v.as_u64() {
                    Some(n) => n,
                    None => 0,
                },
                None => 0,
            };
            Some((Window { from, to }, after, done))
        },
        _ => None,
    }
}

/// The text of a string value.
fn text_of(v: Option<&Json>) -> (r: Option<String>)
    ensures
        text::opt_text(r) == json::as_text(json::ref_view(v)),
{
    match v {
        Some(Json::String(s)) => Some(s.clone()),
        _ => None,
    }
}

/// An optional text as a JSON string, or null.
fn json_of(t: &Option<String>) -> (r: Json)
    ensures
        r.view() == text_or_null(text::opt_text(*t)),
{
    match t {
        Some(s) => Json::String(s.clone()),
        None => Json::Null,
    }
}

// ---------------------------------------------------------------------------
// The source
// ---------------------------------------------------------------------------

/// The Logs Search API as a source of documents.
pub struct DatadogApiSource {
    pub site: String,
    pub api_key: String,
    pub app_key: String,
    pub query: String,
    pub from: Option<String>,
    pub to: Option<String>,
    pub window_minutes: u64,
    /// Opaque resume blob from a prior checkpoint cursor.
    pub resume_after: Option<Vec<Json>>,
    /// Resolved API base URL (or the override of [`Self::with_base_url`]).
    pub base_url: Option<String>,
    /// Base-URL override, applied in `open()` instead of `site`.
    pub base_url_override: Option<String>,
    /// The windows still to process, in order. The front element is the live
    /// window. Adjacent windows share a boundary; the per-window cursor prevents
    /// double reads.
    pub windows: Vec<Window>,
    /// Pagination cursor inside the live window. `None` means "first page of the
    /// live window"; the window is exhausted when a response carries no
    /// `meta.page.after`.
    pub after: Option<String>,
    /// Count of fully drained windows, surfaced in the resume cursor.
    pub windows_done: u64,
    /// Bounds of the live window, mirrored for the resume cursor. `None` once
    /// every window is exhausted.
    pub current: Option<Window>,
    /// Set once all windows drain, so that no further page is asked for.
    pub exhausted: bool,
}

/// The moving part of a source.
pub struct Progress {
    pub windows: Seq<WindowView>,
    pub after: Option<Seq<char>>,
    pub done: int,
    pub exhausted: bool,
}

/// The front of a list of windows.
pub open spec fn front(ws: Seq<WindowView>) -> Option<WindowView> {
    if ws.len() > 0 {
        Some(ws[0])
    } else {
        None
    }
}

/// The bounds of an optional window.
pub open spec fn opt_window(w: Option<Window>) -> Option<WindowView> {
    match w {
        Some(x) => Some(x@),
        None => None,
    }
}

/// `plan` from the first window that is `win`.
pub open spec fn dropped_to(plan: Seq<WindowView>, win: WindowView) -> Seq<WindowView>
    decreases plan.len(),
{
    if plan.len() == 0 || plan[0] == win {
        plan
    } else {
        dropped_to(plan.drop_first(), win)
    }
}

/// The windows that a resumed run still has to process: those of the plan from
/// the saved one on. A saved window that is not in the plan stands alone, so
/// that resume still makes forward progress.
pub open spec fn resumed(plan: Seq<WindowView>, win: WindowView) -> Seq<WindowView> {
    let rest = dropped_to(plan, win);
    if rest.len() > 0 {
        rest
    } else {
        seq![win]
    }
}

/// Whether a position is that of a run which has drained every window.
pub open spec fn finished(p: Position) -> bool {
    p.window.from is None && p.window.to is None && p.after is None && p.done > 0
}

/// The windows that a run still has to process when it starts from a saved
/// position. Drained windows are skipped; after a finished run none is left.
pub open spec fn remaining(plan: Seq<WindowView>, p: Position) -> Seq<WindowView> {
    if finished(p) {
        Seq::empty()
    } else {
        resumed(plan, p.window)
    }
}

/// The position that a checkpoint blob carries, if any.
pub open spec fn saved(blob: Option<Vec<Json>>) -> Option<Position> {
    match blob {
        Some(b) => decoded(json::array_view(b@)),
        None => None,
    }
}

/// One `data[]` event as a document. Where the event has no id of its own, its
/// flattened body may have one.
pub open spec fn event_document(event: JsonView) -> DocumentView {
    let body = flatten_api::flattened(event);
    DocumentView {
        index: "datadog"@,
        id: match json::as_text(json::field(event, "id"@)) {
            Some(id) if id.len() > 0 => id,
            _ => match json::as_text(json::field(body, "id"@)) {
                Some(id) => id,
                None => Seq::empty(),
            },
        },
        body,
    }
}

/// The documents of a response page.
pub open spec fn page_documents(page: JsonView) -> Seq<DocumentView> {
    match json::field(page, "data"@) {
        Some(JsonView::Array(events)) => events.map_values(|e: JsonView| event_document(e)),
        _ => Seq::empty(),
    }
}

/// A field of a field.
pub open spec fn subfield(v: Option<JsonView>, key: Seq<char>) -> Option<JsonView> {
    match v {
        Some(x) => json::field(x, key),
        None => None,
    }
}

/// The cursor of the page after a response page.
pub open spec fn page_after(page: JsonView) -> Option<Seq<char>> {
    json::as_text(subfield(subfield(json::field(page, "meta"@), "page"@), "after"@))
}

/// Progress once the live window is drained.
pub open spec fn advanced(p: Progress) -> Progress {
    let rest = if p.windows.len() > 0 {
        p.windows.drop_first()
    } else {
        p.windows
    };
    Progress {
        windows: rest,
        after: None,
        done: p.done + 1,
        exhausted: p.exhausted || rest.len() == 0,
    }
}

/// Progress after a response page: within the live window where the page names
/// the next one, to the next window where it does not.
pub open spec fn turned(p: Progress, page: JsonView) -> Progress {
    match page_after(page) {
        Some(a) => Progress { windows: p.windows, after: Some(a), done: p.done, exhausted: p.exhausted },
        None => advanced(p),
    }
}

/// The request filter of a window.
pub open spec fn filter_fields(query: Seq<char>, w: WindowView) -> Fields {
    let q = Map::<Seq<char>, JsonView>::empty().insert("query"@, JsonView::String(query));
    let f = match w.from {
        Some(t) => q.insert("from"@, JsonView::String(t)),
        None => q,
    };
    match w.to {
        Some(t) => f.insert("to"@, JsonView::String(t)),
        None => f,
    }
}

/// The request page of a cursor.
pub open spec fn page_fields(after: Option<Seq<char>>) -> Fields {
    let p = Map::<Seq<char>, JsonView>::empty().insert(
        "limit"@,
        JsonView::Number(NumberView::Int(1000)),
    );
    match after {
        Some(a) => p.insert("cursor"@, JsonView::String(a)),
        None => p,
    }
}

/// The request body for a window and a cursor inside it.
pub open spec fn search_request(query: Seq<char>, w: WindowView, after: Option<Seq<char>>) -> JsonView {
    JsonView::Object(
        Map::<Seq<char>, JsonView>::empty().insert(
            "filter"@,
            JsonView::Object(filter_fields(query, w)),
        ).insert("page"@, JsonView::Object(page_fields(after))),
    )
}

impl DatadogApiSource {
    /// What moves as the source is read.
    pub open spec fn progress(&self) -> Progress {
        Progress {
            windows: windows_view(self.windows@),
            after: text::opt_text(self.after),
            done: self.windows_done as int,
            exhausted: self.exhausted,
        }
    }

    /// Whether `current` mirrors the front window, and the source is exhausted
    /// once there is none.
    pub open spec fn wf(&self) -> bool {
        &&& opt_window(self.current) == front(windows_view(self.windows@))
        &&& self.windows@.len() == 0 ==> self.exhausted
    }

    /// Whether two sources are configured alike.
    pub open spec fn same_settings(&self, other: &DatadogApiSource) -> bool {
        &&& self.site == other.site
        &&& self.api_key == other.api_key
        &&& self.app_key == other.app_key
        &&& self.query == other.query
        &&& self.from == other.from
        &&& self.to == other.to
        &&& self.window_minutes == other.window_minutes
        &&& self.resume_after == other.resume_after
        &&& self.base_url_override == other.base_url_override
    }

    /// The windows of the configured range.
    pub open spec fn plan(&self) -> Seq<WindowView> {
        planned(
            text::opt_text(self.from),
            text::opt_text(self.to),
            self.window_minutes as int,
        )
    }

    /// Where the run stands, for the checkpoint.
    pub open spec fn position(&self) -> Position {
        Position {
            window: match self.current {
                Some(w) => w@,
                None => WindowView { from: None, to: None },
            },
            after: text::opt_text(self.after),
            done: self.windows_done as int,
        }
    }

    /// Progress right after `open`: the whole plan, or what a saved position
    /// leaves of it.
    pub open spec fn opened(&self) -> Progress {
        match saved(self.resume_after) {
            Some(p) => Progress {
                windows: remaining(self.plan(), p),
                after: p.after,
                done: p.done,
                exhausted: self.exhausted || finished(p),
            },
            None => Progress {
                windows: self.plan(),
                after: text::opt_text(self.after),
                done: self.windows_done as int,
                exhausted: self.exhausted,
            },
        }
    }

    /// The base URL that `open` settles on: the override, else that of the site.
    pub open spec fn resolved_url(&self) -> Option<Seq<char>> {
        match self.base_url_override {
            Some(u) => Some(u@),
            None => site::site_url(self.site@),
        }
    }

    /// A source that has read nothing yet.
    pub fn new(
        site: &str,
        api_key: &str,
        app_key: &str,
        query: &str,
        from: Option<String>,
        to: Option<String>,
        window_minutes: u64,
        resume_after: Option<Vec<Json>>,
    ) -> (r: Result<DatadogApiSource, EsiftError>)
        ensures
            r matches Ok(s) && {
                &&& s.site@ == site@
                &&& s.api_key@ == api_key@
                &&& s.app_key@ == app_key@
                &&& s.query@ == query@
                &&& s.from == from
                &&& s.to == to
                &&& s.window_minutes == window_minutes
                &&& s.resume_after == resume_after
                &&& s.base_url is None
                &&& s.base_url_override is None
                &&& s.current is None
                &&& s.progress() == (Progress {
                    windows: Seq::empty(),
                    after: None,
                    done: 0,
                    exhausted: false,
                })
            },
    {
        let s = DatadogApiSource {
            site: site.to_owned(),
            api_key: api_key.to_owned(),
            app_key: app_key.to_owned(),
            query: query.to_owned(),
            from,
            to,
            window_minutes,
            resume_after,
            base_url: None,
            base_url_override: None,
            windows: Vec::new(),
            after: None,
            windows_done: 0,
            current: None,
            exhausted: false,
        };
        assert(windows_view(s.windows@) =~= Seq::empty());
        Ok(s)
    }

    /// Point the source at an explicit base URL, bypassing `site::base_url`.
    pub fn with_base_url(self, base_url: &str) -> (r: DatadogApiSource)
        ensures
            r.base_url_override matches Some(u) && u@ == base_url@,
            r == (DatadogApiSource { base_url_override: r.base_url_override, ..self }),
    {
        DatadogApiSource { base_url_override: Some(base_url.to_owned()), ..self }
    }

    /// Prepares the source: resolves the base URL, checks that the keys can be
    /// sent as headers, and plans the windows, continuing from the resume blob
    /// where it is one this source wrote.
    ///
    /// The site is validated even when an override is set, so a bad
    /// configuration is still caught. Where a key cannot be sent, the base URL is
    /// already resolved; nothing else has moved.
    pub fn open(&mut self) -> (r: Result<(), EsiftError>)
        requires
            plan_fits(
                text::opt_text(old(self).from),
                text::opt_text(old(self).to),
                old(self).window_minutes as int,
            ),
        ensures
            final(self).same_settings(old(self)),
            match r {
                Ok(_) => {
                    &&& site::site_url(old(self).site@) is Some
                    &&& http::header_text(old(self).api_key@)
                    &&& http::header_text(old(self).app_key@)
                    &&& text::opt_text(final(self).base_url) == old(self).resolved_url()
                    &&& final(self).progress() == old(self).opened()
                    &&& final(self).wf()
                },
                Err(e) => {
                    &&& *final(self) == (DatadogApiSource {
                        base_url: final(self).base_url,
                        ..*old(self)
                    })
                    &&& if site::site_url(old(self).site@) is None {
                        &&& e is Config
                        &&& e.detail() == site::unknown_site(old(self).site@)
                        &&& final(self).base_url == old(self).base_url
                    } else {
                        &&& text::opt_text(final(self).base_url) == old(self).resolved_url()
                        &&& e is Source
                        &&& if !http::header_text(old(self).api_key@) {
                            e.detail() == "Invalid DD-API-KEY: "@
                                + "failed to parse header value"@
                        } else {
                            !http::header_text(old(self).app_key@) && e.detail()
                                == "Invalid DD-APPLICATION-KEY: "@
                                + "failed to parse header value"@
                        }
                    }
                },
            },
    {
        let resolved: String = match site::base_url(self.site.as_str()) {
            Ok(u) => u,
            Err(e) => {
                return Err(e);
            },
        };
        self.base_url = match &self.base_url_override {
            Some(u) => Some(u.clone()),
            None => Some(resolved),
        };
        if let Some(e) = http::header_error(self.api_key.as_str()) {
            return Err(EsiftError::Source(text::join2("Invalid DD-API-KEY: ", e.as_str())));
        }
        if let Some(e) = http::header_error(self.app_key.as_str()) {
            return Err(EsiftError::Source(text::join2("Invalid DD-APPLICATION-KEY: ", e.as_str())));
        }
        let mut windows = build_windows(&self.from, &self.to, self.window_minutes);
        proof {
            plan_not_empty(
                text::opt_text(self.from),
                text::opt_text(self.to),
                self.window_minutes as int,
            );
        }
        let found: Option<(Window, Option<String>, u64)> = match &self.resume_after {
            Some(blob) => decode_resume(blob),
            None => None,
        };
        if let Some((win, after, done)) = found {
            if win.from.is_none() && win.to.is_none() && after.is_none() && done > 0 {
                windows = Vec::new();
                assert(windows_view(windows@) =~= Seq::empty());
            } else {
                let rest = drop_to(&windows, &win);
                if rest.len() > 0 {
                    windows = rest;
                } else {
                    windows = Vec::new();
                    windows.push(win);
                    assert(windows_view(windows@) =~= seq![win@]);
                }
            }
            self.after = after;
            self.windows_done = done;
        }
        self.current = if windows.len() > 0 {
            Some(windows[0].clone())
        } else {
            None
        };
        if self.current.is_none() {
            self.exhausted = true;
        }
        self.windows = windows;
        Ok(())
    }
}

/// The windows from the first one that is `win`.
fn drop_to(windows: &Vec<Window>, win: &Window) -> (r: Vec<Window>)
    ensures
        windows_view(r@) == dropped_to(windows_view(windows@), win@),
{
    let n: usize = windows.len();
    let mut from: usize = 0;
    let ghost plan = windows_view(windows@);
    assert(plan.skip(0) =~= plan);
    while from < n && !windows[from].same(win)
        invariant
            n == windows@.len(),
            from <= n,
            plan == windows_view(windows@),
            dropped_to(plan.skip(from as int), win@) == dropped_to(plan, win@),
        decreases n - from,
    {
        assert(plan.skip(from as int).drop_first() =~= plan.skip(from + 1));
        from = from + 1;
    }
    let mut out: Vec<Window> = Vec::new();
    let mut i: usize = from;
    while i < n
        invariant
            n == windows@.len(),
            from <= i <= n,
            plan == windows_view(windows@),
            windows_view(out@) == plan.subrange(from as int, i as int),
        decreases n - i,
    {
        let ghost before = out@;
        let w = windows[i].clone();
        out.push(w);
        i = i + 1;
        assert(windows_view(out@) =~= windows_view(before).push(w@));
        assert(plan.subrange(from as int, i as int) =~= plan.subrange(from as int, i - 1).push(
            plan[i - 1],
        ));
    }
    assert(plan.subrange(from as int, n as int) =~= plan.skip(from as int));
    out
}

/// A plan has at least one window.
pub proof fn plan_not_empty(from: Option<Seq<char>>, to: Option<Seq<char>>, minutes: int)
    requires
        minutes >= 0,
    ensures
        planned(from, to, minutes).len() >= 1,
{
    if let Some((start, end)) = instants(from, to) {
        if minutes > 0 {
            step_count_covers(end - start, minutes * 60);
        }
    }
}

// ---------------------------------------------------------------------------
// Reading pages
// ---------------------------------------------------------------------------

/// How long to wait after a 429, in milliseconds: to the reset instant plus a
/// jitter, at most a minute; briefly where the reset is past or unknown.
pub open spec fn wait_ms(reset: Option<int>, now: int) -> int {
    match reset {
        Some(at) => if at <= now {
            250
        } else if (at - now) * 1000 + 50 > 60_000 {
            60_000
        } else {
            (at - now) * 1000 + 50
        },
        None => 200,
    }
}

/// The reset instant that a header names, in Unix seconds.
pub open spec fn reset_of(header: Option<Seq<char>>) -> Option<int> {
    match header {
        Some(h) => number::within(
            number::signed_number(text::trim(h)),
            i64::MIN as int,
            i64::MAX as int,
        ),
        None => None,
    }
}

/// Compute how long to sleep after a 429, from `X-RateLimit-Reset` (unix
/// seconds) and the present second. Sleeps to that instant plus a small fixed
/// jitter; clamps to a sane ceiling and falls back to a short wait when the
/// header is absent or in the past.
pub fn rate_limit_wait(reset: &Option<String>, now: i64) -> (r: u64)
    ensures
        r == wait_ms(reset_of(text::opt_text(*reset)), now as int),
{
    let at: Option<i64> = match reset {
        Some(h) => {
            let cs = text::chars_of(h.as_str());
            let t = text::trimmed(&cs);
            number::parse_i64(&t)
        },
        None => None,
    };
    match at {
        Some(unix) => {
            let delta: i128 = unix as i128 - now as i128;
            if delta <= 0 {
                250
            } else if delta * 1000 + 50 > 60_000 {
                60_000
            } else {
                (delta * 1000 + 50) as u64
            }
        },
        None => 200,
    }
}

/// What to do with a response to a search.
#[derive(Debug, Clone, Copy, PartialEq, Eq, Structural)]
pub enum Verdict {
    /// Rate-limited: wait this many milliseconds, then ask once more.
    Wait(u64),
    /// Refused: report the status and the body.
    Refused,
    /// Answered: the body is a page.
    Answered,
}

/// What a response asks for, by its status and its `X-RateLimit-Reset` header.
/// `retried` says whether the search was already asked a second time: a 429 is
/// waited out once.
pub fn judge(status: u16, reset: &Option<String>, now: i64, retried: bool) -> (r: Verdict)
    ensures
        r == if status == 429 && !retried {
            Verdict::Wait(wait_ms(reset_of(text::opt_text(*reset)), now as int) as u64)
        } else if http::is_success(status) {
            Verdict::Answered
        } else {
            Verdict::Refused
        },
{
    if status == 429 && !retried {
        Verdict::Wait(rate_limit_wait(reset, now))
    } else if http::success(status) {
        Verdict::Answered
    } else {
        Verdict::Refused
    }
}

/// The error of a refused search.
pub fn search_failed(status: u16, body: &str) -> (r: EsiftError)
    requires
        100 <= status <= 999,
    ensures
        r is Source,
        r.detail() == http::failure_text("Datadog logs search failed"@, status, body@),
{
    EsiftError::Source(http::failure("Datadog logs search failed", status, body))
}

/// One `data[]` event as a document.
fn document_of(event: &Json) -> (r: Document)
    ensures
        r@ == event_document(event.view()),
{
    let own: String = match event.text_field("id") {
        Some(id) => id,
        None => String::new(),
    };
    let body = flatten_api::flatten(event.clone());
    let blank: bool = text::chars_of(own.as_str()).len() == 0;
    let id: String = if blank {
        match body.text_field("id") {
            Some(id) => id,
            None => String::new(),
        }
    } else {
        own
    };
    Document { index: "datadog".to_owned(), id, body }
}

/// The documents of a response page, in order.
fn documents_of(page: &Json) -> (r: Vec<Document>)
    ensures
        crate::documents(r@) == page_documents(page.view()),
{
    let mut out: Vec<Document> = Vec::new();
    match page.get("data") {
        Some(Json::Array(events)) => {
            let n: usize = events.len();
            let mut i: usize = 0;
            proof {
                json::array_view_index(events@);
            }
            while i < n
                invariant
                    n == events@.len(),
                    i <= n,
                    out@.len() == i,
                    forall|k: int|
                        0 <= k < i ==> (#[trigger] out@[k])@ == event_document(events@[k].view()),
                decreases n - i,
            {
                out.push(document_of(&events[i]));
                i = i + 1;
            }
            assert(crate::documents(out@) =~= page_documents(page.view()));
        },
        _ => {
            assert(crate::documents(out@) =~= Seq::empty());
        },
    }
    out
}

impl DatadogApiSource {
    /// The URL that searches go to, known once the source is open.
    pub fn search_url(&self) -> (r: Result<String, EsiftError>)
        ensures
            match r {
                Ok(u) => self.base_url matches Some(base) && u@ == base@
                    + "/api/v2/logs/events/search"@,
                Err(e) => self.base_url is None && e is Source && e.detail()
                    == "Call open() before next_batch()"@,
            },
    {
        match &self.base_url {
            Some(base) => Ok(text::join2(base.as_str(), "/api/v2/logs/events/search")),
            None => Err(EsiftError::Source("Call open() before next_batch()".to_owned())),
        }
    }

    /// Build the request body for a window and the current cursor.
    pub fn search_body(&self, window: &Window) -> (r: Json)
        ensures
            r.view() == search_request(self.query@, window@, text::opt_text(self.after)),
    {
        let mut filter: Vec<(String, Json)> = Vec::new();
        json::put(&mut filter, "query", Json::String(self.query.clone()));
        if let Some(f) = &window.from {
            json::put(&mut filter, "from", Json::String(f.clone()));
        }
        if let Some(t) = &window.to {
            json::put(&mut filter, "to", Json::String(t.clone()));
        }
        let mut page: Vec<(String, Json)> = Vec::new();
        json::put(&mut page, "limit", Json::Number(JsonNumber::Unsigned(1000)));
        if let Some(after) = &self.after {
            json::put(&mut page, "cursor", Json::String(after.clone()));
        }
        let mut body: Vec<(String, Json)> = Vec::new();
        json::put(&mut body, "filter", Json::Object(filter));
        json::put(&mut body, "page", Json::Object(page));
        Json::Object(body)
    }

    /// The body of the next search, or nothing once every window is drained.
    pub fn next_request(&mut self) -> (r: Option<Json>)
        ensures
            final(self).same_settings(old(self)),
            final(self).base_url == old(self).base_url,
            final(self).windows == old(self).windows,
            final(self).after == old(self).after,
            final(self).windows_done == old(self).windows_done,
            final(self).current == old(self).current,
            final(self).exhausted == (old(self).exhausted || old(self).current is None),
            match r {
                Some(body) => {
                    &&& !old(self).exhausted
                    &&& old(self).current is Some
                    &&& body.view() == search_request(
                        old(self).query@,
                        old(self).current->0@,
                        text::opt_text(old(self).after),
                    )
                },
                None => old(self).exhausted || old(self).current is None,
            },
    {
        if self.exhausted {
            return None;
        }
        let body: Option<Json> = match &self.current {
            Some(w) => Some(self.search_body(w)),
            None => None,
        };
        if body.is_none() {
            self.exhausted = true;
        }
        body
    }

    /// Advance to the next window: drop the live one, reset the in-window cursor.
    /// Marks the run exhausted once no windows remain.
    pub fn advance_window(&mut self)
        requires
            old(self).windows_done < u64::MAX,
        ensures
            final(self).same_settings(old(self)),
            final(self).base_url == old(self).base_url,
            final(self).progress() == advanced(old(self).progress()),
            final(self).wf(),
    {
        let ghost before = windows_view(self.windows@);
        self.windows_done = self.windows_done + 1;
        self.after = None;
        if self.windows.len() > 0 {
            let _ = self.windows.remove(0);
            assert(windows_view(self.windows@) =~= before.drop_first());
        } else {
            assert(windows_view(self.windows@) =~= before);
        }
        self.current = if self.windows.len() > 0 {
            Some(self.windows[0].clone())
        } else {
            None
        };
        if self.current.is_none() {
            self.exhausted = true;
        }
    }

    /// Takes in the page that answered a search. Gives its documents, or nothing
    /// where it has none; an empty page is no batch, and the next one is asked
    /// for.
    ///
    /// A page without a next cursor drains its window. The source then already
    /// stands at the next window, and so does its resume cursor.
    pub fn on_page(&mut self, page: &Json) -> (r: Option<Vec<Document>>)
        requires
            old(self).windows_done < u64::MAX,
            old(self).wf(),
        ensures
            final(self).same_settings(old(self)),
            final(self).base_url == old(self).base_url,
            final(self).progress() == turned(old(self).progress(), page.view()),
            final(self).wf(),
            match r {
                Some(docs) => docs@.len() > 0 && crate::documents(docs@) == page_documents(
                    page.view(),
                ),
                None => page_documents(page.view()).len() == 0,
            },
    {
        let next: Option<String> = match page.get("meta") {
            Some(meta) => match meta.get("page") {
                Some(p) => p.text_field("after"),
                None => None,
            },
            None => None,
        };
        let docs = documents_of(page);
        if next.is_some() {
            self.after = next;
        } else {
            self.advance_window();
        }
        assert(crate::documents(docs@).len() == docs@.len());
        if docs.len() == 0 {
            None
        } else {
            Some(docs)
        }
    }

    /// The resume cursor: where the run stands.
    pub fn cursor(&self) -> (r: Option<Vec<Json>>)
        ensures
            r matches Some(blob) && json::array_view(blob@) == encoded(self.position()),
    {
        let mut m: Vec<(String, Json)> = Vec::new();
        match &self.current {
            Some(w) => {
                json::put(&mut m, "win_from", json_of(&w.from));
                json::put(&mut m, "win_to", json_of(&w.to));
            },
            None => {
                json::put(&mut m, "win_from", Json::Null);
                json::put(&mut m, "win_to", Json::Null);
            },
        }
        json::put(&mut m, "after", json_of(&self.after));
        json::put(&mut m, "windows_done", Json::Number(JsonNumber::Unsigned(self.windows_done)));
        let mut marked: Vec<(String, Json)> = Vec::new();
        json::put(&mut marked, "dd_api", Json::Object(m));
        let blob: Vec<Json> = vec![Json::Object(marked)];
        proof {
            json::array_view_index(blob@);
            assert(json::array_view(blob@) =~= encoded(self.position()));
        }
        Some(blob)
    }

    /// Human-readable label.
    pub fn description(&self) -> (r: String)
        ensures
            r@ == "Datadog API site="@ + self.site@,
    {
        text::join2("Datadog API site=", self.site.as_str())
    }
}

// ---------------------------------------------------------------------------
// Laws
// ---------------------------------------------------------------------------

/// Adjacent windows share a boundary, the outermost bounds are the range's own,
/// and no window is longer than the configured minutes: read one after the
/// other, the windows cover the range without a gap.
pub proof fn windows_cover_the_range(from: Seq<char>, to: Seq<char>, minutes: int, i: int)
    requires
        minutes > 0,
        instants(Some(from), Some(to)) is Some,
        0 <= i < planned(Some(from), Some(to), minutes).len(),
    ensures
        ({
            let plan = planned(Some(from), Some(to), minutes);
            let (start, end) = instants(Some(from), Some(to))->0;
            let n = plan.len() as int;
            &&& plan[0].from == Some(from)
            &&& plan[n - 1].to == Some(to)
            &&& i + 1 < n ==> plan[i].to == plan[i + 1].from
            &&& i + 1 < n ==> plan[i].to == Some(
                calendar::instant_text(start + (i + 1) * (minutes * 60)),
            )
            &&& start + i * (minutes * 60) < end
            &&& end <= start + n * (minutes * 60)
        }),
{
    let (start, end) = instants(Some(from), Some(to))->0;
    let step = minutes * 60;
    let n = step_count(end - start, step);
    step_count_covers(end - start, step);
    assert(i * step <= (n - 1) * step) by (nonlinear_arith)
        requires
            i <= n - 1,
            step > 0,
    ;
}

/// No two windows of a plan begin alike.
pub proof fn windows_begin_apart(
    from: Option<Seq<char>>,
    to: Option<Seq<char>>,
    minutes: int,
    i: int,
    j: int,
)
    requires
        minutes >= 0,
        0 <= i < j < planned(from, to, minutes).len(),
    ensures
        planned(from, to, minutes)[i].from != planned(from, to, minutes)[j].from,
{
    let (start, end) = instants(from, to)->0;
    let step = minutes * 60;
    assert(i * step < j * step && 0 < j * step) by (nonlinear_arith)
        requires
            0 <= i < j,
            step > 0,
    ;
    if planned(from, to, minutes)[i].from == planned(from, to, minutes)[j].from {
        if i == 0 {
            calendar::formatted_instants_parse(start + j * step);
        } else {
            calendar::instant_texts_are_distinct(start + i * step, start + j * step);
        }
    }
}

/// A resume blob gives back the position that it was made from.
pub proof fn cursors_read_back(p: Position)
    requires
        0 <= p.done <= u64::MAX,
    ensures
        decoded(encoded(p)) == Some(p),
{
    reveal_strlit("win_from");
    reveal_strlit("win_to");
    reveal_strlit("after");
    reveal_strlit("windows_done");
    assert("win_from"@.len() == 8 && "win_to"@.len() == 6 && "after"@.len() == 5
        && "windows_done"@.len() == 12);
    let m = encoded_fields(p);
    assert(json::as_text(json::field_of(m, "win_from"@)) == p.window.from);
    assert(json::as_text(json::field_of(m, "win_to"@)) == p.window.to);
    assert(json::as_text(json::field_of(m, "after"@)) == p.after);
}

proof fn dropped_to_its_window(plan: Seq<WindowView>, k: int)
    requires
        0 <= k < plan.len(),
        forall|i: int| 0 <= i < k ==> #[trigger] plan[i] != plan[k],
    ensures
        dropped_to(plan, plan[k]) == plan.skip(k),
    decreases k,
{
    if k == 0 {
        assert(plan.skip(0) =~= plan);
    } else {
        assert(plan[0] != plan[k]);
        let rest = plan.drop_first();
        assert forall|i: int| 0 <= i < k - 1 implies #[trigger] rest[i] != rest[k - 1] by {
            assert(plan[i + 1] != plan[k]);
        }
        dropped_to_its_window(rest, k - 1);
        assert(rest.skip(k - 1) =~= plan.skip(k));
    }
}

/// The position of a run that has drained the first `k` windows of its plan.
pub open spec fn standing(plan: Seq<WindowView>, k: int, after: Option<Seq<char>>) -> Position {
    Position {
        window: if k < plan.len() {
            plan[k]
        } else {
            WindowView { from: None, to: None }
        },
        after,
        done: k,
    }
}

/// A run that stops and is started again with the same range continues where it
/// stopped: the drained windows are skipped, the live one is resumed at the saved
/// cursor, and every later one is still to come. After the last window nothing
/// is left to read.
pub proof fn resume_continues(
    from: Option<Seq<char>>,
    to: Option<Seq<char>>,
    minutes: int,
    k: int,
    after: Option<Seq<char>>,
)
    requires
        minutes >= 0,
        0 <= k <= planned(from, to, minutes).len(),
        k <= u64::MAX,
        k == planned(from, to, minutes).len() ==> after is None,
    ensures
        ({
            let plan = planned(from, to, minutes);
            let p = standing(plan, k, after);
            &&& decoded(encoded(p)) == Some(p)
            &&& remaining(plan, p) == plan.skip(k)
        }),
{
    let plan = planned(from, to, minutes);
    let p = standing(plan, k, after);
    cursors_read_back(p);
    plan_not_empty(from, to, minutes);
    if k < plan.len() {
        assert forall|i: int| 0 <= i < k implies #[trigger] plan[i] != plan[k] by {
            windows_begin_apart(from, to, minutes, i, k);
        }
        dropped_to_its_window(plan, k);
    } else {
        assert(plan.skip(k) =~= Seq::empty());
    }
}

/// Once every window is drained, the source stays exhausted.
pub proof fn exhausted_stays(p: Progress, page: JsonView)
    requires
        p.exhausted,
    ensures
        turned(p, page).exhausted,
{
}

/// The cursor with which page `j` of a window is asked for: none for the first
/// page, and for a later one what the page before it names.
pub open spec fn asked_with(pages: Seq<JsonView>, j: int) -> Option<Seq<char>> {
    if j == 0 {
        None
    } else {
        page_after(pages[j - 1])
    }
}

/// Whether `pages` are what a server holds for a window: asked with the cursor of
/// each page it answers that page, and every page but the last names a next one.
pub open spec fn serves(
    server: spec_fn(JsonView) -> JsonView,
    query: Seq<char>,
    w: WindowView,
    pages: Seq<JsonView>,
) -> bool {
    &&& pages.len() > 0
    &&& forall|j: int|
        0 <= j < pages.len() ==> server(search_request(query, w, asked_with(pages, j)))
            == #[trigger] pages[j]
    &&& forall|j: int|
        0 <= j < pages.len() ==> (page_after(#[trigger] pages[j]) is None <==> j == pages.len()
            - 1)
}

/// The batches of a run against a server that makes at most so many searches,
/// and where it then stands. An empty page is no batch.
pub open spec fn run(
    server: spec_fn(JsonView) -> JsonView,
    query: Seq<char>,
    p: Progress,
    searches: nat,
) -> (Seq<Seq<DocumentView>>, Progress)
    decreases searches,
{
    if searches == 0 || p.exhausted || p.windows.len() == 0 {
        (Seq::empty(), p)
    } else {
        let page = server(search_request(query, p.windows[0], p.after));
        let docs = page_documents(page);
        let (rest, end) = run(server, query, turned(p, page), (searches - 1) as nat);
        (
            if docs.len() > 0 {
                seq![docs] + rest
            } else {
                rest
            },
            end,
        )
    }
}

/// The documents of each of the pages.
pub open spec fn documents_by_page(pages: Seq<JsonView>) -> Seq<Seq<DocumentView>> {
    pages.map_values(|p: JsonView| page_documents(p))
}

/// The batches that pages make: the documents of those that have any.
pub open spec fn batches(pages: Seq<JsonView>) -> Seq<Seq<DocumentView>> {
    documents_by_page(pages).filter(|b: Seq<DocumentView>| b.len() > 0)
}

proof fn batches_step(page: JsonView, rest: Seq<JsonView>)
    ensures
        batches(seq![page] + rest) == if page_documents(page).len() > 0 {
            seq![page_documents(page)] + batches(rest)
        } else {
            batches(rest)
        },
        documents_by_page(seq![page] + rest).flatten() == page_documents(page)
            + documents_by_page(rest).flatten(),
{
    let some = |b: Seq<DocumentView>| b.len() > 0;
    let one = seq![page_documents(page)];
    assert(documents_by_page(seq![page] + rest) =~= one + documents_by_page(rest));
    Seq::filter_distributes_over_add(one, documents_by_page(rest), some);
    reveal(Seq::filter);
    assert(one.drop_last() =~= Seq::empty());
    assert(one.drop_last().filter(some) =~= Seq::empty());
    assert(one.filter(some) =~= if page_documents(page).len() > 0 {
        one
    } else {
        Seq::empty()
    });
    assert(Seq::<Seq<DocumentView>>::empty() + batches(rest) =~= batches(rest));
    assert((one + documents_by_page(rest)).drop_first() =~= documents_by_page(rest));
}

/// No batch is empty, and the batches hold the documents of the pages, in order.
pub proof fn batches_hold_the_documents(pages: Seq<JsonView>)
    ensures
        forall|i: int| 0 <= i < batches(pages).len() ==> (#[trigger] batches(pages)[i]).len() > 0,
        batches(pages).flatten() == documents_by_page(pages).flatten(),
    decreases pages.len(),
{
    let some = |b: Seq<DocumentView>| b.len() > 0;
    assert forall|i: int| 0 <= i < batches(pages).len() implies (#[trigger] batches(
        pages,
    )[i]).len() > 0 by {
        documents_by_page(pages).lemma_filter_pred(some, i);
    }
    if pages.len() == 0 {
        reveal(Seq::filter);
        assert(documents_by_page(pages) =~= Seq::empty());
    } else {
        let rest = pages.drop_first();
        assert(pages =~= seq![pages[0]] + rest);
        batches_step(pages[0], rest);
        batches_hold_the_documents(rest);
        let docs = page_documents(pages[0]);
        if docs.len() > 0 {
            assert((seq![docs] + batches(rest)).drop_first() =~= batches(rest));
        } else {
            assert(docs + documents_by_page(rest).flatten() =~= documents_by_page(rest).flatten());
        }
    }
}

/// A document of a page whose event has an id is that event: its id, and its
/// flattened body.
pub proof fn events_are_documents(page: JsonView, events: Seq<JsonView>, i: int, id: Seq<char>)
    requires
        json::field(page, "data"@) == Some(JsonView::Array(events)),
        0 <= i < events.len(),
        json::field(events[i], "id"@) == Some(JsonView::String(id)),
        id.len() > 0,
    ensures
        page_documents(page).len() == events.len(),
        page_documents(page)[i] == (DocumentView {
            index: "datadog"@,
            id,
            body: flatten_api::flattened(events[i]),
        }),
{
}

/// The pages from page `j` of the first window on.
pub open spec fn pages_from(chains: Seq<Seq<JsonView>>, j: int) -> Seq<JsonView> {
    if chains.len() == 0 {
        Seq::empty()
    } else {
        chains[0].skip(j) + chains.drop_first().flatten()
    }
}

#[verifier::rlimit(40)]
proof fn run_reads_on(
    server: spec_fn(JsonView) -> JsonView,
    query: Seq<char>,
    p: Progress,
    chains: Seq<Seq<JsonView>>,
    j: int,
    searches: nat,
)
    requires
        p.windows.len() == chains.len(),
        p.exhausted == (chains.len() == 0),
        forall|i: int|
            0 <= i < chains.len() ==> serves(server, query, p.windows[i], #[trigger] chains[i]),
        chains.len() > 0 ==> 0 <= j < chains[0].len() && p.after == asked_with(chains[0], j),
        chains.len() == 0 ==> p.after is None,
        searches >= pages_from(chains, j).len(),
    ensures
        run(server, query, p, searches) == (
            batches(pages_from(chains, j)),
            Progress {
                windows: Seq::empty(),
                after: None,
                done: p.done + chains.len(),
                exhausted: true,
            },
        ),
    decreases pages_from(chains, j).len(),
{
    if chains.len() == 0 {
        reveal(Seq::filter);
        assert(documents_by_page(pages_from(chains, j)) =~= Seq::empty());
        assert(p.windows =~= Seq::empty());
    } else {
        let pages = chains[0];
        let page = pages[j];
        let next = turned(p, page);
        assert(serves(server, query, p.windows[0], pages));
        assert(server(search_request(query, p.windows[0], p.after)) == page);
        if j + 1 < pages.len() {
            assert(page_after(page) is Some);
            assert(pages_from(chains, j) =~= seq![page] + pages_from(chains, j + 1));
            batches_step(page, pages_from(chains, j + 1));
            run_reads_on(server, query, next, chains, j + 1, (searches - 1) as nat);
        } else {
            let later = chains.drop_first();
            assert(page_after(page) is None);
            assert(pages_from(later, 0) =~= later.flatten()) by {
                if later.len() > 0 {
                    assert(later[0].skip(0) =~= later[0]);
                }
            }
            assert(pages_from(chains, j) =~= seq![page] + pages_from(later, 0));
            batches_step(page, pages_from(later, 0));
            assert forall|i: int| 0 <= i < later.len() implies serves(
                server,
                query,
                next.windows[i],
                #[trigger] later[i],
            ) by {
                assert(serves(server, query, p.windows[i + 1], chains[i + 1]));
            }
            if later.len() > 0 {
                assert(serves(server, query, next.windows[0], later[0]));
            }
            run_reads_on(server, query, next, later, 0, (searches - 1) as nat);
        }
    }
}

/// An open source that starts afresh reads everything: against a server that
/// holds finitely many pages for each window of the plan, the batches are the
/// documents of all the pages of all the windows, each page once, windows in the
/// order of the plan and pages in the order of their cursors. As many searches
/// as there are pages drain the source, and no later one adds anything.
#[verifier::rlimit(40)]
pub proof fn draining_reads_everything(
    source: DatadogApiSource,
    server: spec_fn(JsonView) -> JsonView,
    chains: Seq<Seq<JsonView>>,
    searches: nat,
)
    requires
        saved(source.resume_after) is None,
        source.after is None,
        !source.exhausted,
        chains.len() == source.plan().len(),
        forall|i: int|
            0 <= i < chains.len() ==> serves(
                server,
                source.query@,
                source.plan()[i],
                #[trigger] chains[i],
            ),
        searches >= chains.flatten().len(),
    ensures
        run(server, source.query@, source.opened(), searches) == (
            batches(chains.flatten()),
            Progress {
                windows: Seq::empty(),
                after: None,
                done: source.windows_done + source.plan().len(),
                exhausted: true,
            },
        ),
        batches(chains.flatten()).flatten() == documents_by_page(chains.flatten()).flatten(),
{
    plan_not_empty(
        text::opt_text(source.from),
        text::opt_text(source.to),
        source.window_minutes as int,
    );
    assert(chains[0].skip(0) =~= chains[0]);
    assert(pages_from(chains, 0) =~= chains.flatten());
    assert(serves(server, source.query@, source.plan()[0], chains[0]));
    run_reads_on(server, source.query@, source.opened(), chains, 0, searches);
    batches_hold_the_documents(chains.flatten());
}

/// A source that resumes where a run stood reads exactly what that run had still
/// to read: the pages of the live window from the saved cursor on, then every
/// page of every later window.
#[verifier::rlimit(40)]
pub proof fn resuming_reads_the_rest(
    source: DatadogApiSource,
    server: spec_fn(JsonView) -> JsonView,
    chains: Seq<Seq<JsonView>>,
    k: int,
    j: int,
    searches: nat,
)
    requires
        chains.len() == source.plan().len(),
        forall|i: int|
            0 <= i < chains.len() ==> serves(
                server,
                source.query@,
                source.plan()[i],
                #[trigger] chains[i],
            ),
        0 <= k <= chains.len(),
        k < chains.len() ==> 0 <= j < chains[k].len(),
        source.resume_after matches Some(blob) && json::array_view(blob@) == encoded(
            standing(
                source.plan(),
                k,
                if k < chains.len() {
                    asked_with(chains[k], j)
                } else {
                    None
                },
            ),
        ),
        !source.exhausted,
        k <= u64::MAX,
        searches >= pages_from(chains.skip(k), j).len(),
    ensures
        run(server, source.query@, source.opened(), searches) == (
            batches(pages_from(chains.skip(k), j)),
            Progress {
                windows: Seq::empty(),
                after: None,
                done: source.plan().len() as int,
                exhausted: true,
            },
        ),
{
    let plan = source.plan();
    let after = if k < chains.len() {
        asked_with(chains[k], j)
    } else {
        None
    };
    let rest = chains.skip(k);
    plan_not_empty(
        text::opt_text(source.from),
        text::opt_text(source.to),
        source.window_minutes as int,
    );
    resume_continues(
        text::opt_text(source.from),
        text::opt_text(source.to),
        source.window_minutes as int,
        k,
        after,
    );
    let p = source.opened();
    assert forall|i: int| 0 <= i < rest.len() implies serves(
        server,
        source.query@,
        p.windows[i],
        #[trigger] rest[i],
    ) by {
        assert(serves(server, source.query@, plan[i + k], chains[i + k]));
    }
    assert(p.windows.len() == rest.len());
    run_reads_on(server, source.query@, p, rest, j, searches);
}

/// Where progress stands, for the checkpoint.
pub open spec fn place(p: Progress) -> Position {
    Position {
        window: match front(p.windows) {
            Some(w) => w,
            None => WindowView { from: None, to: None },
        },
        after: p.after,
        done: p.done,
    }
}

/// The cursor of a source is the place of its progress.
pub proof fn cursors_hold_the_place(source: DatadogApiSource)
    requires
        source.wf(),
    ensures
        source.position() == place(source.progress()),
{
}

/// A run of some searches and then of some more is one run of all of them.
proof fn run_splits(
    server: spec_fn(JsonView) -> JsonView,
    query: Seq<char>,
    p: Progress,
    searches: nat,
    more: nat,
)
    ensures
        ({
            let (first, mid) = run(server, query, p, searches);
            let (second, end) = run(server, query, mid, more);
            run(server, query, p, searches + more) == (first + second, end)
        }),
    decreases searches,
{
    let (first, mid) = run(server, query, p, searches);
    let (second, end) = run(server, query, mid, more);
    if p.exhausted || p.windows.len() == 0 {
        assert(first + second =~= Seq::empty());
    } else if searches == 0 {
        assert(first + second =~= second);
    } else {
        let page = server(search_request(query, p.windows[0], p.after));
        run_splits(server, query, turned(p, page), (searches - 1) as nat, more);
        let (tail, _) = run(server, query, turned(p, page), (searches - 1) as nat);
        let docs = page_documents(page);
        assert(seq![docs] + (tail + second) =~= (seq![docs] + tail) + second);
    }
}

proof fn run_stays_on_the_plan(
    server: spec_fn(JsonView) -> JsonView,
    query: Seq<char>,
    plan: Seq<WindowView>,
    k: int,
    p: Progress,
    searches: nat,
) -> (at: int)
    requires
        0 <= k <= plan.len(),
        p.windows == plan.skip(k),
        p.done == k,
        p.exhausted == (k == plan.len()),
        k == plan.len() ==> p.after is None,
    ensures
        k <= at <= plan.len(),
        ({
            let end = run(server, query, p, searches).1;
            &&& end.windows == plan.skip(at)
            &&& end.done == at
            &&& end.exhausted == (at == plan.len())
            &&& at == plan.len() ==> end.after is None
        }),
    decreases searches,
{
    if searches == 0 || k == plan.len() {
        k
    } else {
        let page = server(search_request(query, p.windows[0], p.after));
        let next = turned(p, page);
        assert(plan.skip(k).drop_first() =~= plan.skip(k + 1));
        if page_after(page) is Some {
            run_stays_on_the_plan(server, query, plan, k, next, (searches - 1) as nat)
        } else {
            run_stays_on_the_plan(server, query, plan, k + 1, next, (searches - 1) as nat)
        }
    }
}

/// No event is duplicated or skipped where a run is interrupted. `first` starts
/// afresh, makes some searches and stops; `second`, configured alike, is opened
/// with the cursor of `first` and makes some more. Whatever the server answers,
/// the batches of both are those of one run of all the searches, and both runs
/// end at the same place.
#[verifier::rlimit(40)]
pub proof fn interrupted_runs_are_whole(
    first: DatadogApiSource,
    second: DatadogApiSource,
    server: spec_fn(JsonView) -> JsonView,
    searches: nat,
    more: nat,
)
    requires
        saved(first.resume_after) is None,
        first.after is None,
        first.windows_done == 0,
        !first.exhausted,
        first.plan().len() <= u64::MAX,
        second.query@ == first.query@,
        second.from == first.from,
        second.to == first.to,
        second.window_minutes == first.window_minutes,
        !second.exhausted,
        second.resume_after matches Some(blob) && json::array_view(blob@) == encoded(
            place(run(server, first.query@, first.opened(), searches).1),
        ),
    ensures
        second.opened() == run(server, first.query@, first.opened(), searches).1,
        ({
            let (before, _) = run(server, first.query@, first.opened(), searches);
            let (after, end) = run(server, second.query@, second.opened(), more);
            run(server, first.query@, first.opened(), searches + more) == (before + after, end)
        }),
{
    let plan = first.plan();
    let (from, to) = (text::opt_text(first.from), text::opt_text(first.to));
    let minutes = first.window_minutes as int;
    plan_not_empty(from, to, minutes);
    assert(plan.skip(0) =~= plan);
    let k = run_stays_on_the_plan(server, first.query@, plan, 0, first.opened(), searches);
    let mid = run(server, first.query@, first.opened(), searches).1;
    assert(place(mid) == standing(plan, k, mid.after));
    resume_continues(from, to, minutes, k, mid.after);
    let p = standing(plan, k, mid.after);
    assert(finished(p) <==> k == plan.len());
    assert(second.opened() == mid);
    run_splits(server, first.query@, first.opened(), searches, more);
}

/// Draining a window moves on to the next one of the plan, until none is left.
pub proof fn draining_walks_the_plan(plan: Seq<WindowView>, k: int, after: Option<Seq<char>>)
    requires
        0 <= k < plan.len(),
    ensures
        ({
            let p = advanced(
                Progress { windows: plan.skip(k), after, done: k, exhausted: false },
            );
            &&& p.windows == plan.skip(k + 1)
            &&& p.after is None
            &&& p.done == k + 1
            &&& p.exhausted == (k + 1 == plan.len())
        }),
{
    assert(plan.skip(k).drop_first() =~= plan.skip(k + 1));
}

/// Every page of a window is asked for with the configured query and the window's
/// own bounds, whatever the cursor: a bound that the window does not have is left
/// out.
pub proof fn searches_ask_the_configured_query(
    query: Seq<char>,
    w: WindowView,
    after: Option<Seq<char>>,
)
    ensures
        json::field(search_request(query, w, after), "filter"@) matches Some(filter) && {
            &&& json::field(filter, "query"@) == Some(JsonView::String(query))
            &&& match w.from {
                Some(t) => json::field(filter, "from"@) == Some(JsonView::String(t)),
                None => json::field(filter, "from"@) is None,
            }
            &&& match w.to {
                Some(t) => json::field(filter, "to"@) == Some(JsonView::String(t)),
                None => json::field(filter, "to"@) is None,
            }
        },
{
    request_keys_apart();
}

/// A page is asked for behind its cursor, where there is one, and in the size of
/// the API's largest pages. A request holds its filter and its page, and nothing
/// else.
pub proof fn searches_carry_the_cursor(
    query: Seq<char>,
    w: WindowView,
    after: Option<Seq<char>>,
    key: Seq<char>,
)
    ensures
        json::field(search_request(query, w, after), "page"@) matches Some(page) && {
            &&& json::field(page, "limit"@) == Some(JsonView::Number(NumberView::Int(1000)))
            &&& match after {
                Some(a) => json::field(page, "cursor"@) == Some(JsonView::String(a)),
                None => json::field(page, "cursor"@) is None,
            }
        },
        json::field(search_request(query, w, after), key) is Some ==> key == "filter"@ || key
            == "page"@,
{
    request_keys_apart();
}

proof fn request_keys_apart()
    ensures
        "filter"@ != "page"@,
        "query"@ != "from"@,
        "query"@ != "to"@,
        "from"@ != "to"@,
        "limit"@ != "cursor"@,
{
    reveal_strlit("filter");
    reveal_strlit("page");
    reveal_strlit("query");
    reveal_strlit("from");
    reveal_strlit("to");
    reveal_strlit("limit");
    reveal_strlit("cursor");
    assert("filter"@.len() == 6 && "page"@.len() == 4 && "query"@.len() == 5 && "from"@.len() == 4
        && "to"@.len() == 2 && "limit"@.len() == 5 && "cursor"@.len() == 6);
}

/// A range whose bounds are instants, the first before the second, is cut into
/// windows of the configured length: the first begins and the last ends with the
/// range, each begins where the one before ends, every inner boundary lies a whole
/// number of lengths behind the start and inside the range, and the last window is
/// no longer than the others.
pub proof fn ranges_are_cut_into_windows(
    from: Seq<char>,
    to: Seq<char>,
    start: int,
    end: int,
    minutes: int,
    i: int,
)
    requires
        calendar::instant_of(from) == Some(start),
        calendar::instant_of(to) == Some(end),
        start < end,
        minutes > 0,
        0 <= i < planned(Some(from), Some(to), minutes).len(),
    ensures
        ({
            let plan = planned(Some(from), Some(to), minutes);
            let n = plan.len() as int;
            &&& plan[0].from == Some(from)
            &&& plan[n - 1].to == Some(to)
            &&& i + 1 < n ==> {
                &&& plan[i].to == Some(calendar::instant_text(start + (i + 1) * (minutes * 60)))
                &&& plan[i + 1].from == plan[i].to
                &&& start + (i + 1) * (minutes * 60) < end
            }
            &&& i + 1 == n ==> end <= start + (i + 1) * (minutes * 60)
        }),
{
    let step = minutes * 60;
    let n = step_count(end - start, step);
    step_count_covers(end - start, step);
    assert((i + 1) * step <= (n - 1) * step || i + 1 == n) by (nonlinear_arith)
        requires
            i + 1 <= n,
            step > 0,
    ;
}

/// A range that cannot be cut is one window of its own: where a bound is missing
/// or names no instant, where it does not end after it begins, and where the
/// windows have no length.
pub proof fn other_ranges_stay_whole(
    from: Option<Seq<char>>,
    to: Option<Seq<char>>,
    minutes: int,
)
    requires
        from is None || to is None || calendar::instant_of(from->0) is None || calendar::instant_of(
            to->0,
        ) is None || calendar::instant_of(from->0)->0 >= calendar::instant_of(to->0)->0 || minutes
            <= 0,
    ensures
        planned(from, to, minutes).len() == 1,
        planned(from, to, minutes)[0].from == from,
        planned(from, to, minutes)[0].to == to,
{
}

/// A rate limit is waited out: to the instant that the server names and a little
/// longer, unless that is more than a minute away; never more than a minute, never
/// not at all, and never shorter for a later instant.
pub proof fn waits_reach_the_reset(at: int, later: int, now: int)
    requires
        at <= later,
    ensures
        wait_ms(Some(at), now) <= 60_000,
        0 < wait_ms(Some(at), now),
        0 < wait_ms(None, now) < 1000,
        at <= now ==> wait_ms(Some(at), now) < 1000,
        now < at && at - now < 60 ==> (at - now) * 1000 < wait_ms(Some(at), now) < (at - now) * 1000
            + 1000,
        at - now >= 60 ==> wait_ms(Some(at), now) == 60_000,
        now < at ==> wait_ms(Some(at), now) <= wait_ms(Some(later), now),
{
}

/// The instant of a reset is the number that the header holds, white space around
/// it or not; a header that holds no number, or none that fits, names none.
pub proof fn resets_are_read_from_the_header(n: int, header: Seq<char>)
    ensures
        i64::MIN <= n <= i64::MAX ==> reset_of(Some(number::integer_text(n))) == Some(n),
        text::trim(header) == number::integer_text(n) && i64::MIN <= n <= i64::MAX ==> reset_of(
            Some(header),
        ) == Some(n),
        number::signed_number(text::trim(header)) is None ==> reset_of(Some(header)) is None,
        reset_of(None) is None,
{
    number::integers_read_back(n);
    numerals_need_no_trimming(n);
}

proof fn numerals_need_no_trimming(n: int)
    ensures
        text::trim(number::integer_text(n)) == number::integer_text(n),
{
    let t = number::integer_text(n);
    number::integers_read_back(n);
    number::only_numerals_are_read(t);
    assert(!text::is_white(t[0]));
    if t.len() > 1 {
        assert(number::is_digit(t[t.len() - 1]));
    }
    text::trimmed_texts_stay(t);
}

/// An event without an id of its own takes that of its flattened body, if that is
/// a text, and else has none. Every event of a page is a document, in order.
pub proof fn every_event_is_a_document(page: JsonView, events: Seq<JsonView>, i: int)
    requires
        json::field(page, "data"@) == Some(JsonView::Array(events)),
        0 <= i < events.len(),
    ensures
        page_documents(page).len() == events.len(),
        page_documents(page)[i].index == "datadog"@,
        page_documents(page)[i].body == flatten_api::flattened(events[i]),
        !(json::field(events[i], "id"@) matches Some(JsonView::String(id)) && id.len() > 0) ==> (
        match json::field(flatten_api::flattened(events[i]), "id"@) {
            Some(JsonView::String(id)) => page_documents(page)[i].id == id,
            _ => page_documents(page)[i].id.len() == 0,
        }),
{
}

/// A page without a list of events has no documents.
pub proof fn pages_without_events_are_empty(page: JsonView)
    requires
        !(json::field(page, "data"@) matches Some(JsonView::Array(_))),
    ensures
        page_documents(page).len() == 0,
{
}

/// The cursor of the next page is the text under `meta.page.after`; where there is
/// none, the window ends.
pub proof fn next_pages_are_named_by_the_page(page: JsonView, meta: JsonView, inner: JsonView)
    requires
        json::field(page, "meta"@) == Some(meta),
        json::field(meta, "page"@) == Some(inner),
    ensures
        page_after(page) == match json::field(inner, "after"@) {
            Some(JsonView::String(a)) => Some(a),
            _ => None,
        },
{
}

/// A response without `meta.page` names no next page.
pub proof fn pages_without_meta_are_last(page: JsonView)
    requires
        json::field(page, "meta"@) is None || json::field(
            json::field(page, "meta"@)->0,
            "page"@,
        ) is None,
    ensures
        page_after(page) is None,
{
}

/// A page that names the next one keeps the run in its window, behind that cursor;
/// one that names none moves it to the beginning of the next window and counts the
/// window as drained.
pub proof fn pages_move_the_run(p: Progress, page: JsonView)
    requires
        p.windows.len() > 0,
        !p.exhausted,
    ensures
        page_after(page) is Some ==> turned(p, page) == (Progress {
            after: page_after(page),
            ..p
        }),
        page_after(page) is None ==> {
            let next = turned(p, page);
            &&& next.windows == p.windows.skip(1)
            &&& next.after is None
            &&& next.done == p.done + 1
            &&& next.exhausted == (p.windows.len() == 1)
        },
{
    assert(p.windows.drop_first() =~= p.windows.skip(1));
}

/// A resume blob is one value that holds, under `dd_api`, the bounds of the live
/// window, the cursor inside it and the number of windows drained.
pub proof fn cursors_have_their_form(p: Position)
    ensures
        encoded(p).len() == 1,
        json::field(encoded(p)[0], "dd_api"@) matches Some(m) && {
            &&& json::field(m, "windows_done"@) == Some(JsonView::Number(NumberView::Int(p.done)))
            &&& match p.window.from {
                Some(t) => json::field(m, "win_from"@) == Some(JsonView::String(t)),
                None => json::field(m, "win_from"@) == Some(JsonView::Null),
            }
            &&& match p.window.to {
                Some(t) => json::field(m, "win_to"@) == Some(JsonView::String(t)),
                None => json::field(m, "win_to"@) == Some(JsonView::Null),
            }
            &&& match p.after {
                Some(t) => json::field(m, "after"@) == Some(JsonView::String(t)),
                None => json::field(m, "after"@) == Some(JsonView::Null),
            }
        },
{
    reveal_strlit("win_from");
    reveal_strlit("win_to");
    reveal_strlit("after");
    reveal_strlit("windows_done");
    assert("win_from"@.len() == 8 && "win_to"@.len() == 6 && "after"@.len() == 5
        && "windows_done"@.len() == 12);
}

/// A blob of another source, or of none, is no position: the run starts afresh.
pub proof fn other_blobs_start_fresh(blob: Seq<JsonView>)
    requires
        blob.len() == 0 || !(json::field(blob[0], "dd_api"@) matches Some(JsonView::Object(_))),
    ensures
        decoded(blob) is None,
{
}

/// A run that starts afresh plans the whole range; one that resumes stands where
/// its blob says, with the windows from there on.
pub proof fn runs_open_where_they_stand(source: DatadogApiSource)
    requires
        !source.exhausted,
        source.after is None,
        source.windows_done == 0,
    ensures
        saved(source.resume_after) is None ==> {
            &&& source.opened().windows == source.plan()
            &&& source.opened().after is None
            &&& source.opened().done == 0
            &&& !source.opened().exhausted
        },
        saved(source.resume_after) matches Some(p) ==> {
            &&& source.opened().after == p.after
            &&& source.opened().done == p.done
            &&& source.opened().windows == remaining(source.plan(), p)
        },
        source.resume_after is None ==> saved(source.resume_after) is None,
{
}

/// Two sources that are configured alike agree on every setting.
pub proof fn settings_are_all_kept(a: DatadogApiSource, b: DatadogApiSource)
    requires
        a.same_settings(&b),
    ensures
        a.site == b.site,
        a.api_key == b.api_key,
        a.app_key == b.app_key,
        a.query == b.query,
        a.from == b.from,
        a.to == b.to,
        a.window_minutes == b.window_minutes,
        a.resume_after == b.resume_after,
        a.base_url_override == b.base_url_override,
{
}

/// What is known of a source's progress is what its fields hold; its plan is that
/// of its own range and window length; and the base URL is the override where
/// there is one.
pub proof fn progress_shows_the_fields(source: DatadogApiSource, w: Window)
    ensures
        source.progress().windows.len() == source.windows@.len(),
        forall|i: int|
            0 <= i < source.windows@.len() ==> #[trigger] source.progress().windows[i]
                == source.windows@[i]@,
        source.progress().after == text::opt_text(source.after),
        source.progress().done == source.windows_done,
        source.progress().exhausted == source.exhausted,
        source.plan() == planned(
            text::opt_text(source.from),
            text::opt_text(source.to),
            source.window_minutes as int,
        ),
        source.base_url_override matches Some(u) ==> source.resolved_url() == Some(u@),
        source.base_url_override is None ==> source.resolved_url() == site::site_url(source.site@),
        w@.from == text::opt_text(w.from),
        w@.to == text::opt_text(w.to),
{
}

/// A run goes on at the saved window: from its place in the plan on, or with that
/// window alone where the plan does not have it. Only a position behind the last
/// window, without bounds and cursor but with windows drained, leaves nothing.
pub proof fn runs_go_on_at_the_saved_window(plan: Seq<WindowView>, p: Position, i: int)
    ensures
        p.window.from is None && p.window.to is None && p.after is None && p.done > 0 ==> remaining(
            plan,
            p,
        ).len() == 0,
        p.window.from is Some || p.window.to is Some || p.after is Some || p.done <= 0 ==> {
            &&& !plan.contains(p.window) ==> remaining(plan, p) == seq![p.window]
            &&& 0 <= i < plan.len() && plan[i] == p.window && !plan.take(i).contains(p.window)
                ==> remaining(plan, p) == plan.skip(i)
        },
{
    if plan.contains(p.window) {
        if 0 <= i < plan.len() && plan[i] == p.window && !plan.take(i).contains(p.window) {
            plans_are_dropped_to(plan, p.window, i);
        }
    } else {
        plans_without_it_are_dropped(plan, p.window);
    }
}

proof fn plans_are_dropped_to(plan: Seq<WindowView>, win: WindowView, i: int)
    requires
        0 <= i < plan.len(),
        plan[i] == win,
        !plan.take(i).contains(win),
    ensures
        dropped_to(plan, win) == plan.skip(i),
    decreases i,
{
    if i == 0 {
        assert(plan.skip(0) =~= plan);
    } else {
        let rest = plan.drop_first();
        assert(plan.take(i)[0] == plan[0]);
        assert(plan[0] != win);
        if rest.take(i - 1).contains(win) {
            let before = rest.take(i - 1);
            let k = choose|k: int| 0 <= k < before.len() && before[k] == win;
            assert(plan.take(i)[k + 1] == win);
        }
        plans_are_dropped_to(rest, win, i - 1);
        assert(rest.skip(i - 1) =~= plan.skip(i));
    }
}

proof fn plans_without_it_are_dropped(plan: Seq<WindowView>, win: WindowView)
    requires
        !plan.contains(win),
    ensures
        dropped_to(plan, win).len() == 0,
    decreases plan.len(),
{
    if plan.len() > 0 {
        assert(plan.contains(plan[0]));
        let rest = plan.drop_first();
        if rest.contains(win) {
            let k = choose|k: int| 0 <= k < rest.len() && rest[k] == win;
            assert(plan[k + 1] == win);
        }
        plans_without_it_are_dropped(rest, win);
    }
}

/// Whatever its cursor, a source asks for the logs of its own query in the window
/// that is searched.
pub proof fn sources_ask_their_query(source: DatadogApiSource, window: Window, r: Json)
    requires
        call_ensures(DatadogApiSource::search_body, (&source, &window), r),
    ensures
        json::field(r.view(), "filter"@) matches Some(filter) && {
            &&& json::field(filter, "query"@) == Some(JsonView::String(source.query@))
            &&& match window.from {
                Some(t) => json::field(filter, "from"@) == Some(JsonView::String(t@)),
                None => json::field(filter, "from"@) is None,
            }
            &&& match window.to {
                Some(t) => json::field(filter, "to"@) == Some(JsonView::String(t@)),
                None => json::field(filter, "to"@) is None,
            }
        },
        json::field(r.view(), "page"@) matches Some(page) && match source.after {
            Some(a) => json::field(page, "cursor"@) == Some(JsonView::String(a@)),
            None => json::field(page, "cursor"@) is None,
        },
{
    searches_ask_the_configured_query(source.query@, window@, text::opt_text(source.after));
    searches_carry_the_cursor(source.query@, window@, text::opt_text(source.after), "page"@);
}

/// A search is answered by a success and by nothing else. Too many requests are
/// waited out once, for a minute at most, and refused the second time, as every
/// other failure is at once.
pub proof fn rate_limits_are_waited_out_once(
    status: u16,
    reset: Option<String>,
    now: i64,
    retried: bool,
    r: Verdict,
)
    requires
        call_ensures(judge, (status, &reset, now, retried), r),
    ensures
        r is Answered <==> status / 100 == 2,
        r is Wait <==> status == 429 && !retried,
        r matches Verdict::Wait(ms) ==> 0 < ms <= 60_000,
        r matches Verdict::Wait(ms) ==> (reset is None ==> ms < 1000),
        r matches Verdict::Wait(ms) ==> (reset matches Some(h) ==> (reset_of(Some(h@)) matches Some(
            at,
        ) ==> (now < at && at - now < 60 ==> ms > (at - now) * 1000))),
{
    if let Some(at) = reset_of(text::opt_text(reset)) {
        waits_reach_the_reset(at, at, now as int);
    }
}

/// The windows of every range can be computed, unless a range that is cut has its
/// first boundary beyond what an `i64` counts.
pub proof fn windows_fit_but_for_the_last_instants(
    from: Seq<char>,
    to: Seq<char>,
    start: int,
    end: int,
    minutes: int,
)
    requires
        minutes >= 0,
    ensures
        plan_fits(None, Some(to), minutes),
        plan_fits(Some(from), None, minutes),
        calendar::instant_of(from) is None || calendar::instant_of(to) is None ==> plan_fits(
            Some(from),
            Some(to),
            minutes,
        ),
        calendar::instant_of(from) == Some(start) && calendar::instant_of(to) == Some(end) ==> {
            &&& start >= end ==> plan_fits(Some(from), Some(to), minutes)
            &&& start < end && start >= 0 ==> (plan_fits(Some(from), Some(to), minutes) <==> start
                + minutes * 60 <= i64::MAX)
        },
{
}

/// A blob is read field by field: a bound or a cursor that is no text is missing,
/// and a count that is no number, or none that a `u64` holds, is zero.
pub proof fn cursors_are_read_by_field(blob: Seq<JsonView>, m: Fields)
    requires
        blob.len() > 0,
        json::field(blob[0], "dd_api"@) == Some(JsonView::Object(m)),
    ensures
        decoded(blob) matches Some(p) && {
            &&& match json::field_of(m, "win_from"@) {
                Some(JsonView::String(t)) => p.window.from == Some(t),
                _ => p.window.from is None,
            }
            &&& match json::field_of(m, "win_to"@) {
                Some(JsonView::String(t)) => p.window.to == Some(t),
                _ => p.window.to is None,
            }
            &&& match json::field_of(m, "after"@) {
                Some(JsonView::String(t)) => p.after == Some(t),
                _ => p.after is None,
            }
            &&& match json::field_of(m, "windows_done"@) {
                Some(JsonView::Number(NumberView::Int(n))) => p.done == if 0 <= n <= u64::MAX {
                    n
                } else {
                    0
                },
                _ => p.done == 0,
            }
        },
{
}

/// As long as a window is live, the next search asks the source's query in that
/// window, behind the cursor; and asking changes neither the settings nor where the
/// run stands.
pub proof fn requests_ask_in_the_live_window(source: &mut DatadogApiSource, r: Option<Json>)
    requires
        call_ensures(DatadogApiSource::next_request, (source,), r),
    ensures
        r is Some <==> !old(source).exhausted && old(source).current is Some,
        r matches Some(body) ==> (json::field(body.view(), "filter"@) matches Some(filter) && {
            &&& json::field(filter, "query"@) == Some(JsonView::String(old(source).query@))
            &&& match old(source).current->0.from {
                Some(t) => json::field(filter, "from"@) == Some(JsonView::String(t@)),
                None => json::field(filter, "from"@) is None,
            }
            &&& match old(source).current->0.to {
                Some(t) => json::field(filter, "to"@) == Some(JsonView::String(t@)),
                None => json::field(filter, "to"@) is None,
            }
        }),
        r matches Some(body) ==> (json::field(body.view(), "page"@) matches Some(page)
            && match old(source).after {
            Some(a) => json::field(page, "cursor"@) == Some(JsonView::String(a@)),
            None => json::field(page, "cursor"@) is None,
        }),
        final(source).query == old(source).query,
        final(source).windows == old(source).windows,
        final(source).after == old(source).after,
        final(source).windows_done == old(source).windows_done,
        r is None <==> final(source).exhausted,
{
    if r is Some {
        let w = old(source).current->0@;
        let after = text::opt_text(old(source).after);
        searches_ask_the_configured_query(old(source).query@, w, after);
        searches_carry_the_cursor(old(source).query@, w, after, "page"@);
    }
}

/// A page gives its documents, all of them and in order, or nothing where it has
/// none; and the run goes on behind the cursor that the page names, or with the
/// next window.
pub proof fn pages_give_their_documents(
    source: &mut DatadogApiSource,
    page: Json,
    events: Seq<JsonView>,
    r: Option<Vec<Document>>,
    i: int,
)
    requires
        call_ensures(DatadogApiSource::on_page, (source, &page), r),
        json::field(page.view(), "data"@) == Some(JsonView::Array(events)),
    ensures
        r is Some <==> events.len() > 0,
        r matches Some(docs) ==> docs@.len() == events.len() && (0 <= i < events.len() ==> docs@[i]@.body
            == flatten_api::flattened(events[i]) && docs@[i]@.index == "datadog"@),
        page_after(page.view()) matches Some(a) ==> {
            &&& final(source).after matches Some(own) && own@ == a
            &&& windows_view(final(source).windows@) == windows_view(old(source).windows@)
            &&& final(source).windows_done == old(source).windows_done
        },
        page_after(page.view()) is None ==> final(source).after is None
            && final(source).windows_done == old(source).windows_done + 1,
        final(source).query == old(source).query,
{
    assert(page_documents(page.view()).len() == events.len());
    if let Some(docs) = r {
        assert(crate::documents(docs@).len() == docs@.len());
        if 0 <= i < events.len() {
            every_event_is_a_document(page.view(), events, i);
            assert(crate::documents(docs@)[i] == docs@[i]@);
        }
    }
    assert(final(source).progress() == turned(old(source).progress(), page.view()));
}

/// A run that is resumed from its cursor stands where the cursor was taken.
pub proof fn cursors_hold_where_the_run_stands(source: DatadogApiSource, r: Option<Vec<Json>>)
    requires
        call_ensures(DatadogApiSource::cursor, (&source,), r),
    ensures
        r matches Some(blob) && (decoded(json::array_view(blob@)) matches Some(p) && {
            &&& p.after == text::opt_text(source.after)
            &&& p.done == source.windows_done
            &&& source.current matches Some(w) ==> p.window == w@
            &&& source.current is None ==> p.window.from is None && p.window.to is None
        }),
{
    cursors_read_back(source.position());
}

/// A source opens exactly if its site is known and both its keys can be sent. It
/// then stands at the beginning of its plan, or where its checkpoint says.
pub proof fn sources_open_with_a_site_and_keys(
    source: &mut DatadogApiSource,
    r: Result<(), EsiftError>,
)
    requires
        call_ensures(DatadogApiSource::open, (source,), r),
    ensures
        r is Ok <==> site::site_url(old(source).site@) is Some && http::header_text(
            old(source).api_key@,
        ) && http::header_text(old(source).app_key@),
        r matches Err(e) ==> (e is Config <==> site::site_url(old(source).site@) is None),
        r is Err ==> {
            &&& final(source).windows == old(source).windows
            &&& final(source).after == old(source).after
            &&& final(source).windows_done == old(source).windows_done
        },
        r is Ok && old(source).resume_after is None ==> {
            &&& windows_view(final(source).windows@) == old(source).plan()
            &&& final(source).windows_done == old(source).windows_done
            &&& text::opt_text(final(source).after) == text::opt_text(old(source).after)
        },
        r is Ok ==> (old(source).base_url_override matches Some(u) ==> (
        final(source).base_url matches Some(b) && b@ == u@)),
        r is Ok && old(source).base_url_override is None ==> text::opt_text(final(source).base_url)
            == site::site_url(old(source).site@),
        final(source).query == old(source).query,
{
    if r is Ok {
        assert(final(source).progress() == old(source).opened());
    }
}

/// A source that stands well has its first window live, and is exhausted where it
/// has none.
pub proof fn the_first_window_is_live(source: DatadogApiSource)
    requires
        source.wf(),
    ensures
        source.windows@.len() > 0 ==> (source.current matches Some(w) && w@
            == source.windows@[0]@),
        source.windows@.len() == 0 ==> source.current is None && source.exhausted,
{
}

} // verus!
