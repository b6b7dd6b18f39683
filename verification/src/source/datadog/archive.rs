//! Datadog archive source: read compressed-JSON logs straight from object
//! storage, be it S3, Google Cloud Storage or Azure Blob Storage.
//!
//! The objects under a prefix are listed, sorted and filtered. Each one is
//! downloaded, inflated by `decompress` and split into NDJSON lines; every line
//! goes through `flatten_archive` and becomes one [`Document`]. One object is
//! processed at a time so the caller checkpoints at file granularity;
//! [`DatadogArchiveSource::cursor`] records the last fully processed key so a
//! later run skips it.

use crate::calendar;
use crate::error::EsiftError;
use crate::http;
use crate::json;
use crate::json::{Fields, Json, JsonNumber, JsonView, NumberView};
use crate::number;
use crate::order;
use crate::source::datadog::decompress;
use crate::source::datadog::decompress::Codec;
use crate::source::datadog::flatten_archive;
use crate::text;
use crate::text::same_text;
use crate::{Document, DocumentView};
use vstd::prelude::*;
use vstd::seq_lib::*;
use vstd::utf8::*;

verus! {

// ---------------------------------------------------------------------------
// Configuration
// ---------------------------------------------------------------------------

/// Which object-storage backend an archive source reads from. Parsed from the
/// `dd_cloud` setting; defaults to [`CloudProvider::S3`].
#[derive(Debug, Clone, Copy, PartialEq, Eq, Structural)]
pub enum CloudProvider {
    /// Amazon S3 (or any S3-compatible store).
    S3,
    /// Google Cloud Storage.
    Gcs,
    /// Azure Blob Storage.
    Azure,
}

impl Default for CloudProvider {
    fn default() -> (r: CloudProvider)
        ensures
            r == CloudProvider::S3,
    {
        CloudProvider::S3
    }
}

/// The backend that a lowercase name stands for. The empty name is the default.
pub open spec fn provider_of(name: Seq<char>) -> Option<CloudProvider> {
    if name == ""@ || name == "s3"@ {
        Some(CloudProvider::S3)
    } else if name == "gcs"@ {
        Some(CloudProvider::Gcs)
    } else if name == "azure"@ {
        Some(CloudProvider::Azure)
    } else {
        None
    }
}

impl CloudProvider {
    /// Lowercase backend name.
    pub open spec fn name(self) -> Seq<char> {
        match self {
            CloudProvider::S3 => "s3"@,
            CloudProvider::Gcs => "gcs"@,
            CloudProvider::Azure => "azure"@,
        }
    }

    /// Parse `"s3" | "gcs" | "azure"` (case-insensitive). An empty string is
    /// treated as the default ([`CloudProvider::S3`]); anything else errors.
    pub fn parse(s: &str) -> (r: Result<CloudProvider, EsiftError>)
        ensures
            ({
                let name = text::ascii_lower_text(text::trim(s@));
                match r {
                    Ok(p) => provider_of(name) == Some(p),
                    Err(e) => provider_of(name) is None && e is Source && e.detail()
                        == "unknown dd_cloud '"@ + name + "'. Use 's3', 'gcs', or 'azure'"@,
                }
            }),
    {
        let cs = text::chars_of(s);
        let t = text::trimmed(&cs);
        let low = text::ascii_lowercase(&t);
        let name = text::string_of(&low);
        let n = name.as_str();
        if same_text(n, "") || same_text(n, "s3") {
            Ok(CloudProvider::S3)
        } else if same_text(n, "gcs") {
            Ok(CloudProvider::Gcs)
        } else if same_text(n, "azure") {
            Ok(CloudProvider::Azure)
        } else {
            Err(
                EsiftError::Source(
                    text::join3("unknown dd_cloud '", n, "'. Use 's3', 'gcs', or 'azure'"),
                ),
            )
        }
    }

    /// Lowercase backend name, as used in messages.
    pub fn as_str(self) -> (r: &'static str)
        ensures
            r@ == self.name(),
    {
        match self {
            CloudProvider::S3 => "s3",
            CloudProvider::Gcs => "gcs",
            CloudProvider::Azure => "azure",
        }
    }
}

/// How to choose the decompression codec for archive objects.
#[derive(Debug, Clone, Copy, PartialEq, Eq, Structural)]
pub enum Compression {
    /// Pick per object from the key suffix (`.zst` / `.gz`).
    Auto,
    /// Force one codec for every object.
    Fixed(Codec),
}

/// The codec of an object.
pub open spec fn codec_for(compression: Compression, key: Seq<char>) -> Option<Codec> {
    match compression {
        Compression::Fixed(c) => Some(c),
        Compression::Auto => decompress::codec_of(key),
    }
}

// ---------------------------------------------------------------------------
// Hour buckets
// ---------------------------------------------------------------------------

/// An hour: year, month, day and hour of the day.
pub type Bucket = (u32, u32, u32, u32);

/// The number that a text denotes, where a `u32` holds it.
pub open spec fn small_number(s: Seq<char>) -> Option<int> {
    number::within(number::unsigned_number(s), 0, u32::MAX as int)
}

/// The hour that four texts name.
pub open spec fn bucket_at(y: Seq<char>, m: Seq<char>, d: Seq<char>, h: Seq<char>) -> Option<
    Bucket,
> {
    match (small_number(y), small_number(m), small_number(d), small_number(h)) {
        (Some(a), Some(b), Some(c), Some(e)) => Some((a as u32, b as u32, c as u32, e as u32)),
        _ => None,
    }
}

/// `s` without one leading slash.
pub open spec fn after_slash(s: Seq<char>) -> Seq<char> {
    if s.len() > 0 && s[0] == '/' {
        s.skip(1)
    } else {
        s
    }
}

/// The hour that a key lies in: the first four parts of its path behind the
/// prefix, of the widths 4, 2, 2 and 2.
pub open spec fn key_bucket(prefix: Seq<char>, key: Seq<char>) -> Option<Bucket> {
    if text::has_prefix(key, prefix) {
        let parts = text::split(after_slash(key.skip(prefix.len() as int)), '/');
        if parts.len() >= 4 && parts[0].len() == 4 && parts[1].len() == 2 && parts[2].len() == 2
            && parts[3].len() == 2 {
            bucket_at(parts[0], parts[1], parts[2], parts[3])
        } else {
            None
        }
    } else {
        None
    }
}

/// The hour that the columns of a timestamp name. Its columns are bytes.
pub open spec fn iso_bucket(ts: Seq<char>) -> Option<Bucket> {
    let b = text::byte_chars(ts);
    if b.len() < 13 {
        None
    } else {
        bucket_at(b.subrange(0, 4), b.subrange(5, 7), b.subrange(8, 10), b.subrange(11, 13))
    }
}

/// The hour of an optional timestamp.
pub open spec fn bound_bucket(ts: Option<Seq<char>>) -> Option<Bucket> {
    match ts {
        Some(t) => iso_bucket(t),
        None => None,
    }
}

/// Whether one hour is not after another.
pub open spec fn not_after(a: Bucket, b: Bucket) -> bool {
    ||| a.0 < b.0
    ||| a.0 == b.0 && a.1 < b.1
    ||| a.0 == b.0 && a.1 == b.1 && a.2 < b.2
    ||| a.0 == b.0 && a.1 == b.1 && a.2 == b.2 && a.3 <= b.3
}

/// Whether a key lies in a range of hours. A key whose hour is unknown always
/// does: an object that cannot be classified is never dropped.
pub open spec fn in_range(
    prefix: Seq<char>,
    key: Seq<char>,
    from: Option<Bucket>,
    to: Option<Bucket>,
) -> bool {
    match key_bucket(prefix, key) {
        Some(hour) => (from matches Some(f) ==> not_after(f, hour)) && (to matches Some(t)
            ==> not_after(hour, t)),
        None => true,
    }
}

/// Reads the hour that four texts name.
fn read_bucket(y: &Vec<char>, m: &Vec<char>, d: &Vec<char>, h: &Vec<char>) -> (r: Option<Bucket>)
    ensures
        r == bucket_at(y@, m@, d@, h@),
{
    match (
        number::parse_u32(y),
        number::parse_u32(m),
        number::parse_u32(d),
        number::parse_u32(h),
    ) {
        (Some(a), Some(b), Some(c), Some(e)) => Some((a, b, c, e)),
        _ => None,
    }
}

/// Extract the `(year, month, day, hour)` hour bucket from an archive key.
///
/// Datadog lays keys out as `{prefix}/YYYY/MM/DD/HH/MM_hash.json.zst`. Gives
/// nothing if the part behind the prefix doesn't have that shape, so callers can
/// treat such keys conservatively.
pub fn key_hour_bucket(prefix: &str, key: &str) -> (r: Option<Bucket>)
    ensures
        r == key_bucket(prefix@, key@),
{
    let p = text::chars_of(prefix);
    let k = text::chars_of(key);
    if !text::starts_with(&k, &p) {
        return None;
    }
    let n: usize = k.len();
    let from: usize = p.len();
    let start: usize = if from < n && k[from] == '/' {
        from + 1
    } else {
        from
    };
    let rest = text::slice_of(&k, start, n);
    assert(rest@ =~= after_slash(key@.skip(from as int)));
    let parts = text::split_at(&rest, '/');
    assert(text::pieces(parts@).len() == parts@.len());
    if parts.len() < 4 {
        return None;
    }
    assert(text::pieces(parts@)[0] == parts@[0]@);
    assert(text::pieces(parts@)[1] == parts@[1]@);
    assert(text::pieces(parts@)[2] == parts@[2]@);
    assert(text::pieces(parts@)[3] == parts@[3]@);
    if parts[0].len() != 4 || parts[1].len() != 2 || parts[2].len() != 2 || parts[3].len() != 2 {
        return None;
    }
    read_bucket(&parts[0], &parts[1], &parts[2], &parts[3])
}

/// Parse an ISO 8601 timestamp (e.g. `2025-01-01T00:00:00Z`) into the same
/// `(year, month, day, hour)` hour bucket by fixed positions. Gives nothing if
/// the string is too short or any field isn't numeric.
pub fn iso_hour_bucket(ts: &str) -> (r: Option<Bucket>)
    ensures
        r == iso_bucket(ts@),
{
    let b = text::byte_chars_of(ts);
    if b.len() < 13 {
        return None;
    }
    read_bucket(
        &text::slice_of(&b, 0, 4),
        &text::slice_of(&b, 5, 7),
        &text::slice_of(&b, 8, 10),
        &text::slice_of(&b, 11, 13),
    )
}

/// Whether one hour is not after another.
fn hour_not_after(a: Bucket, b: Bucket) -> (r: bool)
    ensures
        r == not_after(a, b),
{
    a.0 < b.0 || (a.0 == b.0 && (a.1 < b.1 || (a.1 == b.1 && (a.2 < b.2 || (a.2 == b.2 && a.3
        <= b.3)))))
}

// ---------------------------------------------------------------------------
// Lines to documents
// ---------------------------------------------------------------------------

/// The words for a line that is not JSON.
pub open spec fn bad_line(key: Seq<char>, n: int, error: Seq<char>) -> Seq<char> {
    "invalid JSON in "@ + key + " line "@ + number::decimal_text(n) + ": "@ + error
}

/// The document of the line with the number `n`.
pub open spec fn line_document(key: Seq<char>, n: int, value: JsonView) -> DocumentView {
    DocumentView {
        index: "datadog"@,
        id: key + "#"@ + number::decimal_text(n),
        body: flatten_archive::flattened(value),
    }
}

/// The documents of the lines of an object: one for each line that is not
/// blank, in order; or the words for the first line that is not JSON.
pub open spec fn line_documents(key: Seq<char>, lines: Seq<Seq<char>>) -> Result<
    Seq<DocumentView>,
    Seq<char>,
>
    decreases lines.len(),
{
    if lines.len() == 0 {
        Ok(Seq::empty())
    } else {
        match line_documents(key, lines.drop_last()) {
            Ok(docs) => if text::trim(lines.last()).len() == 0 {
                Ok(docs)
            } else {
                match json::parsed(lines.last()) {
                    Ok(value) => Ok(docs.push(line_document(key, lines.len() - 1, value))),
                    Err(e) => Err(bad_line(key, lines.len() - 1, e)),
                }
            },
            Err(e) => Err(e),
        }
    }
}

/// The documents of an object's text.
pub open spec fn text_documents(key: Seq<char>, content: Seq<char>) -> Result<
    Seq<DocumentView>,
    Seq<char>,
> {
    line_documents(key, text::split(content, '\n'))
}

/// The documents of an object's payload.
pub open spec fn payload_documents(key: Seq<char>, payload: Seq<u8>) -> Result<
    Seq<DocumentView>,
    Seq<char>,
> {
    if valid_utf8(payload) {
        text_documents(key, decode_utf8(payload))
    } else {
        Err("archive "@ + key + " is not valid UTF-8: "@ + text::utf8_error(payload))
    }
}

/// The documents of an object as it was downloaded.
pub open spec fn object_documents(key: Seq<char>, raw: Seq<u8>, codec: Codec) -> Result<
    Seq<DocumentView>,
    Seq<char>,
> {
    match decompress::decoded(raw, codec) {
        Ok(payload) => payload_documents(key, payload),
        Err(e) => Err(decompress::decode_failed(codec) + e),
    }
}

/// Whether an object was inflated to text of which a line is not JSON.
pub open spec fn has_bad_line(key: Seq<char>, raw: Seq<u8>, codec: Codec) -> bool {
    decompress::decoded(raw, codec) matches Ok(payload) && valid_utf8(payload) && text_documents(
        key,
        decode_utf8(payload),
    ) is Err
}

/// Why an object gave no documents.
#[derive(Debug)]
pub struct Unread {
    pub error: EsiftError,
    /// Whether it is for a line that is not JSON.
    pub bad_line: bool,
}

/// Whether an error is the outcome of an extraction: its words, as a source error.
pub open spec fn refused(e: EsiftError, outcome: Result<Seq<DocumentView>, Seq<char>>) -> bool {
    e is Source && outcome == Err::<Seq<DocumentView>, Seq<char>>(e.detail())
}

/// Whether documents are the outcome of an extraction.
pub open spec fn extracted(
    docs: Seq<Document>,
    outcome: Result<Seq<DocumentView>, Seq<char>>,
) -> bool {
    outcome == Ok::<Seq<DocumentView>, Seq<char>>(crate::documents(docs))
}

proof fn errors_stay(key: Seq<char>, lines: Seq<Seq<char>>, n: int)
    requires
        0 <= n <= lines.len(),
        line_documents(key, lines.take(n)) is Err,
    ensures
        line_documents(key, lines) == line_documents(key, lines.take(n)),
    decreases lines.len() - n,
{
    if n == lines.len() {
        assert(lines.take(n) =~= lines);
    } else {
        assert(lines.take(n + 1).drop_last() =~= lines.take(n));
        errors_stay(key, lines, n + 1);
    }
}

/// Turns the text of an archive object into documents.
pub fn documents_in(key: &str, content: &str) -> (r: Result<Vec<Document>, EsiftError>)
    ensures
        match r {
            Ok(docs) => extracted(docs@, text_documents(key@, content@)),
            Err(e) => refused(e, text_documents(key@, content@)),
        },
{
    let cs = text::chars_of(content);
    let lines = text::split_at(&cs, '\n');
    let ghost all = text::split(content@, '\n');
    let count: usize = lines.len();
    let mut docs: Vec<Document> = Vec::new();
    let mut n: usize = 0;
    proof {
        assert(all.take(0) =~= Seq::empty());
        assert(crate::documents(docs@) =~= Seq::empty());
    }
    while n < count
        invariant
            count == lines@.len(),
            text::pieces(lines@) == all,
            all == text::split(content@, '\n'),
            n <= count,
            line_documents(key@, all.take(n as int)) == Ok::<Seq<DocumentView>, Seq<char>>(
                crate::documents(docs@),
            ),
        decreases count - n,
    {
        let ghost before = docs@;
        proof {
            assert(text::pieces(lines@)[n as int] == lines@[n as int]@);
            assert(all.take(n + 1).drop_last() =~= all.take(n as int));
        }
        if text::trimmed(&lines[n]).len() > 0 {
            let line = text::string_of(&lines[n]);
            let num = number::decimal(n as u64);
            match json::parse(line.as_str()) {
                Ok(value) => {
                    let body = flatten_archive::flatten(value);
                    let id = text::join3(key, "#", num.as_str());
                    let doc = Document { index: "datadog".to_owned(), id, body };
                    docs.push(doc);
                    assert(crate::documents(docs@) =~= crate::documents(before).push(doc@));
                },
                Err(e) => {
                    let mut words = text::join4("invalid JSON in ", key, " line ", num.as_str());
                    text::append_text(&mut words, ": ");
                    text::append_text(&mut words, e.as_str());
                    proof {
                        errors_stay(key@, all, n + 1);
                    }
                    return Err(EsiftError::Source(words));
                },
            }
        }
        n = n + 1;
    }
    assert(all.take(count as int) =~= all);
    Ok(docs)
}

/// Turns the inflated payload of an archive object into documents.
pub fn payload_to_documents(key: &str, payload: Vec<u8>) -> (r: Result<Vec<Document>, Unread>)
    ensures
        match r {
            Ok(docs) => extracted(docs@, payload_documents(key@, payload@)),
            Err(e) => {
                &&& refused(e.error, payload_documents(key@, payload@))
                &&& e.bad_line == valid_utf8(payload@)
            },
        },
{
    match text::text_of_bytes(payload) {
        Ok(content) => match documents_in(key, content.as_str()) {
            Ok(docs) => Ok(docs),
            Err(error) => Err(Unread { error, bad_line: true }),
        },
        Err(e) => {
            let words = text::join4("archive ", key, " is not valid UTF-8: ", e.as_str());
            Err(Unread { error: EsiftError::Source(words), bad_line: false })
        },
    }
}

/// Turns an archive object as it was downloaded into documents.
pub fn object_to_documents(key: &str, raw: &[u8], codec: Codec) -> (r: Result<
    Vec<Document>,
    Unread,
>)
    ensures
        match r {
            Ok(docs) => extracted(docs@, object_documents(key@, raw@, codec)),
            Err(e) => {
                &&& refused(e.error, object_documents(key@, raw@, codec))
                &&& e.bad_line == has_bad_line(key@, raw@, codec)
            },
        },
{
    match decompress::decompress(raw, codec) {
        Ok(payload) => payload_to_documents(key, payload),
        Err(error) => Err(Unread { error, bad_line: false }),
    }
}

// ---------------------------------------------------------------------------
// The source
// ---------------------------------------------------------------------------

/// Mutable listing/position state for an in-progress archive extraction.
pub struct ArchiveState {
    /// Sorted object keys remaining to process (`open` drops already-done ones).
    pub keys: Vec<String>,
    /// Index into `keys` of the next object to fetch.
    pub pos: usize,
    /// Key of the most recently completed object; the resume anchor.
    pub last_key: Option<String>,
    /// Number of objects fully processed so far.
    pub files_done: u64,
    /// True once the listing is there; guards an un-opened source.
    pub opened: bool,
}

/// A Datadog log archive as a source of documents.
pub struct DatadogArchiveSource {
    /// The bucket, or the container on Azure.
    pub bucket: String,
    pub prefix: String,
    /// Object-storage backend (S3 / GCS / Azure).
    pub cloud: CloudProvider,
    /// An S3-only setting.
    pub region: Option<String>,
    pub from: Option<String>,
    pub to: Option<String>,
    pub compression: Compression,
    /// Opaque resume blob from a prior checkpoint cursor.
    pub resume_after: Option<Vec<Json>>,
    pub state: ArchiveState,
}

/// Where an archive run stands: the last key done, and how many.
pub struct Anchor {
    pub last_key: Option<Seq<char>>,
    pub files_done: int,
}

/// What the blob holds under its marker.
pub open spec fn encoded_fields(a: Anchor) -> Fields {
    Map::<Seq<char>, JsonView>::empty().insert(
        "last_key"@,
        match a.last_key {
            Some(k) => JsonView::String(k),
            None => JsonView::Null,
        },
    ).insert("files_done"@, JsonView::Number(NumberView::Int(a.files_done)))
}

/// An anchor as a resume blob.
pub open spec fn encoded(a: Anchor) -> Seq<JsonView> {
    seq![
        JsonView::Object(
            Map::<Seq<char>, JsonView>::empty().insert(
                "dd_archive"@,
                JsonView::Object(encoded_fields(a)),
            ),
        ),
    ]
}

/// The number of a field, where it is one that a `u64` holds; 0 otherwise.
pub open spec fn count_of(v: Option<JsonView>) -> int {
    match v {
        Some(JsonView::Number(NumberView::Int(i))) => if 0 <= i <= u64::MAX {
            i
        } else {
            0
        },
        _ => 0,
    }
}

/// The anchor that a resume blob stands for: that of its first marked value, or
/// the beginning where there is none.
pub open spec fn decoded(blob: Seq<JsonView>) -> Anchor
    decreases blob.len(),
{
    if blob.len() == 0 {
        Anchor { last_key: None, files_done: 0 }
    } else {
        match json::field(blob[0], "dd_archive"@) {
            Some(m) => Anchor {
                last_key: json::as_text(json::field(m, "last_key"@)),
                files_done: count_of(json::field(m, "files_done"@)),
            },
            None => decoded(blob.drop_first()),
        }
    }
}

/// The anchor that a checkpoint carries, if any.
pub open spec fn saved(blob: Option<Vec<Json>>) -> Anchor {
    match blob {
        Some(b) => decoded(json::array_view(b@)),
        None => Anchor { last_key: None, files_done: 0 },
    }
}

/// Whether a key comes after the last one done.
pub open spec fn beyond(last_key: Option<Seq<char>>, key: Seq<char>) -> bool {
    match last_key {
        Some(a) => order::text_lt(a, key),
        None => true,
    }
}

impl DatadogArchiveSource {
    /// Whether an object is still to be processed: it comes after the last one
    /// done, and lies in the configured range of hours. The boundary hours are
    /// included whole.
    pub open spec fn wanted(&self, key: Seq<char>) -> bool {
        &&& beyond(saved(self.resume_after).last_key, key)
        &&& in_range(
            self.prefix@,
            key,
            bound_bucket(text::opt_text(self.from)),
            bound_bucket(text::opt_text(self.to)),
        )
    }

    /// Where the run stands.
    pub open spec fn anchor(&self) -> Anchor {
        Anchor {
            last_key: text::opt_text(self.state.last_key),
            files_done: self.state.files_done as int,
        }
    }

    /// Whether two sources are configured alike.
    pub open spec fn same_settings(&self, other: &DatadogArchiveSource) -> bool {
        &&& self.bucket == other.bucket
        &&& self.prefix == other.prefix
        &&& self.cloud == other.cloud
        &&& self.region == other.region
        &&& self.from == other.from
        &&& self.to == other.to
        &&& self.compression == other.compression
        &&& self.resume_after == other.resume_after
    }

    /// A source that has listed nothing yet, on the default backend.
    pub fn new(
        bucket: &str,
        prefix: &str,
        region: Option<String>,
        from: Option<String>,
        to: Option<String>,
        compression: Compression,
        resume_after: Option<Vec<Json>>,
    ) -> (r: Result<DatadogArchiveSource, EsiftError>)
        ensures
            r matches Ok(s) && {
                &&& s.bucket@ == bucket@
                &&& s.prefix@ == prefix@
                &&& s.cloud == CloudProvider::S3
                &&& s.region == region
                &&& s.from == from
                &&& s.to == to
                &&& s.compression == compression
                &&& s.resume_after == resume_after
                &&& s.state.keys@.len() == 0
                &&& s.state.pos == 0
                &&& s.state.last_key is None
                &&& s.state.files_done == 0
                &&& !s.state.opened
            },
    {
        Ok(
            DatadogArchiveSource {
                bucket: bucket.to_owned(),
                prefix: prefix.to_owned(),
                cloud: CloudProvider::S3,
                region,
                from,
                to,
                compression,
                resume_after,
                state: ArchiveState {
                    keys: Vec::new(),
                    pos: 0,
                    last_key: None,
                    files_done: 0,
                    opened: false,
                },
            },
        )
    }

    /// Select the object-storage backend (defaults to [`CloudProvider::S3`]).
    pub fn with_cloud(self, cloud: CloudProvider) -> (r: DatadogArchiveSource)
        ensures
            r == (DatadogArchiveSource { cloud, ..self }),
    {
        DatadogArchiveSource { cloud, ..self }
    }

    /// Decode the `{"dd_archive":{"last_key":..,"files_done":..}}` resume blob
    /// written by [`Self::cursor`], if present. Gives the anchor key and the
    /// processed-file count to seed the new run's state.
    pub fn decode_resume(&self) -> (r: (Option<String>, u64))
        ensures
            (Anchor { last_key: text::opt_text(r.0), files_done: r.1 as int }) == saved(
                self.resume_after,
            ),
    {
        match &self.resume_after {
            Some(values) => {
                let n: usize = values.len();
                let mut i: usize = 0;
                let ghost all = json::array_view(values@);
                proof {
                    json::array_view_index(values@);
                    assert(all.skip(0) =~= all);
                }
                while i < n
                    invariant
                        n == values@.len(),
                        i <= n,
                        all == json::array_view(values@),
                        all.len() == n,
                        forall|k: int| 0 <= k < n ==> #[trigger] all[k] == values@[k].view(),
                        decoded(all.skip(i as int)) == decoded(all),
                        self.resume_after matches Some(own) && own == values,
                    decreases n - i,
                {
                    assert(all.skip(i as int)[0] == values@[i as int].view());
                    assert(all.skip(i as int).drop_first() =~= all.skip(i + 1));
                    if let Some(blob) = values[i].get("dd_archive") {
                        let last_key: Option<String> = blob.text_field("last_key");
                        let files_done: u64 = match blob.get("files_done") {
                            Some(v) => match v.as_u64() {
                                Some(c) => c,
                                None => 0,
                            },
                            None => 0,
                        };
                        return (last_key, files_done);
                    }
                    i = i + 1;
                }
                (None, 0)
            },
            None => (None, 0),
        }
    }

    /// Takes in the listing of the prefix: keeps the keys still to be processed,
    /// in ascending order, and starts before the first of them.
    pub fn open_with_keys(&mut self, listing: &Vec<String>)
        ensures
            final(self).same_settings(old(self)),
            final(self).state.opened,
            final(self).state.pos == 0,
            final(self).anchor() == saved(old(self).resume_after),
            order::sorted(order::texts(final(self).state.keys@)),
            order::texts(final(self).state.keys@).to_multiset() == order::texts(listing@).filter(
                |k: Seq<char>| old(self).wanted(k),
            ).to_multiset(),
    {
        let (last_key, files_done) = self.decode_resume();
        let from: Option<Bucket> = match &self.from {
            Some(t) => iso_hour_bucket(t.as_str()),
            None => None,
        };
        let to: Option<Bucket> = match &self.to {
            Some(t) => iso_hour_bucket(t.as_str()),
            None => None,
        };
        let ghost pred = |k: Seq<char>| old(self).wanted(k);
        let ghost all = order::texts(listing@);
        let n: usize = listing.len();
        let mut kept: Vec<String> = Vec::new();
        let mut i: usize = 0;
        proof {
            reveal(Seq::filter);
            assert(order::texts(kept@) =~= all.take(0).filter(pred));
        }
        while i < n
            invariant
                n == listing@.len(),
                i <= n,
                all == order::texts(listing@),
                pred == (|k: Seq<char>| old(self).wanted(k)),
                self == old(self),
                text::opt_text(last_key) == saved(self.resume_after).last_key,
                from == bound_bucket(text::opt_text(self.from)),
                to == bound_bucket(text::opt_text(self.to)),
                order::texts(kept@) == all.take(i as int).filter(pred),
            decreases n - i,
        {
            let ghost before = kept@;
            let key = listing[i].as_str();
            let past: bool = match &last_key {
                Some(a) => order::before(a.as_str(), key),
                None => true,
            };
            let near: bool = match key_hour_bucket(self.prefix.as_str(), key) {
                Some(hour) => (match from {
                    Some(f) => hour_not_after(f, hour),
                    None => true,
                }) && (match to {
                    Some(t) => hour_not_after(hour, t),
                    None => true,
                }),
                None => true,
            };
            proof {
                reveal(Seq::filter);
                assert(all[i as int] == key@);
                assert((past && near) == pred(key@));
                assert(all.take(i + 1).drop_last() =~= all.take(i as int));
                assert(all.take(i + 1).last() == key@);
            }
            if past && near {
                kept.push(listing[i].clone());
                assert(order::texts(kept@) =~= order::texts(before).push(key@));
            }
            i = i + 1;
        }
        assert(all.take(n as int) =~= all);
        let keys = order::sort(&kept);
        self.state = ArchiveState { keys, pos: 0, last_key, files_done, opened: true };
    }

    /// The key of the next object, where there is one.
    pub open spec fn next_key(&self) -> Option<Seq<char>> {
        if self.state.pos < self.state.keys@.len() {
            Some(self.state.keys@[self.state.pos as int]@)
        } else {
            None
        }
    }

    /// Why no next object can be read: the source is not open, or the codec of
    /// the next object is unknown.
    pub open spec fn obstacle(&self) -> Option<Seq<char>> {
        if !self.state.opened {
            Some("Datadog archive source used before open()"@)
        } else {
            match self.next_key() {
                Some(key) => if codec_for(self.compression, key) is None {
                    Some(
                        "cannot infer compression codec from key "@ + key
                            + " (expected .zst/.gz); set an explicit compression"@,
                    )
                } else {
                    None
                },
                None => None,
            }
        }
    }

    /// The key of the next object and the codec it is inflated with, or nothing
    /// once the key list is exhausted.
    pub fn next_object(&self) -> (r: Result<Option<(String, Codec)>, EsiftError>)
        ensures
            match r {
                Ok(Some((key, codec))) => {
                    &&& self.obstacle() is None
                    &&& self.next_key() == Some(key@)
                    &&& codec_for(self.compression, key@) == Some(codec)
                },
                Ok(None) => self.obstacle() is None && self.next_key() is None,
                Err(e) => e is Source && self.obstacle() == Some(e.detail()),
            },
    {
        if !self.state.opened {
            return Err(
                EsiftError::Source("Datadog archive source used before open()".to_owned()),
            );
        }
        if self.state.pos >= self.state.keys.len() {
            return Ok(None);
        }
        let key = self.state.keys[self.state.pos].clone();
        match self.compression {
            Compression::Fixed(c) => Ok(Some((key, c))),
            Compression::Auto => match Codec::from_key(key.as_str()) {
                Some(c) => Ok(Some((key, c))),
                None => Err(
                    EsiftError::Source(
                        text::join3(
                            "cannot infer compression codec from key ",
                            key.as_str(),
                            " (expected .zst/.gz); set an explicit compression",
                        ),
                    ),
                ),
            },
        }
    }

    /// Takes in the bytes of the object that [`Self::next_object`] names. Gives
    /// its documents and moves on to the next object; an object that cannot be
    /// read leaves the source where it stands.
    pub fn on_object(&mut self, raw: &[u8]) -> (r: Result<Option<Vec<Document>>, Unread>)
        requires
            old(self).state.files_done < u64::MAX,
        ensures
            final(self).same_settings(old(self)),
            final(self).state.keys == old(self).state.keys,
            final(self).state.opened == old(self).state.opened,
            match r {
                Ok(Some(docs)) => {
                    &&& old(self).obstacle() is None
                    &&& old(self).next_key() matches Some(key)
                    &&& extracted(
                        docs@,
                        object_documents(key, raw@, codec_for(old(self).compression, key)->0),
                    )
                    &&& final(self).state.pos == old(self).state.pos + 1
                    &&& final(self).anchor() == (Anchor {
                        last_key: Some(key),
                        files_done: old(self).state.files_done + 1,
                    })
                },
                Ok(None) => {
                    &&& old(self).obstacle() is None
                    &&& old(self).next_key() is None
                    &&& final(self).state == old(self).state
                },
                Err(e) => {
                    &&& final(self).state == old(self).state
                    &&& match old(self).obstacle() {
                        Some(words) => {
                            &&& e.error is Source
                            &&& e.error.detail() == words
                            &&& !e.bad_line
                        },
                        None => {
                            &&& old(self).next_key() matches Some(key)
                            &&& ({
                                let codec = codec_for(old(self).compression, key)->0;
                                &&& refused(e.error, object_documents(key, raw@, codec))
                                &&& e.bad_line == has_bad_line(key, raw@, codec)
                            })
                        },
                    }
                },
            },
    {
        let total: usize = self.state.keys.len();
        match self.next_object() {
            Ok(Some((key, codec))) => match object_to_documents(key.as_str(), raw, codec) {
                Ok(docs) => {
                    assert(self.state.pos < total);
                    self.state.pos = self.state.pos + 1;
                    self.state.files_done = self.state.files_done + 1;
                    self.state.last_key = Some(key);
                    Ok(Some(docs))
                },
                Err(e) => Err(e),
            },
            Ok(None) => Ok(None),
            Err(error) => Err(Unread { error, bad_line: false }),
        }
    }

    /// The resume cursor: the last key done, and how many.
    pub fn cursor(&self) -> (r: Option<Vec<Json>>)
        ensures
            r matches Some(blob) && json::array_view(blob@) == encoded(self.anchor()),
    {
        let mut m: Vec<(String, Json)> = Vec::new();
        match &self.state.last_key {
            Some(k) => {
                json::put(&mut m, "last_key", Json::String(k.clone()));
            },
            None => {
                json::put(&mut m, "last_key", Json::Null);
            },
        }
        json::put(&mut m, "files_done", Json::Number(JsonNumber::Unsigned(self.state.files_done)));
        let mut marked: Vec<(String, Json)> = Vec::new();
        json::put(&mut marked, "dd_archive", Json::Object(m));
        let blob: Vec<Json> = vec![Json::Object(marked)];
        proof {
            json::array_view_index(blob@);
            assert(json::array_view(blob@) =~= encoded(self.anchor()));
        }
        Some(blob)
    }

    /// Human-readable label.
    pub fn description(&self) -> (r: String)
        ensures
            r@ == "Datadog archive cloud="@ + self.cloud.name() + " bucket="@ + self.bucket@
                + " prefix="@ + self.prefix@,
    {
        let mut out = text::join4(
            "Datadog archive cloud=",
            self.cloud.as_str(),
            " bucket=",
            self.bucket.as_str(),
        );
        text::append_text(&mut out, " prefix=");
        text::append_text(&mut out, self.prefix.as_str());
        out
    }
}

// ---------------------------------------------------------------------------
// Reaching the backends
// ---------------------------------------------------------------------------

/// The token of the next page of a listing, where there is one.
pub fn next_page(truncated: Option<bool>, token: Option<String>) -> (r: Option<String>)
    ensures
        r == if truncated == Some(true) {
            token
        } else {
            None
        },
{
    match truncated {
        Some(true) => token,
        _ => None,
    }
}

/// The resource path by which Google Cloud Storage knows a bucket.
pub fn gcs_bucket_path(bucket: &str) -> (r: String)
    ensures
        r@ == "projects/_/buckets/"@ + bucket@,
{
    text::join2("projects/_/buckets/", bucket)
}

/// `s` without its trailing slashes.
pub open spec fn without_slashes(s: Seq<char>) -> Seq<char>
    decreases s.len(),
{
    if s.len() > 0 && s.last() == '/' {
        without_slashes(s.drop_last())
    } else {
        s
    }
}

/// The text of an Azure container's URL, from the values of
/// `AZURE_STORAGE_BLOB_ENDPOINT` and `AZURE_STORAGE_ACCOUNT`. An endpoint names
/// the host whole; otherwise the account does.
pub open spec fn azure_url(
    endpoint: Option<Seq<char>>,
    account: Option<Seq<char>>,
    container: Seq<char>,
) -> Option<Seq<char>> {
    match (endpoint, account) {
        (Some(e), _) => Some(without_slashes(e) + "/"@ + container),
        (None, Some(a)) => Some("https://"@ + a + ".blob.core.windows.net/"@ + container),
        (None, None) => None,
    }
}

/// Builds the text of an Azure container's URL.
fn azure_url_text(endpoint: &Option<String>, account: &Option<String>, container: &str) -> (r:
    Option<String>)
    ensures
        text::opt_text(r) == azure_url(
            text::opt_text(*endpoint),
            text::opt_text(*account),
            container@,
        ),
{
    match endpoint {
        Some(e) => {
            let cs = text::chars_of(e.as_str());
            let mut n: usize = cs.len();
            assert(cs@.take(n as int) =~= cs@);
            while n > 0 && cs[n - 1] == '/'
                invariant
                    n <= cs@.len(),
                    without_slashes(cs@.take(n as int)) == without_slashes(cs@),
                decreases n,
            {
                assert(cs@.take(n as int).drop_last() =~= cs@.take(n - 1));
                n = n - 1;
            }
            assert(cs@.take(n as int) =~= cs@.subrange(0, n as int));
            let base = text::string_of(&text::slice_of(&cs, 0, n));
            Some(text::join3(base.as_str(), "/", container))
        },
        None => match account {
            Some(a) => Some(
                text::join4("https://", a.as_str(), ".blob.core.windows.net/", container),
            ),
            None => None,
        },
    }
}

/// The URL of an Azure container, where the environment locates one and it is a
/// URL.
pub fn azure_container_url(
    endpoint: &Option<String>,
    account: &Option<String>,
    container: &str,
) -> (r: Result<String, EsiftError>)
    ensures
        match azure_url(text::opt_text(*endpoint), text::opt_text(*account), container@) {
            Some(u) => match http::url_parsed(u) {
                Ok(_) => r matches Ok(url) && url@ == u,
                Err(words) => r matches Err(e) && e is Source && e.detail()
                    == "invalid Azure container URL: "@ + words,
            },
            None => r matches Err(e) && e is Source && e.detail()
                == "Azure archive requires AZURE_STORAGE_ACCOUNT (or AZURE_STORAGE_BLOB_ENDPOINT) to locate the blob endpoint"@,
        },
{
    match azure_url_text(endpoint, account, container) {
        Some(u) => match http::parse_url(u.as_str()) {
            Ok(_) => Ok(u),
            Err(e) => Err(
                EsiftError::Source(text::join2("invalid Azure container URL: ", e.as_str())),
            ),
        },
        None => Err(
            EsiftError::Source(
                "Azure archive requires AZURE_STORAGE_ACCOUNT (or AZURE_STORAGE_BLOB_ENDPOINT) to locate the blob endpoint".to_owned(),
            ),
        ),
    }
}

/// How to sign in to Azure.
pub enum AzureCredential {
    /// Federated tokens of a workload identity.
    Workload,
    /// A service principal.
    Secret { tenant: String, client: String, secret: String },
    /// The sign-in of the developer tools.
    DeveloperTools,
}

/// Picks the way to sign in to Azure from the environment: a workload identity
/// where `AZURE_FEDERATED_TOKEN_FILE` is set; else a service principal where
/// `AZURE_TENANT_ID`, `AZURE_CLIENT_ID` and `AZURE_CLIENT_SECRET` all are; else
/// the developer tools.
pub fn azure_credential(
    federated: bool,
    tenant: Option<String>,
    client: Option<String>,
    secret: Option<String>,
) -> (r: AzureCredential)
    ensures
        r == if federated {
            AzureCredential::Workload
        } else {
            match (tenant, client, secret) {
                (Some(tenant), Some(client), Some(secret)) => AzureCredential::Secret {
                    tenant,
                    client,
                    secret,
                },
                _ => AzureCredential::DeveloperTools,
            }
        },
{
    if federated {
        return AzureCredential::Workload;
    }
    match (tenant, client, secret) {
        (Some(tenant), Some(client), Some(secret)) => AzureCredential::Secret {
            tenant,
            client,
            secret,
        },
        _ => AzureCredential::DeveloperTools,
    }
}

// ---------------------------------------------------------------------------
// Laws
// ---------------------------------------------------------------------------

/// A backend's name parses as that backend.
pub proof fn names_parse_back(p: CloudProvider)
    ensures
        provider_of(text::ascii_lower_text(text::trim(p.name()))) == Some(p),
{
    reveal_strlit("s3");
    reveal_strlit("gcs");
    reveal_strlit("azure");
    reveal_strlit("");
    let n = p.name();
    assert(n.len() > 0 && !text::is_white(n[0]) && !text::is_white(n.last()));
    assert(text::trim(n) == n);
    assert(text::ascii_lower_text(n) =~= n);
    assert("s3"@.len() == 2 && "gcs"@.len() == 3 && "azure"@.len() == 5 && ""@.len() == 0);
}

/// A resume blob gives back the anchor that it was made from.
pub proof fn cursors_read_back(a: Anchor)
    requires
        0 <= a.files_done <= u64::MAX,
    ensures
        decoded(encoded(a)) == a,
{
    reveal_strlit("last_key");
    reveal_strlit("files_done");
    assert("last_key"@.len() == 8 && "files_done"@.len() == 10);
    let m = encoded_fields(a);
    assert(json::as_text(json::field_of(m, "last_key"@)) == a.last_key);
}

/// A key whose date cannot be read is kept, whatever the range.
pub proof fn unclassified_keys_stay(
    prefix: Seq<char>,
    key: Seq<char>,
    from: Option<Bucket>,
    to: Option<Bucket>,
)
    requires
        key_bucket(prefix, key) is None,
    ensures
        in_range(prefix, key, from, to),
{
}

/// The hours of both bounds belong to the range.
pub proof fn boundary_hours_are_included(
    prefix: Seq<char>,
    key: Seq<char>,
    from: Bucket,
    to: Bucket,
)
    requires
        not_after(from, to),
        key_bucket(prefix, key) == Some(from) || key_bucket(prefix, key) == Some(to),
    ensures
        in_range(prefix, key, Some(from), Some(to)),
{
}

/// A run that is started again after it has processed the first `k` of its keys
/// processes exactly the rest: of a sorted list of distinct keys, those beyond
/// the last one done are the ones that follow it.
pub proof fn resume_takes_the_rest(keys: Seq<Seq<char>>, k: int)
    requires
        order::sorted(keys),
        keys.no_duplicates(),
        0 < k <= keys.len(),
    ensures
        keys.filter(|key: Seq<char>| beyond(Some(keys[k - 1]), key)) == keys.skip(k),
{
    let pred = |key: Seq<char>| beyond(Some(keys[k - 1]), key);
    let head = keys.take(k);
    let tail = keys.skip(k);
    assert(keys =~= head + tail);
    Seq::filter_distributes_over_add(head, tail, pred);
    assert forall|i: int| 0 <= i < head.len() implies !pred(#[trigger] head[i]) by {
        order::text_lt_irreflexive(keys[k - 1]);
        assert(head[i] == keys[i]);
        if i < k - 1 {
            assert(!order::text_lt(keys[k - 1], keys[i]));
        }
    }
    assert forall|i: int| 0 <= i < tail.len() implies pred(#[trigger] tail[i]) by {
        assert(tail[i] == keys[k + i]);
        assert(!order::text_lt(keys[k + i], keys[k - 1]));
        order::text_lt_total(keys[k - 1], keys[k + i]);
        assert(keys[k - 1] != keys[k + i]);
    }
    filter_none(head, pred);
    filter_all(tail, pred);
    assert(head.filter(pred) + tail.filter(pred) =~= tail);
}

/// A run that stops after `k` objects and is started again on the same listing
/// and range processes the rest of its keys, in the same order: `keys` are those
/// of the first run, `again` those of the second.
pub proof fn reopening_continues(
    listing: Seq<Seq<char>>,
    range: spec_fn(Seq<char>) -> bool,
    keys: Seq<Seq<char>>,
    k: int,
    again: Seq<Seq<char>>,
)
    requires
        order::sorted(keys),
        keys.to_multiset() == listing.filter(range).to_multiset(),
        keys.no_duplicates(),
        0 < k <= keys.len(),
        order::sorted(again),
        again.to_multiset() == listing.filter(
            |key: Seq<char>| beyond(Some(keys[k - 1]), key) && range(key),
        ).to_multiset(),
    ensures
        again == keys.skip(k),
{
    let past = |key: Seq<char>| beyond(Some(keys[k - 1]), key);
    let both = |key: Seq<char>| beyond(Some(keys[k - 1]), key) && range(key);
    resume_takes_the_rest(keys, k);
    order::filtering_contents(listing, range);
    order::filtering_contents(listing, both);
    order::filtering_contents(keys, past);
    assert(listing.to_multiset().filter(both) =~= listing.to_multiset().filter(range).filter(past));
    let rest = keys.skip(k);
    assert(order::sorted(rest)) by {
        assert forall|i: int, j: int| 0 <= i < j < rest.len() implies !order::text_lt(
            #[trigger] rest[j],
            #[trigger] rest[i],
        ) by {
            assert(!order::text_lt(keys[k + j], keys[k + i]));
        }
    }
    order::sorted_lists_are_unique(again, rest);
}

/// Whether an object of a store can be read: its codec is known, and it inflates
/// to lines of JSON.
pub open spec fn readable(
    store: spec_fn(Seq<char>) -> Seq<u8>,
    compression: Compression,
    key: Seq<char>,
) -> bool {
    codec_for(compression, key) matches Some(codec) && object_documents(
        key,
        store(key),
        codec,
    ) is Ok
}

/// The batches of a run over the objects of a store that reads at most so many,
/// and where it then stands.
pub open spec fn run(
    store: spec_fn(Seq<char>) -> Seq<u8>,
    compression: Compression,
    a: Anchor,
    keys: Seq<Seq<char>>,
    objects: nat,
) -> (Seq<Seq<DocumentView>>, Anchor)
    decreases objects,
{
    if objects == 0 || keys.len() == 0 || !readable(store, compression, keys[0]) {
        (Seq::empty(), a)
    } else {
        let docs = object_documents(
            keys[0],
            store(keys[0]),
            codec_for(compression, keys[0])->0,
        )->Ok_0;
        let done = Anchor { last_key: Some(keys[0]), files_done: a.files_done + 1 };
        let (rest, end) = run(
            store,
            compression,
            done,
            keys.drop_first(),
            (objects - 1) as nat,
        );
        (seq![docs] + rest, end)
    }
}

proof fn anchors_count_up(blob: Option<Vec<Json>>)
    ensures
        0 <= saved(blob).files_done <= u64::MAX,
{
    if let Some(b) = blob {
        counts_fit(json::array_view(b@));
    }
}

proof fn counts_fit(blob: Seq<JsonView>)
    ensures
        0 <= decoded(blob).files_done <= u64::MAX,
    decreases blob.len(),
{
    if blob.len() > 0 {
        counts_fit(blob.drop_first());
    }
}

/// A run over `k` objects and then over `more` is one run over all of them.
proof fn run_splits(
    store: spec_fn(Seq<char>) -> Seq<u8>,
    compression: Compression,
    a: Anchor,
    keys: Seq<Seq<char>>,
    k: nat,
    more: nat,
)
    requires
        k <= keys.len(),
        forall|i: int| 0 <= i < k ==> readable(store, compression, #[trigger] keys[i]),
    ensures
        ({
            let (first, mid) = run(store, compression, a, keys, k);
            let (second, end) = run(store, compression, mid, keys.skip(k as int), more);
            &&& run(store, compression, a, keys, k + more) == (first + second, end)
            &&& mid.files_done == a.files_done + k
            &&& mid.last_key == if k > 0 {
                Some(keys[k - 1])
            } else {
                a.last_key
            }
        }),
    decreases k,
{
    let (first, mid) = run(store, compression, a, keys, k);
    let (second, end) = run(store, compression, mid, keys.skip(k as int), more);
    if k == 0 {
        assert(keys.skip(0) =~= keys);
        assert(first + second =~= second);
    } else {
        assert(readable(store, compression, keys[0]));
        let rest = keys.drop_first();
        let done = Anchor { last_key: Some(keys[0]), files_done: a.files_done + 1 };
        assert forall|i: int| 0 <= i < k - 1 implies readable(
            store,
            compression,
            #[trigger] rest[i],
        ) by {
            assert(readable(store, compression, keys[i + 1]));
        }
        run_splits(store, compression, done, rest, (k - 1) as nat, more);
        assert(rest.skip(k - 1) =~= keys.skip(k as int));
        let docs = object_documents(
            keys[0],
            store(keys[0]),
            codec_for(compression, keys[0])->0,
        )->Ok_0;
        let (tail, _) = run(store, compression, done, rest, (k - 1) as nat);
        assert(seq![docs] + (tail + second) =~= first + second);
    }
}

proof fn keys_are_distinct(
    listing: Seq<Seq<char>>,
    keys: Seq<Seq<char>>,
    range: spec_fn(Seq<char>) -> bool,
)
    requires
        listing.no_duplicates(),
        keys.to_multiset() == listing.filter(range).to_multiset(),
    ensures
        keys.no_duplicates(),
        forall|i: int| 0 <= i < keys.len() ==> range(#[trigger] keys[i]),
{
    order::filtering_contents(listing, range);
    listing.lemma_multiset_has_no_duplicates();
    assert forall|x: Seq<char>| keys.to_multiset().contains(x) implies keys.to_multiset().count(x)
        == 1 && range(x) by {
        assert(listing.to_multiset().filter(range).count(x) > 0);
        assert(listing.to_multiset().contains(x));
    }
    keys.lemma_multiset_has_no_duplicates_conv();
    assert forall|i: int| 0 <= i < keys.len() implies range(#[trigger] keys[i]) by {
        keys.to_multiset_ensures();
        assert(keys.contains(keys[i]));
        assert(keys.to_multiset().contains(keys[i]));
    }
}

/// Nothing is lost or read twice over an interruption. `first` reads `k` objects
/// of an unchanged store and stops; `second`, configured alike, is opened with
/// the cursor of `first` and reads what it finds. Then `second` is left with the
/// keys that `first` had not done, the documents of both runs are those of one
/// run that was not interrupted, and both end at the same cursor.
#[verifier::rlimit(40)]
pub proof fn interrupted_runs_are_whole(
    first: DatadogArchiveSource,
    second: DatadogArchiveSource,
    listing: Seq<Seq<char>>,
    store: spec_fn(Seq<char>) -> Seq<u8>,
    keys: Seq<Seq<char>>,
    k: nat,
    again: Seq<Seq<char>>,
)
    requires
        listing.no_duplicates(),
        order::sorted(keys),
        keys.to_multiset() == listing.filter(|key: Seq<char>| first.wanted(key)).to_multiset(),
        forall|i: int| 0 <= i < keys.len() ==> readable(store, first.compression, #[trigger] keys[i]),
        saved(first.resume_after).files_done + keys.len() <= u64::MAX,
        k <= keys.len(),
        second.prefix == first.prefix,
        second.from == first.from,
        second.to == first.to,
        second.compression == first.compression,
        second.resume_after matches Some(blob) && json::array_view(blob@) == encoded(
            run(store, first.compression, saved(first.resume_after), keys, k).1,
        ),
        order::sorted(again),
        again.to_multiset() == listing.filter(|key: Seq<char>| second.wanted(key)).to_multiset(),
    ensures
        again == keys.skip(k as int),
        ({
            let start = saved(first.resume_after);
            let (before, _) = run(store, first.compression, start, keys, k);
            let (after, end) = run(
                store,
                second.compression,
                saved(second.resume_after),
                again,
                again.len(),
            );
            run(store, first.compression, start, keys, keys.len()) == (before + after, end)
        }),
{
    let start = saved(first.resume_after);
    let range = |key: Seq<char>| first.wanted(key);
    let mid = run(store, first.compression, start, keys, k).1;
    let more = (keys.len() - k) as nat;
    run_splits(store, first.compression, start, keys, k, more);
    anchors_count_up(first.resume_after);
    cursors_read_back(mid);
    keys_are_distinct(listing, keys, range);
    if k == 0 {
        assert(mid == start);
        assert((|key: Seq<char>| second.wanted(key)) =~= range);
        order::sorted_lists_are_unique(again, keys);
        assert(keys.skip(0) =~= keys);
    } else {
        let last = keys[k - 1];
        assert(range(last));
        let both = |key: Seq<char>| beyond(Some(last), key) && range(key);
        assert forall|key: Seq<char>| second.wanted(key) == #[trigger] both(key) by {
            if beyond(Some(last), key) && start.last_key is Some {
                order::text_lt_transitive(start.last_key->0, last, key);
            }
        }
        assert((|key: Seq<char>| second.wanted(key)) =~= both);
        reopening_continues(listing, range, keys, k as int, again);
    }
}

proof fn filter_none(s: Seq<Seq<char>>, pred: spec_fn(Seq<char>) -> bool)
    requires
        forall|i: int| 0 <= i < s.len() ==> !pred(#[trigger] s[i]),
    ensures
        s.filter(pred) == Seq::<Seq<char>>::empty(),
    decreases s.len(),
{
    reveal(Seq::filter);
    if s.len() > 0 {
        assert(!pred(s[s.len() - 1]));
        assert forall|i: int| 0 <= i < s.drop_last().len() implies !pred(
            #[trigger] s.drop_last()[i],
        ) by {
            assert(!pred(s[i]));
        }
        filter_none(s.drop_last(), pred);
    }
}

proof fn filter_all(s: Seq<Seq<char>>, pred: spec_fn(Seq<char>) -> bool)
    requires
        forall|i: int| 0 <= i < s.len() ==> pred(#[trigger] s[i]),
    ensures
        s.filter(pred) == s,
    decreases s.len(),
{
    reveal(Seq::filter);
    if s.len() > 0 {
        assert(pred(s[s.len() - 1]));
        assert forall|i: int| 0 <= i < s.drop_last().len() implies pred(
            #[trigger] s.drop_last()[i],
        ) by {
            assert(pred(s[i]));
        }
        filter_all(s.drop_last(), pred);
        assert(s =~= s.drop_last().push(s.last()));
    } else {
        assert(s =~= Seq::empty());
    }
}

/// Every document of an object has an id of its own.
pub proof fn line_ids_are_distinct(key: Seq<char>, m: int, n: int, a: JsonView, b: JsonView)
    requires
        0 <= m,
        0 <= n,
        line_document(key, m, a).id == line_document(key, n, b).id,
    ensures
        m == n,
{
    let at = (key + "#"@).len() as int;
    assert(line_document(key, m, a).id.skip(at) =~= number::decimal_text(m));
    assert(line_document(key, n, b).id.skip(at) =~= number::decimal_text(n));
    number::decimal_injective(m, n);
}

/// The seconds from the epoch of the calendar to an hour.
pub open spec fn hour_start(hour: Bucket) -> int {
    calendar::day_number(hour.0 as int, hour.1 as int, hour.2 as int) * 86_400 + hour.3 * 3_600
}

/// Whether an hour is one of the calendar.
pub open spec fn is_hour(hour: Bucket) -> bool {
    calendar::valid_date(hour.0 as int, hour.1 as int, hour.2 as int) && hour.3 < 24
}

/// Hours are ordered as time is: of two hours of the calendar the one that begins
/// no later is not after the other.
pub proof fn hours_are_in_the_order_of_time(a: Bucket, b: Bucket)
    requires
        is_hour(a),
        is_hour(b),
    ensures
        not_after(a, b) <==> hour_start(a) <= hour_start(b),
{
    let x = (a.0 as int, a.1 as int, a.2 as int);
    let y = (b.0 as int, b.1 as int, b.2 as int);
    calendar::dates_are_in_order(x, y);
    calendar::dates_are_in_order(y, x);
}

/// The order of hours is total, whether they are of the calendar or not, and goes
/// by the largest unit in which two hours differ.
pub proof fn hours_have_a_total_order(a: Bucket, b: Bucket, c: Bucket)
    ensures
        not_after(a, a),
        not_after(a, b) || not_after(b, a),
        not_after(a, b) && not_after(b, a) ==> a == b,
        not_after(a, b) && not_after(b, c) ==> not_after(a, c),
        a.0 < b.0 ==> not_after(a, b) && !not_after(b, a),
        a.0 == b.0 && a.1 < b.1 ==> not_after(a, b) && !not_after(b, a),
        a.0 == b.0 && a.1 == b.1 && a.2 < b.2 ==> not_after(a, b) && !not_after(b, a),
        a.0 == b.0 && a.1 == b.1 && a.2 == b.2 && a.3 < b.3 ==> not_after(a, b) && !not_after(b, a),
{
}

/// A key whose hour is of the calendar is in a range exactly if its hour begins no
/// sooner than that of the lower bound and no later than that of the upper one. A
/// bound that is missing holds nothing back.
pub proof fn ranges_go_by_time(
    prefix: Seq<char>,
    key: Seq<char>,
    hour: Bucket,
    from: Option<Bucket>,
    to: Option<Bucket>,
)
    requires
        key_bucket(prefix, key) == Some(hour),
        is_hour(hour),
        from is Some ==> is_hour(from->0),
        to is Some ==> is_hour(to->0),
    ensures
        in_range(prefix, key, from, to) <==> (from is Some ==> hour_start(from->0) <= hour_start(
            hour,
        )) && (to is Some ==> hour_start(hour) <= hour_start(to->0)),
{
    if let Some(f) = from {
        hours_are_in_the_order_of_time(f, hour);
    }
    if let Some(t) = to {
        hours_are_in_the_order_of_time(hour, t);
    }
}

/// A key of the archive's layout lies in the hour that it spells out behind the
/// prefix, with or without a slash between them: four parts of the widths four,
/// two, two and two that are numbers. Where a part is no number or has another
/// width, the hour is unknown, and so it is where the prefix is another one.
#[verifier::rlimit(40)]
pub proof fn keys_spell_their_hour(
    prefix: Seq<char>,
    y: Seq<char>,
    m: Seq<char>,
    d: Seq<char>,
    h: Seq<char>,
    rest: Seq<char>,
)
    requires
        !y.contains('/'),
        !m.contains('/'),
        !d.contains('/'),
        !h.contains('/'),
        y.len() > 0,
    ensures
        ({
            let path = y + seq!['/'] + (m + seq!['/'] + (d + seq!['/'] + (h + seq!['/'] + rest)));
            let hour = key_bucket(prefix, prefix + seq!['/'] + path);
            &&& key_bucket(prefix, prefix + path) == hour
            &&& hour is Some <==> (y.len() == 4 && m.len() == 2 && d.len() == 2 && h.len() == 2
                && small_number(y) is Some && small_number(m) is Some && small_number(d) is Some
                && small_number(h) is Some)
            &&& hour matches Some(b) ==> {
                &&& number::unsigned_number(y) == Some(b.0 as int)
                &&& number::unsigned_number(m) == Some(b.1 as int)
                &&& number::unsigned_number(d) == Some(b.2 as int)
                &&& number::unsigned_number(h) == Some(b.3 as int)
            }
        }),
{
    let path = y + seq!['/'] + (m + seq!['/'] + (d + seq!['/'] + (h + seq!['/'] + rest)));
    paths_have_their_parts(y, m, d, h, rest);
    numbers_name_an_hour(y, m, d, h);
    assert(path[0] == y[0]);
    assert(y.contains(y[0]));
    keys_are_read_behind_the_prefix(prefix, path);
}

proof fn keys_are_read_behind_the_prefix(prefix: Seq<char>, path: Seq<char>)
    requires
        path.len() > 0,
        path[0] != '/',
    ensures
        ({
            let parts = text::split(path, '/');
            let hour = if parts.len() >= 4 && parts[0].len() == 4 && parts[1].len() == 2
                && parts[2].len() == 2 && parts[3].len() == 2 {
                bucket_at(parts[0], parts[1], parts[2], parts[3])
            } else {
                None
            };
            &&& key_bucket(prefix, prefix + seq!['/'] + path) == hour
            &&& key_bucket(prefix, prefix + path) == hour
        }),
{
    let n = prefix.len() as int;
    let with = prefix + seq!['/'] + path;
    assert(with.take(n) =~= prefix);
    assert(with.skip(n).skip(1) =~= path);
    let without = prefix + path;
    assert(without.take(n) =~= prefix);
    assert(without.skip(n) =~= path);
}

proof fn numbers_name_an_hour(y: Seq<char>, m: Seq<char>, d: Seq<char>, h: Seq<char>)
    ensures
        bucket_at(y, m, d, h) is Some <==> small_number(y) is Some && small_number(m) is Some
            && small_number(d) is Some && small_number(h) is Some,
        bucket_at(y, m, d, h) matches Some(b) ==> {
            &&& number::unsigned_number(y) == Some(b.0 as int)
            &&& number::unsigned_number(m) == Some(b.1 as int)
            &&& number::unsigned_number(d) == Some(b.2 as int)
            &&& number::unsigned_number(h) == Some(b.3 as int)
        },
{
}

proof fn paths_have_their_parts(
    y: Seq<char>,
    m: Seq<char>,
    d: Seq<char>,
    h: Seq<char>,
    rest: Seq<char>,
)
    requires
        !y.contains('/'),
        !m.contains('/'),
        !d.contains('/'),
        !h.contains('/'),
    ensures
        ({
            let path = y + seq!['/'] + (m + seq!['/'] + (d + seq!['/'] + (h + seq!['/'] + rest)));
            let parts = text::split(path, '/');
            &&& parts.len() >= 4
            &&& parts[0] == y
            &&& parts[1] == m
            &&& parts[2] == d
            &&& parts[3] == h
        }),
{
    let tail = h + seq!['/'] + rest;
    let days = d + seq!['/'] + tail;
    let months = m + seq!['/'] + days;
    text::split_concatenates(y, months, '/');
    text::split_concatenates(m, days, '/');
    text::split_concatenates(d, tail, '/');
    text::split_concatenates(h, rest, '/');
    text::split_in_one(y, '/');
    text::split_in_one(m, '/');
    text::split_in_one(d, '/');
    text::split_in_one(h, '/');
}

/// A key with fewer parts behind the prefix, or with another prefix, has no hour.
pub proof fn other_keys_have_no_hour(prefix: Seq<char>, key: Seq<char>)
    ensures
        key_bucket(prefix, key) is Some ==> key.len() >= prefix.len() && key.take(
            prefix.len() as int,
        ) == prefix,
        key_bucket(prefix, key) is Some ==> text::split(
            key.skip(prefix.len() as int),
            '/',
        ).len() >= 4,
{
    if key_bucket(prefix, key) is Some {
        let s = key.skip(prefix.len() as int);
        text::affixes_can_be_taken_off(key, prefix, s);
        if s.len() > 0 && s[0] == '/' {
            text::split_concatenates(Seq::empty(), s.skip(1), '/');
            assert(Seq::<char>::empty() + seq!['/'] + s.skip(1) =~= s);
            text::split_not_empty(Seq::empty(), '/');
        }
    }
}

/// A timestamp in ASCII lies in the hour that its columns spell out: year, month,
/// day and hour, with one character between each two and anything behind. Where a
/// column is no number, or the text ends sooner, the hour is unknown.
pub proof fn timestamps_spell_their_hour(
    y: Seq<char>,
    m: Seq<char>,
    d: Seq<char>,
    h: Seq<char>,
    a: char,
    b: char,
    c: char,
    rest: Seq<char>,
)
    requires
        y.len() == 4,
        m.len() == 2,
        d.len() == 2,
        h.len() == 2,
        is_ascii_chars(y + seq![a] + m + seq![b] + d + seq![c] + h + rest),
    ensures
        ({
            let hour = iso_bucket(y + seq![a] + m + seq![b] + d + seq![c] + h + rest);
            &&& hour is Some <==> (small_number(y) is Some && small_number(m) is Some
                && small_number(d) is Some && small_number(h) is Some)
            &&& hour matches Some(r) ==> {
                &&& number::unsigned_number(y) == Some(r.0 as int)
                &&& number::unsigned_number(m) == Some(r.1 as int)
                &&& number::unsigned_number(d) == Some(r.2 as int)
                &&& number::unsigned_number(h) == Some(r.3 as int)
            }
        }),
{
    let ts = y + seq![a] + m + seq![b] + d + seq![c] + h + rest;
    numbers_name_an_hour(y, m, d, h);
    text::ascii_byte_chars(ts);
    assert(ts.subrange(0, 4) =~= y);
    assert(ts.subrange(5, 7) =~= m);
    assert(ts.subrange(8, 10) =~= d);
    assert(ts.subrange(11, 13) =~= h);
}

/// A timestamp that ends before its hour does has none.
pub proof fn short_timestamps_have_no_hour(ts: Seq<char>)
    requires
        is_ascii_chars(ts),
        ts.len() < 13,
    ensures
        iso_bucket(ts) is None,
{
    text::ascii_byte_chars(ts);
}

/// A number is small exactly if a `u32` holds it.
pub proof fn small_numbers_fit(s: Seq<char>, n: int)
    requires
        number::unsigned_number(s) == Some(n),
    ensures
        n <= u32::MAX ==> small_number(s) == Some(n),
        n > u32::MAX ==> small_number(s) is None,
{
    number::only_numerals_are_read(s);
}

/// An object is wanted exactly if it comes after the last one done and, where its
/// own hour and that of a bound are known, lies on the bound's side. A source
/// without bounds wants every object that comes after the last one done.
pub proof fn wanted_objects_lie_in_the_range(source: DatadogArchiveSource, key: Seq<char>)
    ensures
        source.wanted(key) ==> (saved(source.resume_after).last_key matches Some(last)
            ==> order::text_lt(last, key)),
        source.wanted(key) && key_bucket(source.prefix@, key) is Some ==> {
            let hour = key_bucket(source.prefix@, key)->0;
            &&& source.from matches Some(t) ==> (iso_bucket(t@) matches Some(f) ==> not_after(
                f,
                hour,
            ))
            &&& source.to matches Some(t) ==> (iso_bucket(t@) matches Some(f) ==> not_after(
                hour,
                f,
            ))
        },
        !source.wanted(key) ==> {
            ||| saved(source.resume_after).last_key matches Some(last) && !order::text_lt(last, key)
            ||| key_bucket(source.prefix@, key) matches Some(hour) && source.from matches Some(t)
                && iso_bucket(t@) matches Some(f) && !not_after(f, hour)
            ||| key_bucket(source.prefix@, key) matches Some(hour) && source.to matches Some(t)
                && iso_bucket(t@) matches Some(f) && !not_after(hour, f)
        },
        source.resume_after is None && source.from is None && source.to is None ==> source.wanted(
            key,
        ),
{
}

/// Whether a line holds something.
pub open spec fn not_blank(line: Seq<char>) -> bool {
    text::trim(line).len() > 0
}

/// The lines of an object become documents in order, one for each line that is not
/// blank: each is of the index `datadog`, is named after the object and the line's
/// number, and holds what the line holds, flattened. There are documents exactly if
/// every such line is JSON.
pub proof fn lines_become_documents(key: Seq<char>, lines: Seq<Seq<char>>, i: int)
    ensures
        line_documents(key, lines) is Ok <==> forall|j: int|
            0 <= j < lines.len() && not_blank(lines[j]) ==> json::parsed(#[trigger] lines[j]) is Ok,
        line_documents(key, lines) matches Ok(docs) ==> docs.len() == lines.filter(
            |l: Seq<char>| not_blank(l),
        ).len(),
        line_documents(key, lines) matches Ok(docs) ==> (0 <= i < lines.len() && not_blank(lines[i])
            ==> {
            let at = lines.take(i).filter(|l: Seq<char>| not_blank(l)).len() as int;
            &&& at < docs.len()
            &&& docs[at].index == "datadog"@
            &&& docs[at].id == key + "#"@ + number::decimal_text(i)
            &&& json::parsed(lines[i]) matches Ok(v) && docs[at].body == flatten_archive::flattened(
                v,
            )
        }),
    decreases lines.len(),
{
    reveal(Seq::filter);
    let pred = |l: Seq<char>| not_blank(l);
    if lines.len() > 0 {
        let head = lines.drop_last();
        lines_become_documents(key, head, i);
        if line_documents(key, lines) is Ok {
            assert forall|j: int| 0 <= j < lines.len() && not_blank(lines[j]) implies json::parsed(
                #[trigger] lines[j],
            ) is Ok by {
                if j < head.len() {
                    assert(head[j] == lines[j]);
                }
            }
        } else if line_documents(key, head) is Err {
            let j = choose|j: int|
                0 <= j < head.len() && not_blank(head[j]) && !(json::parsed(#[trigger] head[j]) is Ok);
            assert(lines[j] == head[j]);
        } else {
            assert(not_blank(lines[lines.len() - 1]));
            assert(!(json::parsed(lines[lines.len() - 1]) is Ok));
        }
        if 0 <= i < head.len() {
            assert(head.take(i) =~= lines.take(i));
            assert(head[i] == lines[i]);
        } else if i == head.len() {
            assert(lines.take(i) =~= head);
        }
    }
}

/// What is told of an object with a line that is not JSON is the first such line:
/// the object, the number of the line and what is wrong with it.
pub proof fn the_first_bad_line_is_told(key: Seq<char>, lines: Seq<Seq<char>>, i: int, e: Seq<char>)
    requires
        0 <= i < lines.len(),
        not_blank(lines[i]),
        json::parsed(lines[i]) == Err::<JsonView, Seq<char>>(e),
        forall|j: int| 0 <= j < i && not_blank(lines[j]) ==> json::parsed(#[trigger] lines[j]) is Ok,
    ensures
        line_documents(key, lines) == Err::<Seq<DocumentView>, Seq<char>>(
            "invalid JSON in "@ + key + " line "@ + number::decimal_text(i) + ": "@ + e,
        ),
{
    let head = lines.take(i);
    lines_become_documents(key, head, 0);
    assert forall|j: int| 0 <= j < head.len() && not_blank(head[j]) implies json::parsed(
        #[trigger] head[j],
    ) is Ok by {
        assert(head[j] == lines[j]);
    }
    let next = lines.take(i + 1);
    assert(next.drop_last() =~= head);
    assert(next.last() == lines[i]);
    errors_stay(key, lines, i + 1);
}

/// The documents of an object are those of the lines of its inflated text. Bytes
/// that do not inflate, and a payload that is not UTF-8, give none, and the object
/// is told with what is wrong with it.
pub proof fn objects_are_read_by_line(key: Seq<char>, raw: Seq<u8>, codec: Codec, content: Seq<char>)
    ensures
        decompress::decoded(raw, codec) == Ok::<Seq<u8>, Seq<char>>(encode_utf8(content))
            ==> object_documents(key, raw, codec) == line_documents(
            key,
            text::split(content, '\n'),
        ),
        decompress::decoded(raw, codec) matches Ok(payload) && !valid_utf8(payload)
            ==> object_documents(key, raw, codec) == Err::<Seq<DocumentView>, Seq<char>>(
            "archive "@ + key + " is not valid UTF-8: "@ + text::utf8_error(
                decompress::decoded(raw, codec)->Ok_0,
            ),
        ),
        decompress::decoded(raw, codec) matches Err(e) && codec is Gzip ==> object_documents(
            key,
            raw,
            codec,
        ) == Err::<Seq<DocumentView>, Seq<char>>(
            "gzip decode failed: "@ + decompress::decoded(raw, codec)->Err_0,
        ),
        decompress::decoded(raw, codec) matches Err(e) && codec is Zstd ==> object_documents(
            key,
            raw,
            codec,
        ) == Err::<Seq<DocumentView>, Seq<char>>(
            "zstd decode failed: "@ + decompress::decoded(raw, codec)->Err_0,
        ),
{
    encode_utf8_valid_utf8(content);
    encode_utf8_decode_utf8(content);
}

/// An object has a bad line exactly if it inflates to text of which a line is
/// neither blank nor JSON.
pub proof fn bad_lines_are_not_json(key: Seq<char>, raw: Seq<u8>, codec: Codec, content: Seq<char>)
    requires
        decompress::decoded(raw, codec) == Ok::<Seq<u8>, Seq<char>>(encode_utf8(content)),
    ensures
        has_bad_line(key, raw, codec) <==> exists|j: int|
            0 <= j < text::split(content, '\n').len() && not_blank(text::split(content, '\n')[j])
                && json::parsed(#[trigger] text::split(content, '\n')[j]) is Err,
{
    encode_utf8_valid_utf8(content);
    encode_utf8_decode_utf8(content);
    lines_become_documents(key, text::split(content, '\n'), 0);
}

/// An object that did not inflate to text has no bad line.
pub proof fn unread_bytes_have_no_bad_line(key: Seq<char>, raw: Seq<u8>, codec: Codec)
    requires
        decompress::decoded(raw, codec) is Err || !valid_utf8(decompress::decoded(raw, codec)->Ok_0),
    ensures
        !has_bad_line(key, raw, codec),
{
}

/// A fixed codec is used whatever the key; otherwise the key's suffix names it.
pub proof fn codecs_are_fixed_or_named(codec: Codec, name: Seq<char>, suffix: Seq<char>)
    ensures
        codec_for(Compression::Fixed(codec), name) == Some(codec),
        text::ascii_lower_text(suffix) == ".zst"@ || text::ascii_lower_text(suffix) == ".zstd"@
            ==> codec_for(Compression::Auto, name + suffix) == Some(Codec::Zstd),
        text::ascii_lower_text(suffix) == ".gz"@ || text::ascii_lower_text(suffix) == ".gzip"@
            ==> codec_for(Compression::Auto, name + suffix) == Some(Codec::Gzip),
        codec_for(Compression::Auto, name) == decompress::codec_of(name),
{
    decompress::suffixes_name_the_codec(name, suffix);
}

/// Only the three names, and the empty one for the default, name a backend.
pub proof fn backends_have_one_name(name: Seq<char>)
    ensures
        provider_of(name) == Some(CloudProvider::S3) <==> name == "s3"@ || name.len() == 0,
        provider_of(name) == Some(CloudProvider::Gcs) <==> name == "gcs"@,
        provider_of(name) == Some(CloudProvider::Azure) <==> name == "azure"@,
{
    reveal_strlit("s3");
    reveal_strlit("gcs");
    reveal_strlit("azure");
    reveal_strlit("");
    assert("s3"@.len() == 2 && "gcs"@.len() == 3 && "azure"@.len() == 5 && ""@.len() == 0);
    if name.len() == 0 {
        assert(name =~= ""@);
    }
}

/// A resume blob is one value that holds, under `dd_archive`, the last key done and
/// the number of objects done.
pub proof fn cursors_have_their_form(a: Anchor)
    ensures
        encoded(a).len() == 1,
        json::field(encoded(a)[0], "dd_archive"@) matches Some(m) && {
            &&& json::field(m, "files_done"@) == Some(
                JsonView::Number(NumberView::Int(a.files_done)),
            )
            &&& match a.last_key {
                Some(k) => json::field(m, "last_key"@) == Some(JsonView::String(k)),
                None => json::field(m, "last_key"@) == Some(JsonView::Null),
            }
        },
{
    reveal_strlit("last_key");
    reveal_strlit("files_done");
    assert("last_key"@.len() == 8 && "files_done"@.len() == 10);
}

/// Of a blob the first value with the marker counts, whatever stands around it. A
/// blob without one begins at the beginning.
pub proof fn the_first_marked_value_counts(
    front: Seq<JsonView>,
    value: JsonView,
    back: Seq<JsonView>,
    mark: JsonView,
)
    requires
        forall|i: int| 0 <= i < front.len() ==> json::field(#[trigger] front[i], "dd_archive"@) is None,
        json::field(value, "dd_archive"@) == Some(mark),
    ensures
        decoded(front) == (Anchor { last_key: None, files_done: 0 }),
        ({
            let a = decoded(front + seq![value] + back);
            &&& match json::field(mark, "last_key"@) {
                Some(JsonView::String(k)) => a.last_key == Some(k),
                _ => a.last_key is None,
            }
            &&& match json::field(mark, "files_done"@) {
                Some(JsonView::Number(NumberView::Int(n))) => 0 <= n <= u64::MAX ==> a.files_done
                    == n,
                _ => a.files_done == 0,
            }
            &&& 0 <= a.files_done <= u64::MAX
        }),
    decreases front.len(),
{
    let whole = front + seq![value] + back;
    if front.len() > 0 {
        let rest = front.drop_first();
        assert(whole[0] == front[0]);
        assert(whole.drop_first() =~= rest + seq![value] + back);
        assert forall|i: int| 0 <= i < rest.len() implies json::field(
            #[trigger] rest[i],
            "dd_archive"@,
        ) is None by {
            assert(rest[i] == front[i + 1]);
        }
        the_first_marked_value_counts(rest, value, back, mark);
    } else {
        assert(whole[0] == value);
    }
}

/// A run without a checkpoint begins at the beginning, with one where the blob
/// stands.
pub proof fn checkpoints_are_read(blob: Vec<Json>)
    ensures
        saved(None) == (Anchor { last_key: None, files_done: 0 }),
        saved(Some(blob)) == decoded(json::array_view(blob@)),
{
}

/// What is known of where a source stands is what its state holds; the next key is
/// the one at its position, and there is none behind the last.
pub proof fn standings_show_the_state(source: DatadogArchiveSource)
    ensures
        source.anchor().last_key == text::opt_text(source.state.last_key),
        source.anchor().files_done == source.state.files_done,
        source.state.pos < source.state.keys@.len() ==> source.next_key() == Some(
            source.state.keys@[source.state.pos as int]@,
        ),
        source.state.pos >= source.state.keys@.len() ==> source.next_key() is None,
{
}

/// A source that was not opened cannot be read. One that was can, unless the codec
/// of its next object is neither fixed nor named by the key, and then the key is
/// told.
pub proof fn only_codecs_stand_in_the_way(source: DatadogArchiveSource)
    ensures
        !source.state.opened ==> source.obstacle() == Some(
            "Datadog archive source used before open()"@,
        ),
        source.state.opened && source.next_key() is None ==> source.obstacle() is None,
        source.state.opened && source.compression is Fixed ==> source.obstacle() is None,
        source.state.opened && source.compression is Auto && source.next_key() is Some ==> {
            let key = source.next_key()->0;
            &&& source.obstacle() is None <==> decompress::codec_of(key) is Some
            &&& source.obstacle() is Some ==> source.obstacle() == Some(
                "cannot infer compression codec from key "@ + key
                    + " (expected .zst/.gz); set an explicit compression"@,
            )
        },
{
}

/// Two sources that are configured alike agree on every setting.
pub proof fn settings_are_all_kept(a: DatadogArchiveSource, b: DatadogArchiveSource)
    requires
        a.same_settings(&b),
    ensures
        a.bucket == b.bucket,
        a.prefix == b.prefix,
        a.cloud == b.cloud,
        a.region == b.region,
        a.from == b.from,
        a.to == b.to,
        a.compression == b.compression,
        a.resume_after == b.resume_after,
{
}

/// However many slashes an endpoint ends in, one stands between it and the
/// container. An endpoint goes before an account, an account names the host, and
/// without either there is no URL.
pub proof fn containers_have_one_url(
    base: Seq<char>,
    slashes: Seq<char>,
    account: Option<Seq<char>>,
    container: Seq<char>,
)
    requires
        base.len() > 0 ==> base.last() != '/',
        forall|i: int| 0 <= i < slashes.len() ==> #[trigger] slashes[i] == '/',
    ensures
        azure_url(Some(base + slashes), account, container) == Some(base + "/"@ + container),
        account matches Some(a) ==> azure_url(None, account, container) == Some(
            "https://"@ + a + ".blob.core.windows.net/"@ + container,
        ),
        azure_url(None, None, container) is None,
{
    slashes_are_taken_off(base, slashes);
}

proof fn slashes_are_taken_off(base: Seq<char>, slashes: Seq<char>)
    requires
        base.len() > 0 ==> base.last() != '/',
        forall|i: int| 0 <= i < slashes.len() ==> #[trigger] slashes[i] == '/',
    ensures
        without_slashes(base + slashes) == base,
    decreases slashes.len(),
{
    if slashes.len() == 0 {
        assert(base + slashes =~= base);
    } else {
        let fewer = slashes.drop_last();
        assert((base + slashes).drop_last() =~= base + fewer);
        assert((base + slashes).last() == slashes[slashes.len() - 1]);
        assert forall|i: int| 0 <= i < fewer.len() implies #[trigger] fewer[i] == '/' by {
            assert(fewer[i] == slashes[i]);
        }
        slashes_are_taken_off(base, fewer);
    }
}

/// A workload identity goes before a service principal, a principal needs all three
/// of its parts and takes them as they are, and without either the developer tools
/// sign in.
pub proof fn credentials_have_their_order(
    federated: bool,
    tenant: Option<String>,
    client: Option<String>,
    secret: Option<String>,
    r: AzureCredential,
)
    requires
        call_ensures(azure_credential, (federated, tenant, client, secret), r),
    ensures
        r is Workload <==> federated,
        r is Secret <==> !federated && tenant is Some && client is Some && secret is Some,
        r matches AzureCredential::Secret { tenant: t, client: c, secret: s } ==> tenant == Some(t)
            && client == Some(c) && secret == Some(s),
{
}

/// A listing goes on exactly where it says that it was cut short and names the next
/// page.
pub proof fn listings_go_on_where_cut(
    truncated: Option<bool>,
    token: Option<String>,
    r: Option<String>,
)
    requires
        call_ensures(next_page, (truncated, token), r),
    ensures
        r is Some <==> truncated == Some(true) && token is Some,
        r is Some ==> r == token,
{
}

/// A backend is read from its name in any case and with white space around it.
pub proof fn backends_are_read_in_any_case(s: &str, r: Result<CloudProvider, EsiftError>)
    requires
        call_ensures(CloudProvider::parse, (s,), r),
    ensures
        ({
            let name = text::ascii_lower_text(text::trim(s@));
            &&& (r matches Ok(CloudProvider::S3)) <==> name == "s3"@ || name.len() == 0
            &&& (r matches Ok(CloudProvider::Gcs)) <==> name == "gcs"@
            &&& (r matches Ok(CloudProvider::Azure)) <==> name == "azure"@
        }),
{
    backends_have_one_name(text::ascii_lower_text(text::trim(s@)));
}

/// A run that is resumed from its cursor stands where the cursor was taken.
pub proof fn cursors_hold_where_the_run_stands(source: DatadogArchiveSource, r: Option<Vec<Json>>)
    requires
        call_ensures(DatadogArchiveSource::cursor, (&source,), r),
    ensures
        r matches Some(blob) && {
            let a = decoded(json::array_view(blob@));
            &&& a.last_key == text::opt_text(source.state.last_key)
            &&& a.files_done == source.state.files_done
        },
{
    cursors_read_back(source.anchor());
}

/// A listing is taken in whole: a source that opens on it has every key that is
/// wanted, and no other, in ascending order, and stands before the first.
pub proof fn listings_are_taken_in_whole(
    source: &mut DatadogArchiveSource,
    listing: Vec<String>,
    key: Seq<char>,
)
    requires
        call_ensures(DatadogArchiveSource::open_with_keys, (source, &listing), ()),
    ensures
        order::texts(final(source).state.keys@).contains(key) <==> order::texts(listing@).contains(
            key,
        ) && old(source).wanted(key),
        order::sorted(order::texts(final(source).state.keys@)),
        final(source).state.pos == 0,
        final(source).state.opened,
        final(source).prefix == old(source).prefix,
{
    broadcast use group_to_multiset_ensures;

    let all = order::texts(listing@);
    let keys = order::texts(final(source).state.keys@);
    let pred = |k: Seq<char>| old(source).wanted(k);
    order::filtering_contents(all, pred);
    assert(keys.to_multiset() == all.filter(pred).to_multiset());
    assert(keys.contains(key) <==> keys.to_multiset().count(key) > 0);
    assert(all.contains(key) <==> all.to_multiset().count(key) > 0);
    assert(all.to_multiset().filter(pred).count(key) == if pred(key) {
        all.to_multiset().count(key)
    } else {
        0
    });
}

/// An object that is read moves the run on by one and is remembered as the last; an
/// object that is not leaves the run where it stands.
pub proof fn objects_move_the_run(
    source: &mut DatadogArchiveSource,
    raw: &[u8],
    r: Result<Option<Vec<Document>>, Unread>,
)
    requires
        call_ensures(DatadogArchiveSource::on_object, (source, raw), r),
    ensures
        r matches Ok(Some(_)) ==> {
            &&& final(source).state.pos == old(source).state.pos + 1
            &&& final(source).state.files_done == old(source).state.files_done + 1
            &&& text::opt_text(final(source).state.last_key) == old(source).next_key()
            &&& old(source).next_key() is Some
        },
        r is Err || (r matches Ok(None)) ==> final(source).state == old(source).state,
        r matches Ok(None) ==> old(source).next_key() is None,
        final(source).state.keys == old(source).state.keys,
        final(source).prefix == old(source).prefix,
{
    if r matches Ok(Some(_)) {
        let key = old(source).next_key()->0;
        assert(final(source).anchor() == (Anchor {
            last_key: Some(key),
            files_done: old(source).state.files_done + 1,
        }));
    }
}

} // verus!
