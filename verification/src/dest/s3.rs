//! S3 object-store destination.
//!
//! Each batch is serialized to NDJSON and uploaded as a single object under
//! `{prefix}{seq}.ndjson`, where `seq` is an internal counter incremented per
//! batch so keys never collide.

use crate::dest::ndjson;
use crate::error::EsiftError;
use crate::number;
use crate::text;
use crate::Document;
use vstd::prelude::*;

verus! {

/// A bucket that documents are uploaded to.
pub struct S3Destination {
    pub bucket: String,
    pub prefix: String,
    pub region: Option<String>,
    /// Incremented per batch to make each object key unique.
    pub seq: u64,
}

/// An object to be uploaded.
pub struct S3Object {
    pub key: String,
    pub body: String,
}

/// The key of the object with the number `seq`.
pub open spec fn object_key(prefix: Seq<char>, seq: int) -> Seq<char> {
    prefix + number::decimal_text(seq) + ".ndjson"@
}

/// The text that `{:?}` prints for an optional string.
pub uninterp spec fn debug_text(s: Option<Seq<char>>) -> Seq<char>;

/// Formats an optional string with `{:?}`. The text depends on it alone and is
/// named `debug_text`.
#[verifier::external_body]
fn debug_of(s: &Option<String>) -> (r: String)
    ensures
        r@ == debug_text(text::opt_text(*s)),
{
    format!("{:?}", s)
}

impl S3Destination {
    /// A destination that has uploaded nothing yet.
    pub fn new(bucket: &str, prefix: &str, region: Option<String>) -> (r: Result<
        S3Destination,
        EsiftError,
    >)
        ensures
            r matches Ok(d) && {
                &&& d.bucket@ == bucket@
                &&& d.prefix@ == prefix@
                &&& d.region == region
                &&& d.seq == 0
            },
    {
        Ok(
            S3Destination {
                bucket: bucket.to_owned(),
                prefix: prefix.to_owned(),
                region,
                seq: 0,
            },
        )
    }

    /// The object that a batch is uploaded as. The next batch gets the next
    /// number.
    pub fn next_object(&mut self, docs: &Vec<Document>) -> (r: S3Object)
        requires
            old(self).seq < u64::MAX,
        ensures
            r.key@ == object_key(old(self).prefix@, old(self).seq as int),
            r.body@ == ndjson::lines(ndjson::bodies(crate::documents(docs@))),
            *final(self) == (S3Destination { seq: (old(self).seq + 1) as u64, ..*old(self) }),
    {
        let body = ndjson::batch_lines(docs);
        let key = text::join3(
            self.prefix.as_str(),
            number::decimal(self.seq).as_str(),
            ".ndjson",
        );
        self.seq = self.seq + 1;
        S3Object { key, body }
    }

    /// Human-readable label.
    pub fn description(&self) -> (r: String)
        ensures
            r@ == "S3 bucket="@ + self.bucket@ + " prefix="@ + self.prefix@ + " region="@
                + debug_text(text::opt_text(self.region)),
    {
        let mut out = text::join4(
            "S3 bucket=",
            self.bucket.as_str(),
            " prefix=",
            self.prefix.as_str(),
        );
        text::append_text(&mut out, " region=");
        text::append_text(&mut out, debug_of(&self.region).as_str());
        out
    }
}

/// Keys never collide: two batches have different numbers, and so different
/// keys.
pub proof fn keys_never_collide(prefix: Seq<char>, a: int, b: int)
    requires
        0 <= a,
        0 <= b,
        object_key(prefix, a) == object_key(prefix, b),
    ensures
        a == b,
{
    let n = prefix.len() as int;
    let ka = object_key(prefix, a);
    let kb = object_key(prefix, b);
    let end = ka.len() - ".ndjson"@.len();
    assert(ka.subrange(n, end) =~= number::decimal_text(a));
    assert(kb.subrange(n, end) =~= number::decimal_text(b));
    number::decimal_injective(a, b);
}

/// A key begins with the prefix and ends in `.ndjson`, and the number of the batch
/// can be read from what stands between them.
pub proof fn keys_hold_the_number(prefix: Seq<char>, seq: int)
    requires
        0 <= seq,
    ensures
        ({
            let key = object_key(prefix, seq);
            let end = key.len() - ".ndjson"@.len();
            &&& key.take(prefix.len() as int) == prefix
            &&& prefix.len() <= end
            &&& key.skip(end) == ".ndjson"@
            &&& number::unsigned_number(key.subrange(prefix.len() as int, end)) == Some(seq)
        }),
{
    let key = object_key(prefix, seq);
    let end = key.len() - ".ndjson"@.len();
    let digits = number::decimal_text(seq);
    assert(key.take(prefix.len() as int) =~= prefix);
    assert(key.skip(end) =~= ".ndjson"@);
    assert(key.subrange(prefix.len() as int, end) =~= digits);
    number::integers_read_back(seq);
    assert(number::integer_text(seq) == digits);
}

/// Two batches, one after the other, are uploaded under two keys, whatever they
/// hold, and each object holds the lines of its own batch.
pub proof fn batches_are_uploaded_apart(
    dest: &mut S3Destination,
    next: &mut S3Destination,
    first: Vec<Document>,
    second: Vec<Document>,
    a: S3Object,
    b: S3Object,
)
    requires
        call_ensures(S3Destination::next_object, (dest, &first), a),
        *old(next) == *final(dest),
        old(dest).seq < u64::MAX,
        call_ensures(S3Destination::next_object, (next, &second), b),
    ensures
        a.key@ != b.key@,
        text::has_prefix(a.key@, old(dest).prefix@),
        text::has_prefix(b.key@, old(dest).prefix@),
        a.body@ == ndjson::lines(ndjson::bodies(crate::documents(first@))),
        b.body@ == ndjson::lines(ndjson::bodies(crate::documents(second@))),
        final(next).bucket == old(dest).bucket,
{
    let prefix = old(dest).prefix@;
    keys_hold_the_number(prefix, old(dest).seq as int);
    keys_hold_the_number(prefix, old(dest).seq + 1);
    if a.key@ == b.key@ {
        keys_never_collide(prefix, old(dest).seq as int, old(dest).seq + 1);
    }
}

} // verus!
