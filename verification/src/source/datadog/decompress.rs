//! Decompression for Datadog archive objects.
//!
//! Datadog archives logs as NDJSON compressed with zstd (the current default)
//! or gzip. The codec is selected from the object key's suffix via
//! [`Codec::from_key`], then the bytes are inflated to the raw NDJSON payload.

use crate::error::EsiftError;
use crate::text;
use crate::text::join2;
use vstd::prelude::*;

verus! {

/// Compression codec of a Datadog archive object.
#[derive(Debug, Clone, Copy, PartialEq, Eq, Structural)]
pub enum Codec {
    Zstd,
    Gzip,
}

/// The codec that a key's suffix names, in either case.
pub open spec fn codec_of(key: Seq<char>) -> Option<Codec> {
    let k = text::ascii_lower_text(key);
    if text::has_suffix(k, ".zst"@) || text::has_suffix(k, ".zstd"@) {
        Some(Codec::Zstd)
    } else if text::has_suffix(k, ".gz"@) || text::has_suffix(k, ".gzip"@) {
        Some(Codec::Gzip)
    } else {
        None
    }
}

impl Codec {
    /// Select a codec from an object key's suffix: `.zst`/`.zstd` for
    /// [`Codec::Zstd`], `.gz`/`.gzip` for [`Codec::Gzip`]. Gives nothing for
    /// anything else.
    pub fn from_key(key: &str) -> (r: Option<Codec>)
        ensures
            r == codec_of(key@),
    {
        let cs = text::chars_of(key);
        let k = text::ascii_lowercase(&cs);
        if text::ends_with(&k, &text::chars_of(".zst")) || text::ends_with(
            &k,
            &text::chars_of(".zstd"),
        ) {
            Some(Codec::Zstd)
        } else if text::ends_with(&k, &text::chars_of(".gz")) || text::ends_with(
            &k,
            &text::chars_of(".gzip"),
        ) {
            Some(Codec::Gzip)
        } else {
            None
        }
    }
}

/// What `flate2`'s gzip decoder makes of bytes: the payload, or the text of its
/// error.
pub uninterp spec fn gzip_decoded(bytes: Seq<u8>) -> Result<Seq<u8>, Seq<char>>;

/// What `zstd::stream::decode_all` makes of bytes: the payload, or the text of
/// its error.
pub uninterp spec fn zstd_decoded(bytes: Seq<u8>) -> Result<Seq<u8>, Seq<char>>;

/// Reads a `flate2::read::GzDecoder` over the bytes to its end. What comes out
/// depends on the bytes alone and is named `gzip_decoded`.
#[verifier::external_body]
fn gunzip(bytes: &[u8]) -> (r: Result<Vec<u8>, String>)
    ensures
        match r {
            Ok(out) => gzip_decoded(bytes@) == Ok::<Seq<u8>, Seq<char>>(out@),
            Err(e) => gzip_decoded(bytes@) == Err::<Seq<u8>, Seq<char>>(e@),
        },
{
    let mut out = Vec::new();
    let mut decoder = flate2::read::GzDecoder::new(bytes);
    std::io::Read::read_to_end(&mut decoder, &mut out).map(|_| out).map_err(|e| e.to_string())
}

/// Calls `zstd::stream::decode_all`. What comes out depends on the bytes alone
/// and is named `zstd_decoded`.
#[verifier::external_body]
fn unzstd(bytes: &[u8]) -> (r: Result<Vec<u8>, String>)
    ensures
        match r {
            Ok(out) => zstd_decoded(bytes@) == Ok::<Seq<u8>, Seq<char>>(out@),
            Err(e) => zstd_decoded(bytes@) == Err::<Seq<u8>, Seq<char>>(e@),
        },
{
    zstd::stream::decode_all(bytes).map_err(|e| e.to_string())
}

/// What a codec makes of bytes.
pub open spec fn decoded(bytes: Seq<u8>, codec: Codec) -> Result<Seq<u8>, Seq<char>> {
    match codec {
        Codec::Gzip => gzip_decoded(bytes),
        Codec::Zstd => zstd_decoded(bytes),
    }
}

/// The words in front of a decoder's error.
pub open spec fn decode_failed(codec: Codec) -> Seq<char> {
    match codec {
        Codec::Gzip => "gzip decode failed: "@,
        Codec::Zstd => "zstd decode failed: "@,
    }
}

/// What a decoder's outcome is reported as.
pub open spec fn reported(
    r: Result<Vec<u8>, EsiftError>,
    outcome: Result<Seq<u8>, Seq<char>>,
    codec: Codec,
) -> bool {
    match r {
        Ok(out) => outcome == Ok::<Seq<u8>, Seq<char>>(out@),
        Err(e) => outcome matches Err(text) && e is Source && e.detail() == decode_failed(codec)
            + text,
    }
}

/// Turns a decoder's outcome into the library's own result.
pub fn report(outcome: Result<Vec<u8>, String>, codec: Codec) -> (r: Result<Vec<u8>, EsiftError>)
    ensures
        match outcome {
            Ok(out) => r matches Ok(o) && o@ == out@,
            Err(text) => r matches Err(e) && e is Source && e.detail() == decode_failed(codec)
                + text@,
        },
{
    match outcome {
        Ok(out) => Ok(out),
        Err(e) => match codec {
            Codec::Gzip => Err(EsiftError::Source(join2("gzip decode failed: ", e.as_str()))),
            Codec::Zstd => Err(EsiftError::Source(join2("zstd decode failed: ", e.as_str()))),
        },
    }
}

/// Decompress `bytes` with `codec`, returning the decoded payload.
pub fn decompress(bytes: &[u8], codec: Codec) -> (r: Result<Vec<u8>, EsiftError>)
    ensures
        reported(r, decoded(bytes@, codec), codec),
{
    match codec {
        Codec::Gzip => report(gunzip(bytes), codec),
        Codec::Zstd => report(unzstd(bytes), codec),
    }
}

/// A codec is chosen by the suffix of a key and nothing in front of it, in upper,
/// lower or mixed case.
pub proof fn suffixes_name_the_codec(name: Seq<char>, suffix: Seq<char>)
    ensures
        text::ascii_lower_text(suffix) == ".zst"@ || text::ascii_lower_text(suffix) == ".zstd"@
            ==> codec_of(name + suffix) == Some(Codec::Zstd),
        text::ascii_lower_text(suffix) == ".gz"@ || text::ascii_lower_text(suffix) == ".gzip"@
            ==> codec_of(name + suffix) == Some(Codec::Gzip),
{
    let k = text::ascii_lower_text(name + suffix);
    let low = text::ascii_lower_text(suffix);
    assert(k =~= text::ascii_lower_text(name) + low);
    assert(k.skip(k.len() - low.len()) =~= low);
    suffixes_end_apart();
    if low == ".gz"@ || low == ".gzip"@ {
        assert(k.last() == low.last());
        if text::has_suffix(k, ".zst"@) {
            assert(k.last() == ".zst"@.last());
        }
        if text::has_suffix(k, ".zstd"@) {
            assert(k.last() == ".zstd"@.last());
        }
    }
}

/// A key that ends in none of the four suffixes has no codec.
pub proof fn other_keys_have_no_codec(key: Seq<char>)
    ensures
        codec_of(key) is Some ==> exists|n: int|
            0 <= n <= key.len() && {
                let low = #[trigger] text::ascii_lower_text(key.skip(n));
                low == ".zst"@ || low == ".zstd"@ || low == ".gz"@ || low == ".gzip"@
            },
{
    if codec_of(key) is Some {
        let k = text::ascii_lower_text(key);
        let suffix = if text::has_suffix(k, ".zst"@) {
            ".zst"@
        } else if text::has_suffix(k, ".zstd"@) {
            ".zstd"@
        } else if text::has_suffix(k, ".gz"@) {
            ".gz"@
        } else {
            ".gzip"@
        };
        let n = k.len() - suffix.len();
        assert(text::ascii_lower_text(key.skip(n)) =~= suffix);
    }
}

proof fn suffixes_end_apart()
    ensures
        ".zst"@.last() == 't',
        ".zstd"@.last() == 'd',
        ".gz"@.last() == 'z',
        ".gzip"@.last() == 'p',
        ".zst"@.len() == 4,
        ".zstd"@.len() == 5,
        ".gz"@.len() == 3,
        ".gzip"@.len() == 5,
{
    reveal_strlit(".zst");
    reveal_strlit(".zstd");
    reveal_strlit(".gz");
    reveal_strlit(".gzip");
}

/// A decoder's payload is handed on as it is, and its error is told with the name
/// of the codec in front.
pub proof fn decoders_are_told_apart(bytes: Seq<u8>, r: Result<Vec<u8>, EsiftError>, codec: Codec)
    requires
        reported(r, decoded(bytes, codec), codec),
    ensures
        codec is Gzip && gzip_decoded(bytes) is Ok || codec is Zstd && zstd_decoded(bytes) is Ok
            <==> r is Ok,
        codec is Gzip ==> match gzip_decoded(bytes) {
            Ok(payload) => r matches Ok(out) && out@ == payload,
            Err(e) => r matches Err(error) && error is Source && error.detail()
                == "gzip decode failed: "@ + e,
        },
        codec is Zstd ==> match zstd_decoded(bytes) {
            Ok(payload) => r matches Ok(out) && out@ == payload,
            Err(e) => r matches Err(error) && error is Source && error.detail()
                == "zstd decode failed: "@ + e,
        },
{
}

} // verus!
