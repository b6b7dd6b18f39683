//! Encode a prepared bulk payload and classify the HTTP response.

use crate::dest::openobserve::config::Compression;
use crate::error::EsiftError;
use crate::http;
use crate::source::datadog::decompress;
use vstd::prelude::*;
use vstd::utf8::*;

verus! {

/// What `flate2`'s gzip encoder makes of bytes at its default level, or the text
/// of its error.
pub uninterp spec fn gzip_encoded(data: Seq<u8>) -> Result<Seq<u8>, Seq<char>>;

/// Writes the bytes into a `flate2::write::GzEncoder` at the default level and
/// finishes it. What comes out depends on the bytes alone and is named
/// `gzip_encoded`; the gzip decoder gives the bytes back.
#[verifier::external_body]
fn gzip(data: &[u8]) -> (r: Result<Vec<u8>, String>)
    ensures
        match r {
            Ok(out) => gzip_encoded(data@) == Ok::<Seq<u8>, Seq<char>>(out@)
                && decompress::gzip_decoded(out@) == Ok::<Seq<u8>, Seq<char>>(data@),
            Err(e) => gzip_encoded(data@) == Err::<Seq<u8>, Seq<char>>(e@),
        },
{
    let mut encoder = flate2::write::GzEncoder::new(Vec::new(), flate2::Compression::default());
    std::io::Write::write_all(&mut encoder, data).map_err(|e| e.to_string())?;
    encoder.finish().map_err(|e| e.to_string())
}

/// A request body as it is sent.
pub struct Payload {
    pub bytes: Vec<u8>,
    /// Whether the bytes are gzip, and `Content-Encoding` is to say so.
    pub gzip: bool,
}

/// Whether an outcome is that of encoding a body. The text is always recoverable
/// from what is sent.
pub open spec fn encodes(
    r: Result<Payload, EsiftError>,
    body: Seq<char>,
    compression: Compression,
) -> bool {
    match compression {
        Compression::Plain => r matches Ok(p) && !p.gzip && p.bytes@ == encode_utf8(body),
        Compression::Gzip => match gzip_encoded(encode_utf8(body)) {
            Ok(bytes) => {
                &&& r matches Ok(p)
                &&& p.gzip
                &&& p.bytes@ == bytes
                &&& decompress::gzip_decoded(p.bytes@) == Ok::<Seq<u8>, Seq<char>>(
                    encode_utf8(body),
                )
            },
            Err(words) => r matches Err(e) && e is Io && e.detail() == words,
        },
    }
}

/// Encodes a bulk body for sending.
pub fn payload(body: &str, compression: Compression) -> (r: Result<Payload, EsiftError>)
    ensures
        encodes(r, body@, compression),
{
    match compression {
        Compression::Plain => {
            let b = body.as_bytes();
            let n: usize = b.len();
            let mut bytes: Vec<u8> = Vec::new();
            let mut i: usize = 0;
            while i < n
                invariant
                    n == b@.len(),
                    i <= n,
                    bytes@ == b@.take(i as int),
                decreases n - i,
            {
                bytes.push(b[i]);
                i = i + 1;
                assert(b@.take(i as int) =~= b@.take(i - 1).push(b@[i - 1]));
            }
            assert(b@.take(n as int) =~= b@);
            Ok(Payload { bytes, gzip: false })
        },
        Compression::Gzip => match gzip(body.as_bytes()) {
            Ok(bytes) => Ok(Payload { bytes, gzip: true }),
            Err(e) => Err(EsiftError::Io(e)),
        },
    }
}

/// Whether a response is sorted rightly: a success is no error; 429 and 5xx are
/// transient (worth another try); any other status is a terminal destination
/// error. The error carries the status and the body.
pub open spec fn classified(r: Option<EsiftError>, status: u16, body: Seq<char>) -> bool {
    match r {
        None => http::is_success(status),
        Some(e) => {
            &&& !http::is_success(status)
            &&& e.detail() == http::failure_text("OpenObserve bulk failed"@, status, body)
            &&& e is Transient <==> status == 429 || 500 <= status <= 599
            &&& e is Destination <==> !(status == 429 || 500 <= status <= 599)
        },
    }
}

/// Map an HTTP status to a retry decision. A success passes the response on to
/// be read.
pub fn classify(status: u16, body: &str) -> (r: Option<EsiftError>)
    requires
        100 <= status <= 999,
    ensures
        classified(r, status, body@),
{
    if http::success(status) {
        return None;
    }
    let words = http::failure("OpenObserve bulk failed", status, body);
    if status == 429 || (500 <= status && status <= 599) {
        Some(EsiftError::Transient(words))
    } else {
        Some(EsiftError::Destination(words))
    }
}

/// Whatever the compression, the text of a body can be read
/// back from what is sent, and the flag says whether it is to be inflated first.
pub proof fn bodies_can_be_read_back(p: Payload, body: Seq<char>, compression: Compression)
    requires
        encodes(Ok(p), body, compression),
    ensures
        p.gzip <==> compression is Gzip,
        !p.gzip ==> valid_utf8(p.bytes@) && decode_utf8(p.bytes@) == body,
        p.gzip ==> (decompress::gzip_decoded(p.bytes@) matches Ok(bytes) && valid_utf8(bytes)
            && decode_utf8(bytes) == body),
{
    encode_utf8_valid_utf8(body);
    encode_utf8_decode_utf8(body);
}

/// Encoding fails only where the encoder does, and then with its words.
pub proof fn only_encoders_fail(e: EsiftError, body: Seq<char>, compression: Compression)
    requires
        encodes(Err(e), body, compression),
    ensures
        compression is Gzip,
        e is Io,
        gzip_encoded(encode_utf8(body)) == Err::<Seq<u8>, Seq<char>>(e.detail()),
{
}

/// A response is a failure exactly if its status is not of the two hundreds. Too
/// many requests and the server's own failures are worth another try, and no other
/// status is.
pub proof fn statuses_are_sorted(r: Option<EsiftError>, status: u16, body: Seq<char>)
    requires
        classified(r, status, body),
    ensures
        r is None <==> status / 100 == 2,
        r matches Some(e) ==> {
            &&& status == 429 || status / 100 == 5 ==> e is Transient
            &&& status != 429 && status / 100 != 5 ==> e is Destination
            &&& e.detail() == http::failure_text("OpenObserve bulk failed"@, status, body)
        },
{
}

} // verus!
