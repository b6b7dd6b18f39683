//! What the HTTP sources and destinations share.

pub mod retry;
pub mod sigv4;

use crate::error::EsiftError;
use crate::json;
use crate::json::{Json, JsonView};
use crate::text;
use vstd::prelude::*;
use vstd::utf8::*;

verus! {

/// Whether a byte may stand in a header value: anything but the control
/// characters, of which only the tab is allowed.
pub open spec fn header_byte(b: u8) -> bool {
    (b >= 32 && b != 127) || b == 9
}

/// Whether a text may be a header value.
pub open spec fn header_text(s: Seq<char>) -> bool {
    forall|i: int| 0 <= i < encode_utf8(s).len() ==> header_byte(#[trigger] encode_utf8(s)[i])
}

/// Calls `http::HeaderValue::from_str` and gives the text of its error. It
/// accepts a text whose bytes are all allowed in a header value, and its error
/// always reads the same.
#[verifier::external_body]
pub(crate) fn header_error(s: &str) -> (r: Option<String>)
    ensures
        match r {
            None => header_text(s@),
            Some(e) => !header_text(s@) && e@ == "failed to parse header value"@,
        },
{
    http::HeaderValue::from_str(s).err().map(|e| e.to_string())
}

/// A status code with its reason phrase, as `http::StatusCode` displays it.
pub uninterp spec fn status_line(code: u16) -> Seq<char>;

/// Displays an `http::StatusCode`, which there is for every code from 100 to
/// 999. The text depends on the code alone and is named `status_line`.
#[verifier::external_body]
pub(crate) fn status_text(code: u16) -> (r: String)
    requires
        100 <= code <= 999,
    ensures
        r@ == status_line(code),
{
    http::StatusCode::from_u16(code).map(|s| s.to_string()).unwrap_or_default()
}

/// Whether a status code stands for success.
pub open spec fn is_success(code: u16) -> bool {
    200 <= code <= 299
}

/// Whether a status code stands for success.
pub fn success(code: u16) -> (r: bool)
    ensures
        r == is_success(code),
{
    200 <= code && code <= 299
}

/// A failed request as one line: what failed, the status, and the response's
/// body.
pub open spec fn failure_text(what: Seq<char>, code: u16, body: Seq<char>) -> Seq<char> {
    what + ": HTTP "@ + status_line(code) + " — "@ + body
}

/// A failed request as one line.
pub fn failure(what: &str, code: u16, body: &str) -> (r: String)
    requires
        100 <= code <= 999,
    ensures
        r@ == failure_text(what@, code, body@),
{
    let mut out = text::join3(what, ": HTTP ", status_text(code).as_str());
    text::append_text(&mut out, " — ");
    text::append_text(&mut out, body);
    out
}

/// What `reqwest::Url::parse` makes of a text: the URL written out, and its host,
/// where it has one; or the text of the error.
pub uninterp spec fn url_parsed(s: Seq<char>) -> Result<
    (Seq<char>, Option<Seq<char>>),
    Seq<char>,
>;

/// Whether a host is made of visible ASCII characters.
pub open spec fn visible_host(h: Seq<char>) -> bool {
    forall|i: int| 0 <= i < h.len() ==> '!' <= #[trigger] h[i] && h[i] <= '~'
}

/// Whether a character may stand in the scheme of a URL that is written out.
pub open spec fn scheme_char(c: char) -> bool {
    ('a' <= c && c <= 'z') || ('0' <= c && c <= '9') || c == '+' || c == '-' || c == '.'
}

/// Whether the first `n` characters of a text are a scheme, with `://` behind it.
pub open spec fn scheme_ends(s: Seq<char>, n: int) -> bool {
    &&& 0 < n
    &&& n + 3 <= s.len()
    &&& forall|i: int| 0 <= i < n ==> scheme_char(#[trigger] s[i])
    &&& s.subrange(n, n + 3) == seq![':', '/', '/']
}

/// Whether a URL has the form `scheme://..`.
pub open spec fn has_authority(s: Seq<char>) -> bool {
    exists|n: int| scheme_ends(s, n)
}

/// Calls `reqwest::Url::parse` and, on what it gives, `as_str` and `host_str`. All
/// depend on the text alone; they are named `url_parsed`. A host comes out in
/// visible ASCII characters: domains in their ASCII form, other hosts with
/// everything else percent-encoded. A URL with a host is written out as its
/// scheme, in lower case, `://` and the rest, however the text had it.
#[verifier::external_body]
pub(crate) fn parse_url(s: &str) -> (r: Result<(String, Option<String>), String>)
    ensures
        match r {
            Ok((url, host)) => {
                &&& url_parsed(s@) == Ok::<(Seq<char>, Option<Seq<char>>), Seq<char>>(
                    (url@, text::opt_text(host)),
                )
                &&& host matches Some(h) ==> visible_host(h@) && has_authority(url@)
            },
            Err(e) => url_parsed(s@) == Err::<(Seq<char>, Option<Seq<char>>), Seq<char>>(e@),
        },
{
    reqwest::Url::parse(s)
        .map(|u| (u.as_str().to_owned(), u.host_str().map(|h| h.to_owned())))
        .map_err(|e| e.to_string())
}

/// A URL that was parsed: how it is written out, and its host.
#[derive(Debug)]
pub struct ParsedUrl {
    written: String,
    host: Option<String>,
}

impl ParsedUrl {
    #[verifier::type_invariant]
    spec fn inv(self) -> bool {
        self.host matches Some(h) ==> visible_host(h@) && has_authority(self.written@)
    }

    /// The URL written out.
    pub closed spec fn text(&self) -> Seq<char> {
        self.written@
    }

    /// The host, where the URL has one.
    pub closed spec fn host_text(&self) -> Option<Seq<char>> {
        text::opt_text(self.host)
    }

    /// Parses a URL.
    pub fn parse(s: &str) -> (r: Result<ParsedUrl, EsiftError>)
        ensures
            match url_parsed(s@) {
                Ok((url, host)) => r matches Ok(u) && u.text() == url && u.host_text() == host,
                Err(words) => r matches Err(e) && e is Source && e.detail() == "Invalid URL: "@
                    + words,
            },
    {
        match parse_url(s) {
            Ok((written, host)) => Ok(ParsedUrl { written, host }),
            Err(e) => Err(EsiftError::Source(text::join2("Invalid URL: ", e.as_str()))),
        }
    }

    /// The URL written out. With a host, it has the form `scheme://..`.
    pub fn as_str(&self) -> (r: &str)
        ensures
            r@ == self.text(),
            self.host_text() is Some ==> has_authority(r@),
    {
        proof {
            use_type_invariant(self);
        }
        self.written.as_str()
    }

    /// The host, in visible ASCII characters.
    pub fn host(&self) -> (r: Option<&str>)
        ensures
            match r {
                Some(h) => self.host_text() == Some(h@) && visible_host(h@),
                None => self.host_text() is None,
            },
    {
        proof {
            use_type_invariant(self);
        }
        match &self.host {
            Some(h) => Some(h.as_str()),
            None => None,
        }
    }
}

/// The JSON value that a response body holds.
pub open spec fn body_value(body: Seq<u8>) -> Option<JsonView> {
    if valid_utf8(body) {
        match json::parsed(decode_utf8(body)) {
            Ok(v) => Some(v),
            Err(_) => None,
        }
    } else {
        None
    }
}

/// Reads the body of a response as JSON.
pub fn read_json(body: Vec<u8>) -> (r: Result<Json, EsiftError>)
    ensures
        match r {
            Ok(v) => body_value(body@) == Some(v.view()),
            Err(e) => body_value(body@) is None && e is Http && e.detail()
                == "error decoding response body"@,
        },
{
    match text::text_of_bytes(body) {
        Ok(s) => match json::parse(s.as_str()) {
            Ok(v) => Ok(v),
            Err(_) => Err(EsiftError::Http("error decoding response body".to_owned())),
        },
        Err(_) => Err(EsiftError::Http("error decoding response body".to_owned())),
    }
}

/// A success is a status of the two hundreds and no other.
pub proof fn successes_are_two_hundreds(code: u16)
    ensures
        is_success(code) <==> code / 100 == 2,
{
}

/// A failure tells what failed, then the status, then the body of the response.
pub proof fn failures_tell_what_happened(what: Seq<char>, code: u16, body: Seq<char>)
    ensures
        ({
            let words = failure_text(what, code, body);
            let head = what + ": HTTP "@ + status_line(code);
            &&& words.take(head.len() as int) == head
            &&& words.skip(words.len() - body.len()) == body
            &&& words.len() == head.len() + " — "@.len() + body.len()
        }),
{
    let words = failure_text(what, code, body);
    let head = what + ": HTTP "@ + status_line(code);
    assert(words.take(head.len() as int) =~= head);
    assert(words.skip(words.len() - body.len()) =~= body);
}

/// The value of a body is what its text holds as JSON; a body that is no text, and
/// a text that is no JSON, has none.
pub proof fn bodies_hold_json(s: Seq<char>, body: Seq<u8>)
    ensures
        match json::parsed(s) {
            Ok(v) => body_value(encode_utf8(s)) == Some(v),
            Err(_) => body_value(encode_utf8(s)) is None,
        },
        !valid_utf8(body) ==> body_value(body) is None,
{
    encode_utf8_valid_utf8(s);
    encode_utf8_decode_utf8(s);
}

/// In ASCII a header value may hold everything that is visible, spaces and tabs,
/// and no other control character.
pub proof fn headers_hold_no_control_characters(s: Seq<char>, c: char)
    requires
        is_ascii_chars(s),
        is_ascii_chars(seq![c]),
    ensures
        header_text(s.push(c)) <==> header_text(s) && (' ' <= c && c <= '~' || c == '\t'),
        header_text(Seq::empty()),
{
    let t = s.push(c);
    assert(is_ascii_chars(t)) by {
        assert forall|i: int| 0 <= i < t.len() implies #[trigger] t[i] as u32 <= 127 by {
            if i < s.len() {
                assert(t[i] == s[i]);
            } else {
                assert(t[i] == seq![c][0]);
            }
        }
    }
    is_ascii_chars_encode_utf8(s);
    is_ascii_chars_nat_bound(s);
    is_ascii_chars_encode_utf8(t);
    is_ascii_chars_nat_bound(t);
    is_ascii_chars_encode_utf8(Seq::<char>::empty());
    let bytes = encode_utf8(t);
    if header_text(t) {
        assert forall|i: int| 0 <= i < encode_utf8(s).len() implies header_byte(
            #[trigger] encode_utf8(s)[i],
        ) by {
            assert(bytes[i] == t[i] as u8);
            assert(encode_utf8(s)[i] == s[i] as u8);
            assert(header_byte(bytes[i]));
        }
        assert(bytes[s.len() as int] == c as u8);
        assert(header_byte(bytes[s.len() as int]));
    }
    if header_text(s) && (' ' <= c && c <= '~' || c == '\t') {
        assert forall|i: int| 0 <= i < bytes.len() implies header_byte(#[trigger] bytes[i]) by {
            assert(bytes[i] == t[i] as u8);
            if i < s.len() {
                assert(encode_utf8(s)[i] == s[i] as u8);
                assert(header_byte(encode_utf8(s)[i]));
            }
        }
    }
}

} // verus!
