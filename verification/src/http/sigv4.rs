//! Signing requests with AWS Signature Version 4.

use crate::error::EsiftError;
use crate::http::ParsedUrl;
use crate::text;
use aws_credential_types::Credentials;
use aws_sigv4::http_request::{sign, SignableBody, SignableRequest, SigningSettings};
use aws_sigv4::sign::v4::SigningParams;
use aws_smithy_runtime_api::client::identity::Identity;
use std::time::{Duration, UNIX_EPOCH};
use vstd::prelude::*;
use vstd::utf8::*;

verus! {

/// A header: its name and the bytes of its value.
pub type HeaderView = (Seq<char>, Seq<u8>);

/// The name by which signatures know Amazon OpenSearch Service.
pub open spec fn service_name() -> Seq<char> {
    "es"@
}

/// AWS credentials.
pub struct AwsCredentials {
    pub access_key_id: String,
    pub secret_access_key: String,
    pub session_token: Option<String>,
}

/// The body of a request.
pub enum RequestBody {
    Empty,
    Bytes(Vec<u8>),
    /// A body that is produced as it is sent.
    Streaming,
}

/// The request to be signed.
pub struct Unsigned {
    pub method: String,
    pub url: ParsedUrl,
    pub headers: Vec<(String, Vec<u8>)>,
    pub body: RequestBody,
}

/// The views of a list of headers.
pub open spec fn headers_view(hs: Seq<(String, Vec<u8>)>) -> Seq<HeaderView> {
    hs.map_values(|h: (String, Vec<u8>)| (h.0@, h.1@))
}

/// The views of a list of headers whose values are texts.
pub open spec fn pairs_view(hs: Seq<(String, String)>) -> Seq<(Seq<char>, Seq<char>)> {
    hs.map_values(|h: (String, String)| (h.0@, h.1@))
}

/// Whether a header is the host, in whatever case its name is written.
pub open spec fn is_host(h: HeaderView) -> bool {
    text::ascii_lower_text(h.0) == "host"@
}

/// The headers that are signed: the URL's host first, then the request's own but
/// for its host.
pub open spec fn with_host(host: Seq<char>, hs: Seq<HeaderView>) -> Seq<HeaderView> {
    seq![("host"@, encode_utf8(host))] + hs.filter(|h: HeaderView| !is_host(h))
}

/// Whether a byte is a visible ASCII character, a space or a tab.
pub open spec fn is_visible(b: u8) -> bool {
    (32 <= b && b < 127) || b == 9
}

/// Whether a header value is text.
pub open spec fn is_text(v: Seq<u8>) -> bool {
    forall|i: int| 0 <= i < v.len() ==> is_visible(#[trigger] v[i])
}

/// The characters of a header value that is text.
pub open spec fn value_text(v: Seq<u8>) -> Seq<char> {
    v.map_values(|b: u8| b as char)
}

/// The headers whose values are text, as texts.
pub open spec fn text_headers(hs: Seq<HeaderView>) -> Seq<(Seq<char>, Seq<char>)>
    decreases hs.len(),
{
    if hs.len() == 0 {
        Seq::empty()
    } else {
        let head = text_headers(hs.drop_last());
        if is_text(hs.last().1) {
            head.push((hs.last().0, value_text(hs.last().1)))
        } else {
            head
        }
    }
}

/// The bytes of a request's body.
pub open spec fn body_bytes(b: RequestBody) -> Seq<u8> {
    match b {
        RequestBody::Bytes(v) => v@,
        _ => Seq::empty(),
    }
}

/// Where the query of a URL begins: at the first question mark, or at the end.
pub open spec fn query_start(url: Seq<u8>) -> int
    decreases url.len(),
{
    if url.len() == 0 || url[0] == 63 {
        0
    } else {
        1 + query_start(url.drop_first())
    }
}

/// The most bytes that a URL may have when its query is decoded and encoded anew:
/// three for each byte from the question mark on.
pub open spec fn encoded_at_most(url: Seq<u8>) -> int {
    query_start(url) + 3 * (url.len() - query_start(url))
}

/// Whether a URL can be handed to the signer: it is longer than any URI that the
/// signer reads, and so refused, or remains one however its query is encoded.
pub open spec fn fits(url: Seq<u8>) -> bool {
    url.len() > 65_534 || encoded_at_most(url) <= 65_534
}

/// Whether a request can be handed to the signer at a second: a calendar of
/// four-digit years holds the second, and a header map and a URI have room for
/// what the signer makes of the headers and of the URL.
pub open spec fn signable(secs: u64, request: Unsigned) -> bool {
    &&& secs <= 253_402_300_799
    &&& request.headers@.len() < 6_552
    &&& fits(encode_utf8(request.url.text()))
}

/// The headers that `aws_sigv4` adds to sign a request, or the text of its
/// error.
pub uninterp spec fn signature(
    access_key: Seq<char>,
    secret_key: Seq<char>,
    token: Option<Seq<char>>,
    region: Seq<char>,
    service: Seq<char>,
    secs: u64,
    method: Seq<char>,
    url: Seq<char>,
    headers: Seq<(Seq<char>, Seq<char>)>,
    body: Seq<u8>,
) -> Result<Seq<(Seq<char>, Seq<char>)>, Seq<char>>;

/// Calls `aws_sigv4::http_request::sign` with the default settings, under which
/// the signature goes into headers, and gives those headers. They depend on the
/// credentials, the scope, the second and the request alone and are named
/// `signature`. The signer needs a host among the headers and a second that a
/// calendar of four-digit years holds. It copies the headers into an
/// `http::HeaderMap` and adds two of its own. Such a map of 2^15 slots, the most
/// that it has, is sure to take another header as long as it holds fewer than a
/// fifth as many; beyond that it may give up, depending on how the names hash.
/// The URL is read as an `http::Uri`, of which only one that begins with a scheme
/// has the path that the signer counts on. Its query is decoded and encoded anew,
/// by which a byte becomes three at most, and the signer counts on the outcome
/// being no longer than the 65,534 bytes of a URI. A longer URL is refused as it is
/// read.
#[verifier::external_body]
fn sign_headers(
    credentials: &AwsCredentials,
    region: &str,
    service: &str,
    secs: u64,
    method: &str,
    url: &str,
    headers: Vec<(&str, &str)>,
    body: &[u8],
) -> (r: Result<Vec<(String, String)>, String>)
    requires
        secs <= 253_402_300_799,
        0 < headers@.len() <= 6_552,
        headers@[0].0@ == "host"@,
        super::has_authority(url@),
        fits(encode_utf8(url@)),
    ensures
        match r {
            Ok(hs) => signature(
                credentials.access_key_id@,
                credentials.secret_access_key@,
                text::opt_text(credentials.session_token),
                region@,
                service@,
                secs,
                method@,
                url@,
                headers@.map_values(|h: (&str, &str)| (h.0@, h.1@)),
                body@,
            ) == Ok::<Seq<(Seq<char>, Seq<char>)>, Seq<char>>(pairs_view(hs@)),
            Err(e) => signature(
                credentials.access_key_id@,
                credentials.secret_access_key@,
                text::opt_text(credentials.session_token),
                region@,
                service@,
                secs,
                method@,
                url@,
                headers@.map_values(|h: (&str, &str)| (h.0@, h.1@)),
                body@,
            ) == Err::<Seq<(Seq<char>, Seq<char>)>, Seq<char>>(e@),
        },
{
    let c = credentials;
    let keys = Credentials::new(&c.access_key_id, &c.secret_access_key, c.session_token.clone(), None, "esift");
    let identity = Identity::new(keys, None);
    let params = SigningParams::builder().identity(&identity).region(region).name(service)
        .time(UNIX_EPOCH + Duration::from_secs(secs)).settings(SigningSettings::default())
        .build().unwrap().into();
    let signed = SignableRequest::new(method, url, headers.into_iter(), SignableBody::Bytes(body))
        .and_then(|r| sign(r, &params)).map_err(|e| e.to_string())?;
    Ok(signed.output().headers().map(|h| (h.0.into(), h.1.into())).collect())
}

/// The text of the error of building an `http::Request`, where there is one.
pub uninterp spec fn request_error(
    method: Seq<char>,
    url: Seq<char>,
    headers: Seq<HeaderView>,
) -> Option<Seq<char>>;

/// Builds an `http::Request` from its parts and gives the text of the error, if
/// any. It depends on the parts alone and is named `request_error`.
#[verifier::external_body]
fn build_error(method: &str, url: &str, headers: &Vec<(String, Vec<u8>)>) -> (r: Option<String>)
    ensures
        text::opt_text(r) == request_error(method@, url@, headers_view(headers@)),
{
    let start = http::Request::builder().method(method).uri(url);
    let built = headers.iter().fold(start, |b, h| b.header(h.0.as_str(), h.1.as_slice()));
    built.body(()).err().map(|e| e.to_string())
}

/// The headers of a signed request: those that were signed, then those that the
/// signature adds. Set one after the other, a later one replaces an earlier one
/// of its name.
pub open spec fn applied(
    headers: Seq<HeaderView>,
    added: Seq<(Seq<char>, Seq<char>)>,
) -> Seq<HeaderView> {
    headers + added.map_values(|h: (Seq<char>, Seq<char>)| (h.0, encode_utf8(h.1)))
}

/// The headers to set on a request so that it is signed, or why it cannot be.
pub open spec fn signed_headers(
    credentials: AwsCredentials,
    region: Seq<char>,
    secs: u64,
    request: Unsigned,
) -> Result<Seq<HeaderView>, Seq<char>> {
    match request.url.host_text() {
        None => Err("Request URL is missing a host name"@),
        Some(host) => {
            let headers = with_host(host, headers_view(request.headers@));
            if request.body is Streaming {
                Err("Streaming request body is not supported for AWS SigV4 signing"@)
            } else {
                match request_error(request.method@, request.url.text(), headers) {
                    Some(e) => Err("Failed to build temporary http request: "@ + e),
                    None => match signature(
                        credentials.access_key_id@,
                        credentials.secret_access_key@,
                        text::opt_text(credentials.session_token),
                        region,
                        service_name(),
                        secs,
                        request.method@,
                        request.url.text(),
                        text_headers(headers),
                        body_bytes(request.body),
                    ) {
                        Ok(added) => Ok(applied(headers, added)),
                        Err(e) => Err("Failed to sign request: "@ + e),
                    },
                }
            }
        },
    }
}

/// The bytes of a text.
fn bytes_of(s: &str) -> (r: Vec<u8>)
    ensures
        r@ == encode_utf8(s@),
{
    let b = s.as_bytes();
    let n: usize = b.len();
    let mut out: Vec<u8> = Vec::new();
    let mut i: usize = 0;
    while i < n
        invariant
            n == b@.len(),
            i <= n,
            out@ == b@.take(i as int),
        decreases n - i,
    {
        out.push(b[i]);
        i = i + 1;
        assert(b@.take(i as int) =~= b@.take(i - 1).push(b@[i - 1]));
    }
    assert(b@.take(n as int) =~= b@);
    out
}

/// The same bytes once more.
fn clone_bytes(v: &Vec<u8>) -> (r: Vec<u8>)
    ensures
        r@ == v@,
{
    let n: usize = v.len();
    let mut out: Vec<u8> = Vec::new();
    let mut i: usize = 0;
    while i < n
        invariant
            n == v@.len(),
            i <= n,
            out@ == v@.take(i as int),
        decreases n - i,
    {
        out.push(v[i]);
        i = i + 1;
        assert(v@.take(i as int) =~= v@.take(i - 1).push(v@[i - 1]));
    }
    assert(v@.take(n as int) =~= v@);
    out
}

/// The text of a header value, where it is text.
fn text_of(v: &Vec<u8>) -> (r: Option<String>)
    ensures
        match r {
            Some(s) => is_text(v@) && s@ == value_text(v@),
            None => !is_text(v@),
        },
{
    let n: usize = v.len();
    let mut out = String::new();
    let mut i: usize = 0;
    assert(out@ =~= value_text(v@.take(0)));
    while i < n
        invariant
            n == v@.len(),
            i <= n,
            forall|k: int| 0 <= k < i ==> is_visible(#[trigger] v@[k]),
            out@ == value_text(v@.take(i as int)),
        decreases n - i,
    {
        let b: u8 = v[i];
        if !((32 <= b && b < 127) || b == 9) {
            assert(!is_visible(v@[i as int]));
            return None;
        }
        out.push(b as char);
        i = i + 1;
        assert(value_text(v@.take(i as int)) =~= value_text(v@.take(i - 1)).push(
            v@[i - 1] as char,
        ));
    }
    assert(v@.take(n as int) =~= v@);
    Some(out)
}

/// The headers that are signed.
pub fn headers_with_host(host: &str, headers: &Vec<(String, Vec<u8>)>) -> (r: Vec<
    (String, Vec<u8>),
>)
    ensures
        headers_view(r@) == with_host(host@, headers_view(headers@)),
{
    let ghost keep = |h: HeaderView| !is_host(h);
    let ghost all = headers_view(headers@);
    let mut out: Vec<(String, Vec<u8>)> = Vec::new();
    out.push(("host".to_owned(), bytes_of(host)));
    let n: usize = headers.len();
    let mut i: usize = 0;
    proof {
        reveal(Seq::filter);
        assert(headers_view(out@) =~= seq![("host"@, encode_utf8(host@))] + all.take(0).filter(
            keep,
        ));
    }
    while i < n
        invariant
            n == headers@.len(),
            i <= n,
            keep == (|h: HeaderView| !is_host(h)),
            all == headers_view(headers@),
            headers_view(out@) == seq![("host"@, encode_utf8(host@))] + all.take(i as int).filter(
                keep,
            ),
        decreases n - i,
    {
        let ghost before = headers_view(out@);
        let name = text::chars_of(headers[i].0.as_str());
        let low = text::string_of(&text::ascii_lowercase(&name));
        proof {
            reveal(Seq::filter);
            assert(all.take(i + 1).drop_last() =~= all.take(i as int));
            assert(all.take(i + 1).last() == all[i as int]);
        }
        if !text::same_text(low.as_str(), "host") {
            let h = (headers[i].0.clone(), clone_bytes(&headers[i].1));
            out.push(h);
            assert(headers_view(out@) =~= before.push(all[i as int]));
            assert(seq![("host"@, encode_utf8(host@))] + all.take(i as int).filter(keep).push(
                all[i as int],
            ) =~= before.push(all[i as int]));
        }
        i = i + 1;
    }
    assert(all.take(n as int) =~= all);
    out
}

/// The headers whose values are text.
pub fn signable_headers(headers: &Vec<(String, Vec<u8>)>) -> (r: Vec<(String, String)>)
    ensures
        pairs_view(r@) == text_headers(headers_view(headers@)),
{
    let ghost all = headers_view(headers@);
    let n: usize = headers.len();
    let mut out: Vec<(String, String)> = Vec::new();
    let mut i: usize = 0;
    assert(pairs_view(out@) =~= text_headers(all.take(0)));
    while i < n
        invariant
            n == headers@.len(),
            i <= n,
            all == headers_view(headers@),
            pairs_view(out@) == text_headers(all.take(i as int)),
        decreases n - i,
    {
        let ghost before = pairs_view(out@);
        proof {
            assert(all.take(i + 1).drop_last() =~= all.take(i as int));
            assert(all.take(i + 1).last() == all[i as int]);
        }
        if let Some(v) = text_of(&headers[i].1) {
            let h = (headers[i].0.clone(), v);
            out.push(h);
            assert(pairs_view(out@) =~= before.push((h.0@, h.1@)));
        }
        i = i + 1;
    }
    assert(all.take(n as int) =~= all);
    out
}

/// Adds the headers of a signature to those that were signed.
pub fn apply_signature(headers: Vec<(String, Vec<u8>)>, added: &Vec<(String, String)>) -> (r: Vec<
    (String, Vec<u8>),
>)
    ensures
        headers_view(r@) == applied(headers_view(headers@), pairs_view(added@)),
{
    let ghost start = headers_view(headers@);
    let ghost more = pairs_view(added@).map_values(
        |h: (Seq<char>, Seq<char>)| (h.0, encode_utf8(h.1)),
    );
    let mut out = headers;
    let n: usize = added.len();
    let mut i: usize = 0;
    assert(start + more.take(0) =~= start);
    while i < n
        invariant
            n == added@.len(),
            i <= n,
            more == pairs_view(added@).map_values(
                |h: (Seq<char>, Seq<char>)| (h.0, encode_utf8(h.1)),
            ),
            headers_view(out@) == start + more.take(i as int),
        decreases n - i,
    {
        let ghost before = headers_view(out@);
        let h = (added[i].0.clone(), bytes_of(added[i].1.as_str()));
        out.push(h);
        i = i + 1;
        assert(headers_view(out@) =~= before.push((h.0@, h.1@)));
        assert(start + more.take(i as int) =~= (start + more.take(i - 1)).push(more[i - 1]));
    }
    assert(more.take(n as int) =~= more);
    out
}

/// Borrows the pairs of a list.
fn borrow_pairs<'a>(hs: &'a Vec<(String, String)>) -> (r: Vec<(&'a str, &'a str)>)
    ensures
        r@.map_values(|h: (&str, &str)| (h.0@, h.1@)) == pairs_view(hs@),
{
    let n: usize = hs.len();
    let mut out: Vec<(&'a str, &'a str)> = Vec::new();
    let mut i: usize = 0;
    while i < n
        invariant
            n == hs@.len(),
            i <= n,
            out@.len() == i,
            forall|k: int|
                0 <= k < i ==> (#[trigger] out@[k]).0@ == hs@[k].0@ && out@[k].1@ == hs@[k].1@,
        decreases n - i,
    {
        out.push((hs[i].0.as_str(), hs[i].1.as_str()));
        i = i + 1;
    }
    assert(out@.map_values(|h: (&str, &str)| (h.0@, h.1@)) =~= pairs_view(hs@));
    out
}

proof fn host_is_first(host: Seq<char>, hs: Seq<HeaderView>)
    requires
        super::visible_host(host),
    ensures
        text_headers(with_host(host, hs)).len() >= 1,
        text_headers(with_host(host, hs))[0].0 == "host"@,
        text_headers(with_host(host, hs)).len() <= hs.len() + 1,
{
    assert(is_text(encode_utf8(host))) by {
        assert(is_ascii_chars(host));
        is_ascii_chars_encode_utf8(host);
        is_ascii_chars_nat_bound(host);
        assert forall|i: int| 0 <= i < encode_utf8(host).len() implies is_visible(
            #[trigger] encode_utf8(host)[i],
        ) by {
            assert(encode_utf8(host)[i] == host[i] as u8);
        }
    }
    first_stays(with_host(host, hs));
    no_more_texts(with_host(host, hs));
    hs.lemma_filter_len(|h: HeaderView| !is_host(h));
}

proof fn no_more_texts(hs: Seq<HeaderView>)
    ensures
        text_headers(hs).len() <= hs.len(),
    decreases hs.len(),
{
    if hs.len() > 0 {
        no_more_texts(hs.drop_last());
    }
}

proof fn first_stays(hs: Seq<HeaderView>)
    requires
        hs.len() > 0,
        is_text(hs[0].1),
    ensures
        text_headers(hs).len() >= 1,
        text_headers(hs)[0].0 == hs[0].0,
    decreases hs.len(),
{
    if hs.len() > 1 {
        first_stays(hs.drop_last());
    } else {
        assert(text_headers(hs.drop_last()) =~= Seq::empty());
    }
}

/// Where the query of a URL begins.
fn find_query(url: &Vec<u8>) -> (r: usize)
    ensures
        r == query_start(url@),
        r <= url@.len(),
{
    let n: usize = url.len();
    let mut i: usize = 0;
    assert(url@.skip(0) =~= url@);
    while i < n && url[i] != 63
        invariant
            n == url@.len(),
            i <= n,
            query_start(url@) == i + query_start(url@.skip(i as int)),
        decreases n - i,
    {
        assert(url@.skip(i as int).drop_first() =~= url@.skip(i + 1));
        i = i + 1;
    }
    i
}

/// Whether a request can be handed to the signer at a second.
pub fn can_sign(secs: u64, request: &Unsigned) -> (r: bool)
    ensures
        r == signable(secs, *request),
{
    let url = bytes_of(request.url.as_str());
    let n: usize = url.len();
    let start = find_query(&url);
    let room: bool = n > 65_534 || start + 3 * (n - start) <= 65_534;
    secs <= 253_402_300_799 && request.headers.len() < 6_552 && room
}

/// Works out the headers to set on a request so that it carries an AWS signature
/// for Amazon OpenSearch Service, made with the given credentials at the given
/// second since the Unix epoch. [`can_sign`] says whether the request can be
/// handed to the signer.
pub fn sign_request_aws(
    credentials: &AwsCredentials,
    region: &str,
    secs: u64,
    request: &Unsigned,
) -> (r: Result<Vec<(String, Vec<u8>)>, EsiftError>)
    requires
        signable(secs, *request),
    ensures
        match r {
            Ok(hs) => signed_headers(*credentials, region@, secs, *request) == Ok::<
                Seq<HeaderView>,
                Seq<char>,
            >(headers_view(hs@)),
            Err(e) => e is Source && signed_headers(*credentials, region@, secs, *request) == Err::<
                Seq<HeaderView>,
                Seq<char>,
            >(e.detail()),
        },
{
    let url = request.url.as_str();
    let host: &str = match request.url.host() {
        Some(h) => h,
        None => {
            return Err(EsiftError::Source("Request URL is missing a host name".to_owned()));
        },
    };
    let headers = headers_with_host(host, &request.headers);
    let empty: Vec<u8> = Vec::new();
    let body: &Vec<u8> = match &request.body {
        RequestBody::Bytes(v) => v,
        RequestBody::Empty => &empty,
        RequestBody::Streaming => {
            return Err(
                EsiftError::Source(
                    "Streaming request body is not supported for AWS SigV4 signing".to_owned(),
                ),
            );
        },
    };
    assert(body@ =~= body_bytes(request.body));
    if let Some(e) = build_error(request.method.as_str(), url, &headers) {
        return Err(
            EsiftError::Source(text::join2("Failed to build temporary http request: ", e.as_str())),
        );
    }
    let texts = signable_headers(&headers);
    let pairs = borrow_pairs(&texts);
    proof {
        host_is_first(host@, headers_view(request.headers@));
        assert(pairs@.map_values(|h: (&str, &str)| (h.0@, h.1@))[0].0 == pairs@[0].0@);
    }
    match sign_headers(
        credentials,
        region,
        "es",
        secs,
        request.method.as_str(),
        url,
        pairs,
        body.as_slice(),
    ) {
        Ok(added) => Ok(apply_signature(headers, &added)),
        Err(e) => Err(EsiftError::Source(text::join2("Failed to sign request: ", e.as_str()))),
    }
}

// ---------------------------------------------------------------------------
// Laws
// ---------------------------------------------------------------------------

/// Exactly one host is signed: the URL's.
pub proof fn one_host_is_signed(host: Seq<char>, hs: Seq<HeaderView>, i: int)
    requires
        0 < i < with_host(host, hs).len(),
    ensures
        with_host(host, hs)[0] == ("host"@, encode_utf8(host)),
        !is_host(with_host(host, hs)[i]),
{
    let keep = |h: HeaderView| !is_host(h);
    hs.lemma_filter_pred(keep, i - 1);
    assert(with_host(host, hs)[i] == hs.filter(keep)[i - 1]);
}

/// A header is the host exactly if its name is `host` but for the case of its
/// letters.
pub proof fn hosts_are_named_in_any_case(name: Seq<char>, value: Seq<u8>)
    ensures
        is_host((name, value)) <==> name.len() == 4 && (name[0] == 'h' || name[0] == 'H') && (name[1]
            == 'o' || name[1] == 'O') && (name[2] == 's' || name[2] == 'S') && (name[3] == 't'
            || name[3] == 'T'),
{
    reveal_strlit("host");
    let low = text::ascii_lower_text(name);
    assert("host"@.len() == 4 && "host"@[0] == 'h' && "host"@[1] == 'o' && "host"@[2] == 's'
        && "host"@[3] == 't');
    if name.len() == 4 {
        text::lowering_is_by_letter(name, 0);
        text::lowering_is_by_letter(name, 1);
        text::lowering_is_by_letter(name, 2);
        text::lowering_is_by_letter(name, 3);
        if low[0] == 'h' && low[1] == 'o' && low[2] == 's' && low[3] == 't' {
            assert(low =~= "host"@);
        }
    }
}

/// The headers that are signed are the host and then those of the request, in
/// order and as they are, but for any host among them.
pub proof fn other_headers_are_kept(host: Seq<char>, hs: Seq<HeaderView>, h: HeaderView)
    ensures
        with_host(host, Seq::empty()) == seq![("host"@, encode_utf8(host))],
        is_host(h) ==> with_host(host, hs.push(h)) == with_host(host, hs),
        !is_host(h) ==> with_host(host, hs.push(h)) == with_host(host, hs).push(h),
{
    reveal(Seq::filter);
    let keep = |h: HeaderView| !is_host(h);
    assert(hs.push(h).drop_last() =~= hs);
    assert(hs.push(h).last() == h);
    assert(with_host(host, Seq::empty()) =~= seq![("host"@, encode_utf8(host))]);
    if !is_host(h) {
        assert(hs.push(h).filter(keep) == hs.filter(keep).push(h));
        assert(with_host(host, hs.push(h)) =~= with_host(host, hs).push(h));
    }
}

/// Of two lists of headers the texts are those of the first and then those of the
/// second. A header whose value is visible ASCII, spaces and tabs comes with that
/// text.
pub proof fn texts_are_kept_in_order(
    a: Seq<HeaderView>,
    b: Seq<HeaderView>,
    name: Seq<char>,
    value: Seq<char>,
)
    requires
        is_ascii_chars(value),
    ensures
        text_headers(a + b) == text_headers(a) + text_headers(b),
        (forall|i: int|
            0 <= i < value.len() ==> (' ' <= #[trigger] value[i] && value[i] <= '~') || value[i]
                == '\t') ==> text_headers(seq![(name, encode_utf8(value))]) == seq![(name, value)],
    decreases b.len(),
{
    let bytes = encode_utf8(value);
    let one = seq![(name, bytes)];
    assert(one.drop_last() =~= Seq::<HeaderView>::empty());
    assert(text_headers(one.drop_last()).len() == 0);
    if forall|i: int|
        0 <= i < value.len() ==> (' ' <= #[trigger] value[i] && value[i] <= '~') || value[i]
            == '\t' {
        is_ascii_chars_encode_utf8(value);
        is_ascii_chars_nat_bound(value);
        assert forall|i: int| 0 <= i < bytes.len() implies is_visible(#[trigger] bytes[i]) by {
            assert(bytes[i] == value[i] as u8);
        }
        assert forall|i: int| 0 <= i < bytes.len() implies #[trigger] value_text(bytes)[i]
            == value[i] by {
            assert(bytes[i] == value[i] as u8);
        }
        assert(value_text(bytes) =~= value);
        assert(text_headers(one) =~= seq![(name, value)]);
    }
    if b.len() == 0 {
        assert(a + b =~= a);
        assert(text_headers(a) + text_headers(b) =~= text_headers(a));
    } else {
        texts_are_kept_in_order(a, b.drop_last(), name, value);
        assert((a + b).drop_last() =~= a + b.drop_last());
        assert(text_headers(a + b) =~= text_headers(a) + text_headers(b));
    }
}

/// A header whose value holds a control character other than a tab, or a byte
/// beyond ASCII, is not handed to the signer.
pub proof fn other_values_are_left_out(name: Seq<char>, value: Seq<u8>, i: int)
    requires
        0 <= i < value.len(),
        (value[i] < 32 && value[i] != 9) || value[i] >= 127,
    ensures
        text_headers(seq![(name, value)]).len() == 0,
{
    let one = seq![(name, value)];
    assert(one.drop_last() =~= Seq::<HeaderView>::empty());
    assert(text_headers(one.drop_last()).len() == 0);
    assert(!is_visible(value[i]));
}

/// A signed request has the headers that were signed, as they were, and then those
/// of the signature, in order.
pub proof fn signatures_are_added(
    headers: Seq<HeaderView>,
    added: Seq<(Seq<char>, Seq<char>)>,
    i: int,
)
    ensures
        applied(headers, added).len() == headers.len() + added.len(),
        0 <= i < headers.len() ==> applied(headers, added)[i] == headers[i],
        0 <= i < added.len() ==> applied(headers, added)[headers.len() + i].0 == added[i].0,
        0 <= i < added.len() ==> applied(headers, added)[headers.len() + i].1 == encode_utf8(
            added[i].1,
        ),
{
}

/// A query begins at the first question mark of a URL: none stands in front of it.
/// A URL without one has no query.
pub proof fn queries_begin_at_the_mark(front: Seq<u8>, rest: Seq<u8>)
    requires
        forall|i: int| 0 <= i < front.len() ==> #[trigger] front[i] != '?' as u8,
        rest.len() > 0 ==> rest[0] == '?' as u8,
    ensures
        query_start(front + rest) == front.len(),
        encoded_at_most(front + rest) == front.len() + 3 * rest.len(),
    decreases front.len(),
{
    let url = front + rest;
    if front.len() > 0 {
        let fewer = front.drop_first();
        assert(url.drop_first() =~= fewer + rest);
        assert forall|i: int| 0 <= i < fewer.len() implies #[trigger] fewer[i] != '?' as u8 by {
            assert(fewer[i] == front[i + 1]);
        }
        assert(url[0] == front[0]);
        queries_begin_at_the_mark(fewer, rest);
    } else if rest.len() > 0 {
        assert(url[0] == rest[0]);
    }
}

/// A URL fits if it is no longer than a URI may be with every byte of its query
/// encoded anew, or if it is too long to be read at all.
pub proof fn urls_fit_or_are_refused(front: Seq<u8>, rest: Seq<u8>)
    requires
        forall|i: int| 0 <= i < front.len() ==> #[trigger] front[i] != '?' as u8,
        rest.len() > 0 ==> rest[0] == '?' as u8,
    ensures
        fits(front + rest) <==> front.len() + 3 * rest.len() <= 65_534 || front.len() + rest.len()
            > 65_534,
{
    queries_begin_at_the_mark(front, rest);
}

/// What is signed is the whole request: the signature is made with the credentials,
/// for the region and the service, at the second, over the method, the URL, the
/// host and the other headers, and the body.
pub proof fn signatures_cover_the_request(
    credentials: AwsCredentials,
    region: Seq<char>,
    secs: u64,
    request: Unsigned,
    host: Seq<char>,
)
    requires
        request.url.host_text() == Some(host),
        !(request.body is Streaming),
    ensures
        ({
            let headers = with_host(host, headers_view(request.headers@));
            let body = match request.body {
                RequestBody::Bytes(v) => v@,
                _ => Seq::empty(),
            };
            let outcome = signed_headers(credentials, region, secs, request);
            match request_error(request.method@, request.url.text(), headers) {
                Some(e) => outcome == Err::<Seq<HeaderView>, Seq<char>>(
                    "Failed to build temporary http request: "@ + e,
                ),
                None => match signature(
                    credentials.access_key_id@,
                    credentials.secret_access_key@,
                    text::opt_text(credentials.session_token),
                    region,
                    "es"@,
                    secs,
                    request.method@,
                    request.url.text(),
                    text_headers(headers),
                    body,
                ) {
                    Ok(added) => outcome == Ok::<Seq<HeaderView>, Seq<char>>(
                        applied(headers, added),
                    ),
                    Err(e) => outcome == Err::<Seq<HeaderView>, Seq<char>>(
                        "Failed to sign request: "@ + e,
                    ),
                },
            }
        }),
{
}

/// A request without a host, or with a body that is still to be produced, is not
/// signed.
pub proof fn some_requests_cannot_be_signed(
    credentials: AwsCredentials,
    region: Seq<char>,
    secs: u64,
    request: Unsigned,
)
    ensures
        request.url.host_text() is None ==> signed_headers(credentials, region, secs, request)
            == Err::<Seq<HeaderView>, Seq<char>>("Request URL is missing a host name"@),
        request.url.host_text() is Some && request.body is Streaming ==> signed_headers(
            credentials,
            region,
            secs,
            request,
        ) == Err::<Seq<HeaderView>, Seq<char>>(
            "Streaming request body is not supported for AWS SigV4 signing"@,
        ),
{
}

/// The views of headers are those of each one, in order.
pub proof fn views_show_every_header(
    hs: Seq<(String, Vec<u8>)>,
    pairs: Seq<(String, String)>,
    i: int,
)
    ensures
        headers_view(hs).len() == hs.len(),
        pairs_view(pairs).len() == pairs.len(),
        0 <= i < hs.len() ==> headers_view(hs)[i] == (hs[i].0@, hs[i].1@),
        0 <= i < pairs.len() ==> pairs_view(pairs)[i] == (pairs[i].0@, pairs[i].1@),
{
}

} // verus!
