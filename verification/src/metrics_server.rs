//! The Prometheus metrics HTTP endpoint.

use crate::number;
use crate::text;
use vstd::prelude::*;
use vstd::utf8::*;

verus! {

/// The answer to every request: `body` as a minimal HTTP/1.1 200 response in
/// Prometheus text format.
pub fn response(body: &str) -> (r: String)
    ensures
        r@
            == "HTTP/1.1 200 OK\r\nContent-Type: text/plain; version=0.0.4\r\nContent-Length: "@
            + number::decimal_text(encode_utf8(body@).len() as int)
            + "\r\nConnection: close\r\n\r\n"@ + body@,
{
    let length = number::decimal(body.as_bytes().len() as u64);
    text::join4(
        "HTTP/1.1 200 OK\r\nContent-Type: text/plain; version=0.0.4\r\nContent-Length: ",
        length.as_str(),
        "\r\nConnection: close\r\n\r\n",
        body,
    )
}

/// A response ends with its body, behind an empty line, and its `Content-Length` is
/// the number of bytes of the body.
pub proof fn responses_end_with_the_body(body: &str, r: String)
    requires
        call_ensures(response, (body,), r),
    ensures
        ({
            let head =
                "HTTP/1.1 200 OK\r\nContent-Type: text/plain; version=0.0.4\r\nContent-Length: "@;
            let digits = number::decimal_text(encode_utf8(body@).len() as int);
            let line = "\r\nConnection: close\r\n\r\n"@;
            &&& r@.len() == head.len() + digits.len() + line.len() + body@.len()
            &&& r@.take(head.len() as int) == head
            &&& number::unsigned_number(
                r@.subrange(head.len() as int, (head.len() + digits.len()) as int),
            ) == Some(encode_utf8(body@).len() as int)
            &&& r@.skip(r@.len() - body@.len()) == body@
            &&& r@.skip(r@.len() - body@.len() - line.len()) == line + body@
        }),
{
    let head = "HTTP/1.1 200 OK\r\nContent-Type: text/plain; version=0.0.4\r\nContent-Length: "@;
    let n = encode_utf8(body@).len() as int;
    let digits = number::decimal_text(n);
    let line = "\r\nConnection: close\r\n\r\n"@;
    assert(r@.take(head.len() as int) =~= head);
    assert(r@.subrange(head.len() as int, (head.len() + digits.len()) as int) =~= digits);
    assert(r@.skip(r@.len() - body@.len()) =~= body@);
    assert(r@.skip(r@.len() - body@.len() - line.len()) =~= line + body@);
    number::integers_read_back(n);
    assert(number::integer_text(n) == digits);
}

} // verus!
