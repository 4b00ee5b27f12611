//! A response as bytes on the connection.
//!
//! The head is the status line, one line for each header and an empty
//! line, each ended by CR LF. A response without a `Content-Length` header
//! gets one that says how long its body is.

use vstd::prelude::*;
use vstd::utf8::encode_utf8;
use crate::message::{
    HeaderView, Response, ResponseView, find_header, header_from, header_views,
};
use crate::response::{decimal, decimal_digits, length_name};

verus! {

/// The end of a line: CR LF.
pub open spec fn line_end() -> Seq<u8> {
    seq![13u8, 10u8]
}

/// What every status line begins with: `HTTP/1.1` and a space.
pub open spec fn version_bytes() -> Seq<u8> {
    seq![72u8, 84u8, 84u8, 80u8, 47u8, 49u8, 46u8, 49u8, 32u8]
}

/// The bytes of a phrase that may be missing.
pub open spec fn phrase_bytes(reason: Option<Seq<char>>) -> Seq<u8> {
    match reason {
        Some(phrase) => encode_utf8(phrase),
        None => Seq::empty(),
    }
}

/// The status line: `HTTP/1.1`, the status in decimal digits, and the
/// reason phrase, with a space after each of the first two.
pub open spec fn status_line(status: u16, reason: Option<Seq<char>>) -> Seq<u8> {
    version_bytes() + decimal(status as nat) + seq![32u8] + phrase_bytes(reason) + line_end()
}

/// The line of one header: the name, a colon and a space, the value.
pub open spec fn header_line(header: HeaderView) -> Seq<u8> {
    encode_utf8(header.name) + seq![58u8, 32u8] + header.value + line_end()
}

/// The lines of `headers`, in order.
pub open spec fn header_lines(headers: Seq<HeaderView>) -> Seq<u8>
    decreases headers.len(),
{
    if headers.len() == 0 {
        Seq::empty()
    } else {
        header_lines(headers.drop_last()) + header_line(headers.last())
    }
}

/// Whether a header among `headers` says how long the body is.
pub open spec fn has_length(headers: Seq<HeaderView>) -> bool {
    header_from(headers, length_name(), 0) < headers.len()
}

/// The line that says how long the body is, where no header does.
pub open spec fn length_line(response: ResponseView) -> Seq<u8> {
    if has_length(response.headers) {
        Seq::empty()
    } else {
        header_line(HeaderView { name: length_name(), value: decimal(response.body.len()) })
    }
}

/// The head of `response` as bytes, with the reason phrase `reason`.
pub open spec fn head_bytes(response: ResponseView, reason: Option<Seq<char>>) -> Seq<u8> {
    status_line(response.status, reason) + header_lines(response.headers) + length_line(response)
        + line_end()
}

/// The reason phrase that the `http` crate has for `status`, or `None`
/// where it has none.
pub uninterp spec fn canonical_reason(status: u16) -> Option<Seq<char>>;

/// Asks `http::StatusCode` for the standard reason phrase of `status`, with
/// `from_u16` and `canonical_reason`. A number that is no status code has
/// no phrase.
#[verifier::external_body]
fn reason_of(status: u16) -> (reason: Option<&'static str>)
    ensures
        match reason {
            Some(phrase) => canonical_reason(status) == Some(phrase@),
            None => canonical_reason(status) is None,
        },
{
    http::StatusCode::from_u16(status).ok().and_then(|code| code.canonical_reason())
}

/// Appends `bytes` to `out`.
fn append(out: &mut Vec<u8>, bytes: &Vec<u8>)
    ensures
        final(out)@ == old(out)@ + bytes@,
{
    let ghost before = out@;
    let mut i: usize = 0;
    while i < bytes.len()
        invariant
            i <= bytes@.len(),
            out@ == before + bytes@.take(i as int),
        decreases bytes@.len() - i,
    {
        out.push(bytes[i]);
        i += 1;
    }
}

/// Appends the line of the header `name: value` to `out`.
fn append_header(out: &mut Vec<u8>, name: &str, value: &Vec<u8>)
    ensures
        final(out)@ == old(out)@ + header_line(HeaderView { name: name@, value: value@ }),
{
    append(out, &name.as_bytes_vec());
    out.push(58);
    out.push(32);
    append(out, value);
    out.push(13);
    out.push(10);
}

/// The head of `response` as bytes, with the reason phrase `reason` in
/// the status line.
pub fn encode_head(response: &Response, reason: Option<&str>) -> (bytes: Vec<u8>)
    ensures
        bytes@ == head_bytes(
            response@,
            match reason {
                Some(phrase) => Some(phrase@),
                None => None,
            },
        ),
{
    let ghost headers = header_views(response.headers@);
    let mut out: Vec<u8> = Vec::new();
    out.push(72);
    out.push(84);
    out.push(84);
    out.push(80);
    out.push(47);
    out.push(49);
    out.push(46);
    out.push(49);
    out.push(32);
    append(&mut out, &decimal_digits(response.status as u64));
    out.push(32);
    if let Some(text) = reason {
        append(&mut out, &text.as_bytes_vec());
    }
    out.push(13);
    out.push(10);
    let ghost first = out@;
    let mut i: usize = 0;
    while i < response.headers.len()
        invariant
            i <= response.headers@.len(),
            headers == header_views(response.headers@),
            out@ == first + header_lines(headers.take(i as int)),
        decreases response.headers@.len() - i,
    {
        let header = &response.headers[i];
        assert(headers.take(i + 1).drop_last() =~= headers.take(i as int));
        append_header(&mut out, header.name.as_str(), &header.value);
        i += 1;
    }
    assert(headers.take(i as int) =~= headers);
    proof {
        reveal_strlit("Content-Length");
        assert("Content-Length"@ =~= length_name());
    }
    if find_header(&response.headers, "Content-Length") >= response.headers.len() {
        append_header(&mut out, "Content-Length", &decimal_digits(response.body.len() as u64));
    }
    out.push(13);
    out.push(10);
    out
}

/// The head of `response` as bytes, with the standard reason phrase of its
/// status in the status line.
pub fn response_head(response: &Response) -> (bytes: Vec<u8>)
    ensures
        bytes@ == head_bytes(response@, canonical_reason(response.status)),
{
    encode_head(response, reason_of(response.status))
}

/// The whole of `response` as bytes: its head, then its body.
pub fn response_bytes(response: &Response) -> (bytes: Vec<u8>)
    ensures
        bytes@ == head_bytes(response@, canonical_reason(response.status)) + response@.body,
{
    let mut bytes = response_head(response);
    append(&mut bytes, &response.body);
    bytes
}

} // verus!
