//! The responses that the routing itself makes.

use vstd::prelude::*;
use vstd::string::StringSliceAdditionalSpecFns;
use crate::message::{Header, HeaderView, Response, ResponseView, header_views};

verus! {

/// The request was served.
pub const OK: u16 = 200;

/// What was asked for is at another address.
pub const FOUND: u16 = 302;

/// What was read is no request.
pub const BAD_REQUEST: u16 = 400;

/// No host of the listener answers to the request.
pub const FORBIDDEN: u16 = 403;

/// No directive took the request, or the file could not be opened.
pub const NOT_FOUND: u16 = 404;

/// Files are to be served and no directory is bound.
pub const INTERNAL_SERVER_ERROR: u16 = 500;

/// The upstream server gave no answer.
pub const BAD_GATEWAY: u16 = 502;

/// The response that only says `status`: no header, no body.
pub open spec fn bare(status: u16) -> ResponseView {
    ResponseView { status, headers: Seq::empty(), body: Seq::empty() }
}

/// The response with one header and no body.
pub open spec fn with_header(status: u16, name: Seq<char>, value: Seq<u8>) -> ResponseView {
    ResponseView { status, headers: seq![HeaderView { name, value }], body: Seq::empty() }
}

/// The number `n` in decimal digits, without leading zeros.
pub open spec fn decimal(n: nat) -> Seq<u8>
    decreases n,
{
    if n < 10 {
        seq![(48 + n) as u8]
    } else {
        decimal(n / 10).push((48 + n % 10) as u8)
    }
}

/// The name of the header that says where a redirect leads.
pub open spec fn location_name() -> Seq<char> {
    seq!['L', 'o', 'c', 'a', 't', 'i', 'o', 'n']
}

/// The name of the header that says how many bytes the body has.
pub open spec fn length_name() -> Seq<char> {
    seq!['C', 'o', 'n', 't', 'e', 'n', 't', '-', 'L', 'e', 'n', 'g', 't', 'h']
}

/// The response that reports an error: the status and nothing else.
pub fn error_response(status: u16) -> (response: Response)
    ensures
        response@ == bare(status),
{
    let response = Response { status, headers: Vec::new(), body: Vec::new() };
    assert(header_views(response.headers@) =~= Seq::empty());
    response
}

/// The response with the one header `name: value` and no body.
fn single_header(status: u16, name: &str, value: Vec<u8>) -> (response: Response)
    ensures
        response@ == with_header(status, name@, value@),
{
    let mut headers: Vec<Header> = Vec::new();
    headers.push(Header { name: name.to_owned(), value });
    let response = Response { status, headers, body: Vec::new() };
    assert(header_views(response.headers@) =~= seq![HeaderView { name: name@, value: value@ }]);
    response
}

/// The response that redirects to `location`: status 302, the header
/// `Location` with the bytes of `location`, no body.
pub fn redirect_response(location: &str) -> (response: Response)
    ensures
        response@ == with_header(FOUND, location_name(), location.spec_bytes()),
{
    proof {
        reveal_strlit("Location");
        assert("Location"@ =~= location_name());
    }
    single_header(FOUND, "Location", location.as_bytes_vec())
}

/// The decimal digits of `n`.
pub fn decimal_digits(n: u64) -> (digits: Vec<u8>)
    ensures
        digits@ == decimal(n as nat),
{
    let mut reversed: Vec<u8> = Vec::new();
    let mut rest: u64 = n;
    while rest >= 10
        invariant
            decimal(n as nat) == decimal(rest as nat) + reversed@.reverse(),
        decreases rest,
    {
        let digit: u8 = 48 + (rest % 10) as u8;
        let ghost before = reversed@;
        reversed.push(digit);
        assert(decimal((rest / 10) as nat).push(digit) + before.reverse() =~= decimal(
            (rest / 10) as nat,
        ) + (seq![digit] + before.reverse()));
        rest = rest / 10;
    }
    reversed.push(48 + rest as u8);
    let mut digits: Vec<u8> = Vec::new();
    let mut i: usize = reversed.len();
    while i > 0
        invariant
            i <= reversed@.len(),
            digits@ == reversed@.reverse().take(reversed@.len() - i),
        decreases i,
    {
        i -= 1;
        digits.push(reversed[i]);
    }
    digits
}

/// The head of the response that carries a file of `size` bytes: status 200
/// and the header `Content-Length` with `size` in decimal digits. The body
/// is the file's content and is not held here.
pub fn file_response(size: u64) -> (response: Response)
    ensures
        response@ == with_header(OK, length_name(), decimal(size as nat)),
{
    proof {
        reveal_strlit("Content-Length");
        assert("Content-Length"@ =~= length_name());
    }
    single_header(OK, "Content-Length", decimal_digits(size))
}

} // verus!
