//! Reading the head of a request from its text.
//!
//! The head is a request line, `METHOD target HTTP/x.y`, then one line for
//! each header, `Name: value`, then an empty line. Lines end in LF, with or
//! without a CR before it.

use vstd::prelude::*;
use vstd::utf8::encode_utf8;
use crate::framing::{Framing, accept_head, ends_head, framing_after, head_text};
use crate::message::{Header, HeaderView, Request, RequestView, Response, header_views};
use crate::response::{bare, error_response, BAD_REQUEST};
use crate::text::{
    chars_of, find_char, index_from, lemma_index_from, slice_of, string_of, text_of,
};

verus! {

/// `line` without the CR that it may end in.
pub open spec fn without_cr(line: Seq<char>) -> Seq<char> {
    if line.len() > 0 && line.last() == '\r' {
        line.drop_last()
    } else {
        line
    }
}

/// The line of `text` that begins at `at`, without its end.
pub open spec fn line_from(text: Seq<char>, at: int) -> Seq<char> {
    without_cr(text.subrange(at, index_from(text, '\n', at)))
}

/// Where the line after the one at `at` begins, or the length of `text`.
pub open spec fn after_line(text: Seq<char>, at: int) -> int {
    let end = index_from(text, '\n', at);
    if end < text.len() {
        end + 1
    } else {
        end
    }
}

/// Whether `c` is a space or a tab.
pub open spec fn is_blank(c: char) -> bool {
    c == ' ' || c == '\t'
}

/// `text` without the blanks that it begins with.
pub open spec fn trim_left(text: Seq<char>) -> Seq<char>
    decreases text.len(),
{
    if text.len() > 0 && is_blank(text[0]) {
        trim_left(text.skip(1))
    } else {
        text
    }
}

/// `text` without the blanks that it ends in.
pub open spec fn trim_right(text: Seq<char>) -> Seq<char>
    decreases text.len(),
{
    if text.len() > 0 && is_blank(text.last()) {
        trim_right(text.drop_last())
    } else {
        text
    }
}

/// `text` without the blanks around it.
pub open spec fn trimmed(text: Seq<char>) -> Seq<char> {
    trim_right(trim_left(text))
}

/// The header that `line` writes: the name before the first `:`, and the
/// value behind it without the blanks around it, as bytes. `None` where the
/// line has no `:` or nothing before it.
pub open spec fn header_of(line: Seq<char>) -> Option<HeaderView> {
    let colon = index_from(line, ':', 0);
    if 0 < colon < line.len() {
        Some(HeaderView { name: line.take(colon), value: encode_utf8(trimmed(line.skip(colon + 1))) })
    } else {
        None
    }
}

/// The headers that `text` writes from `at` on, one on each line up to the
/// first empty line or the end of the text. `None` where a line writes no
/// header.
pub open spec fn headers_from(text: Seq<char>, at: int) -> Option<Seq<HeaderView>>
    decreases text.len() - at,
{
    if at < 0 || at >= text.len() || line_from(text, at).len() == 0 {
        Some(Seq::empty())
    } else {
        proof {
            lemma_index_from(text, '\n', at);
        }
        match (header_of(line_from(text, at)), headers_from(text, after_line(text, at))) {
            (Some(header), Some(rest)) => Some(seq![header] + rest),
            _ => None,
        }
    }
}

/// The three parts of a request line.
pub struct RequestLine {
    pub method: Seq<char>,
    pub target: Seq<char>,
    pub version: Seq<char>,
}

/// What the version of a request line begins with.
pub open spec fn version_prefix() -> Seq<char> {
    seq!['H', 'T', 'T', 'P', '/']
}

/// The parts of the request line `line`: three words with one space between
/// them, of which the last begins with `HTTP/`. `None` for any other line.
pub open spec fn request_line_of(line: Seq<char>) -> Option<RequestLine> {
    let first = index_from(line, ' ', 0);
    let second = index_from(line, ' ', first + 1);
    let version = line.skip(second + 1);
    if 0 < first && first + 1 < second < line.len() && index_from(version, ' ', 0) == version.len()
        && version_prefix().is_prefix_of(version) {
        Some(RequestLine { method: line.take(first), target: line.subrange(first + 1, second), version })
    } else {
        None
    }
}

/// The head of a request as it was written.
#[derive(Debug, PartialEq, Eq)]
pub struct Head {
    pub method: String,
    pub target: String,
    pub version: String,
    pub headers: Vec<Header>,
}

/// What a [`Head`] holds, as mathematical values.
pub struct HeadView {
    pub method: Seq<char>,
    pub target: Seq<char>,
    pub version: Seq<char>,
    pub headers: Seq<HeaderView>,
}

impl View for Head {
    type V = HeadView;

    open spec fn view(&self) -> HeadView {
        HeadView {
            method: self.method@,
            target: self.target@,
            version: self.version@,
            headers: header_views(self.headers@),
        }
    }
}

/// The head that `text` writes: the request line on its first line and the
/// headers on the lines that follow. `None` where the first line is no
/// request line or a line after it writes no header.
pub open spec fn head_of(text: Seq<char>) -> Option<HeadView> {
    match (request_line_of(line_from(text, 0)), headers_from(text, after_line(text, 0))) {
        (Some(line), Some(headers)) => Some(
            HeadView { method: line.method, target: line.target, version: line.version, headers },
        ),
        _ => None,
    }
}

/// The line of `text` that begins at `at`, and where the next one begins.
fn read_line(text: &Vec<char>, at: usize) -> (found: (Vec<char>, usize))
    requires
        at <= text@.len(),
    ensures
        found.0@ == line_from(text@, at as int),
        found.1 == after_line(text@, at as int),
        found.1 <= text@.len(),
        at < text@.len() ==> at < found.1,
{
    let end = find_char(text, '\n', at);
    let stop: usize = if end > at && text[end - 1] == '\r' {
        end - 1
    } else {
        end
    };
    let line = slice_of(text, at, stop);
    let next: usize = if end < text.len() {
        end + 1
    } else {
        end
    };
    (line, next)
}

/// The characters of `text` from `from` on, without the blanks around them.
fn trim(text: &Vec<char>, from: usize) -> (inner: String)
    requires
        from <= text@.len(),
    ensures
        inner@ == trimmed(text@.skip(from as int)),
{
    let mut a: usize = from;
    while a < text.len() && (text[a] == ' ' || text[a] == '\t')
        invariant
            from <= a <= text@.len(),
            trim_left(text@.skip(from as int)) == trim_left(text@.skip(a as int)),
        decreases text@.len() - a,
    {
        assert(text@.skip(a as int).skip(1) =~= text@.skip(a + 1));
        a += 1;
    }
    let mut b: usize = text.len();
    while b > a && (text[b - 1] == ' ' || text[b - 1] == '\t')
        invariant
            a <= b <= text@.len(),
            trim_right(text@.skip(a as int)) == trim_right(text@.subrange(a as int, b as int)),
        decreases b,
    {
        assert(text@.subrange(a as int, b as int).drop_last() =~= text@.subrange(
            a as int,
            b - 1,
        ));
        b -= 1;
    }
    string_of(text, a, b)
}

/// The view of a header that may be missing.
pub open spec fn header_view(header: Option<Header>) -> Option<HeaderView> {
    match header {
        Some(h) => Some(h@),
        None => None,
    }
}

/// Reads the header that `line` writes.
fn read_header(line: &Vec<char>) -> (header: Option<Header>)
    ensures
        header_view(header) == header_of(line@),
{
    let colon = find_char(line, ':', 0);
    if colon == 0 || colon >= line.len() {
        return None;
    }
    let name = string_of(line, 0, colon);
    let value = trim(line, colon + 1);
    Some(Header { name, value: value.as_str().as_bytes_vec() })
}

/// Whether `text` begins with `HTTP/` at position `at`.
fn version_at(text: &Vec<char>, at: usize) -> (found: bool)
    requires
        at <= text@.len(),
    ensures
        found == version_prefix().is_prefix_of(text@.skip(at as int)),
{
    let ghost rest = text@.skip(at as int);
    if text.len() - at < 5 {
        return false;
    }
    let found = text[at] == 'H' && text[at + 1] == 'T' && text[at + 2] == 'T' && text[at + 3]
        == 'P' && text[at + 4] == '/';
    proof {
        let head = rest.subrange(0, 5);
        assert(head[0] == rest[0] && head[1] == rest[1] && head[2] == rest[2] && head[3] == rest[3]
            && head[4] == rest[4]);
    }
    found
}

/// Reads the head of a request from `text`.
pub fn parse_head(text: &str) -> (head: Option<Head>)
    ensures
        match head {
            Some(h) => head_of(text@) == Some(h@),
            None => head_of(text@) is None,
        },
{
    let chars = chars_of(text);
    let (line, start) = read_line(&chars, 0);
    let first = find_char(&line, ' ', 0);
    if first == 0 || first >= line.len() {
        return None;
    }
    let second = find_char(&line, ' ', first + 1);
    if second == first + 1 || second >= line.len() {
        return None;
    }
    let version = slice_of(&line, second + 1, line.len());
    if find_char(&version, ' ', 0) != version.len() || !version_at(&line, second + 1) {
        return None;
    }
    let mut headers: Vec<Header> = Vec::new();
    let mut at: usize = start;
    loop
        invariant
            at <= chars@.len(),
            chars@ == text@,
            start == after_line(chars@, 0),
            match headers_from(chars@, at as int) {
                Some(rest) => headers_from(chars@, start as int) == Some(
                    header_views(headers@) + rest,
                ),
                None => headers_from(chars@, start as int) is None,
            },
        ensures
            headers_from(chars@, start as int) == Some(header_views(headers@)),
        decreases chars@.len() - at,
    {
        if at >= chars.len() {
            assert(header_views(headers@) + Seq::<HeaderView>::empty() =~= header_views(
                headers@,
            ));
            break;
        }
        let (line, next) = read_line(&chars, at);
        if line.len() == 0 {
            assert(header_views(headers@) + Seq::<HeaderView>::empty() =~= header_views(
                headers@,
            ));
            break;
        }
        match read_header(&line) {
            Some(header) => {
                headers.push(header);
            },
            None => {
                return None;
            },
        }
        at = next;
    }
    let head = Head {
        method: string_of(&line, 0, first),
        target: string_of(&line, first + 1, second),
        version: text_of(&version),
        headers,
    };
    Some(head)
}

/// The path of the request target `target` as the `http` crate reads it,
/// or `None` where it refuses the target.
pub uninterp spec fn target_path(target: Seq<char>) -> Option<Seq<char>>;

/// Parses `target` with `http::Uri`'s `FromStr` and hands out what
/// `Uri::path` gives for it: the target without scheme, authority and
/// query.
#[verifier::external_body]
fn path_of_target(target: &str) -> (path: Option<String>)
    ensures
        match path {
            Some(p) => target_path(target@) == Some(p@),
            None => target_path(target@) is None,
        },
{
    target.parse::<http::Uri>().ok().map(|uri| uri.path().to_owned())
}

/// Whether `c` may stand in a token: an ASCII letter or digit, or one of
/// the marks ``! # $ % & ' * + - . ^ _ ` | ~``.
pub open spec fn is_token_char(c: char) -> bool {
    ('a' <= c <= 'z') || ('A' <= c <= 'Z') || ('0' <= c <= '9') || c == '!' || c == '#' || c == '$'
        || c == '%' || c == '&' || c == '\'' || c == '*' || c == '+' || c == '-' || c == '.' || c
        == '^' || c == '_' || c == '`' || c == '|' || c == '~'
}

/// Whether `text` holds token characters and nothing else.
pub open spec fn is_token(text: Seq<char>) -> bool {
    forall|i: int| 0 <= i < text.len() ==> is_token_char(#[trigger] text[i])
}

/// Whether `method` may be the method of a request: a token that is not
/// empty.
pub open spec fn method_accepted(method: Seq<char>) -> bool {
    method.len() > 0 && is_token(method)
}

/// `http::Method::from_bytes` accepts the bytes of `method` exactly where
/// it is not empty and each of its characters is a token character.
#[verifier::external_body]
fn is_method(method: &str) -> (accepted: bool)
    ensures
        accepted == method_accepted(method@),
{
    http::Method::from_bytes(method.as_bytes()).is_ok()
}

/// The greatest length of a header's name.
pub const MAX_NAME_LEN: usize = 65535;

/// Whether `name` may be the name of a header: a token of 1 to 65535
/// characters.
pub open spec fn name_accepted(name: Seq<char>) -> bool {
    0 < name.len() <= MAX_NAME_LEN && is_token(name)
}

/// `http::header::HeaderName::from_bytes` accepts the bytes of `name`
/// exactly where it has 1 to 65535 characters and each of them is a token
/// character.
#[verifier::external_body]
fn is_header_name(name: &str) -> (accepted: bool)
    ensures
        accepted == name_accepted(name@),
{
    http::header::HeaderName::from_bytes(name.as_bytes()).is_ok()
}

/// Whether `b` may stand in the value of a header: any byte from 32 on but
/// 127, and the tab.
pub open spec fn is_value_byte(b: u8) -> bool {
    (b >= 32 && b != 127) || b == 9
}

/// Whether `value` may be the value of a header.
pub open spec fn value_accepted(value: Seq<u8>) -> bool {
    forall|i: int| 0 <= i < value.len() ==> is_value_byte(#[trigger] value[i])
}

/// Whether `header` may stand in a request.
pub open spec fn header_accepted(header: HeaderView) -> bool {
    name_accepted(header.name) && value_accepted(header.value)
}

/// Whether the method and every header of `head` may stand in a request.
pub open spec fn head_accepted(head: HeadView) -> bool {
    method_accepted(head.method) && forall|i: int|
        0 <= i < head.headers.len() ==> header_accepted(#[trigger] head.headers[i])
}

/// Whether every byte of `value` may stand in the value of a header.
pub fn is_header_value(value: &Vec<u8>) -> (accepted: bool)
    ensures
        accepted == value_accepted(value@),
{
    let mut i: usize = 0;
    while i < value.len()
        invariant
            i <= value@.len(),
            forall|k: int| 0 <= k < i ==> is_value_byte(#[trigger] value@[k]),
        decreases value@.len() - i,
    {
        let b: u8 = value[i];
        if !((b >= 32 && b != 127) || b == 9) {
            return false;
        }
        i += 1;
    }
    true
}

/// Whether the method and every header of `head` may stand in a request.
pub fn vet(head: &Head) -> (accepted: bool)
    ensures
        accepted == head_accepted(head@),
{
    if !is_method(head.method.as_str()) {
        return false;
    }
    let ghost headers = head@.headers;
    let mut i: usize = 0;
    while i < head.headers.len()
        invariant
            i <= head.headers@.len(),
            headers == header_views(head.headers@),
            forall|k: int| 0 <= k < i ==> header_accepted(#[trigger] headers[k]),
        decreases head.headers@.len() - i,
    {
        let header = &head.headers[i];
        if !is_header_name(header.name.as_str()) || !is_header_value(&header.value) {
            assert(!header_accepted(head@.headers[i as int]));
            return false;
        }
        i += 1;
    }
    true
}

/// The request with the method and headers of `head` and the path `path`.
/// There is none where the target of `head` has no path, and none where
/// the head was not accepted.
pub open spec fn request_from(head: HeadView, path: Option<Seq<char>>, accepted: bool) -> Option<
    RequestView,
> {
    match path {
        Some(p) if accepted => Some(
            RequestView { method: head.method, path: p, headers: head.headers },
        ),
        _ => None,
    }
}

/// The view of a request that may be missing.
pub open spec fn request_view(request: Option<Request>) -> Option<RequestView> {
    match request {
        Some(r) => Some(r@),
        None => None,
    }
}

/// Makes the request of a head, given the path that was read from its
/// target and whether its method and headers were accepted.
pub fn into_request(head: Head, path: Option<String>, accepted: bool) -> (request: Option<Request>)
    ensures
        request_view(request) == request_from(
            head@,
            match path {
                Some(p) => Some(p@),
                None => None,
            },
            accepted,
        ),
{
    match path {
        Some(path) if accepted => Some(
            Request { method: head.method, path, headers: head.headers },
        ),
        _ => None,
    }
}

/// The request that `text` writes: its head, with the path of the target in
/// the place of the target. There is none where the `http` crate refuses
/// the target, none where the method or the name of a header is no token,
/// and none where a byte of a header's value may not stand there.
pub open spec fn request_of(text: Seq<char>) -> Option<RequestView> {
    match head_of(text) {
        Some(head) => request_from(head, target_path(head.target), head_accepted(head)),
        None => None,
    }
}

/// Reads a request from the text of its head.
pub fn parse_request(text: &str) -> (request: Option<Request>)
    ensures
        request_view(request) == request_of(text@),
{
    match parse_head(text) {
        Some(head) => {
            let path = path_of_target(head.target.as_str());
            let accepted = vet(&head);
            into_request(head, path, accepted)
        },
        None => None,
    }
}

/// The request that `buffer` holds: the one that its text writes, where
/// it ends with the terminator and is well-formed UTF-8.
pub open spec fn request_in(buffer: Seq<u8>) -> Option<RequestView> {
    match head_text(buffer) {
        Some(text) => request_of(text),
        None => None,
    }
}

/// The request in what was read from a connection, or the response that
/// turns it away: status 400 where the buffer does not end with the
/// terminator, where its bytes are not well-formed UTF-8, and where its
/// text writes no request.
pub fn read_request(buffer: &[u8]) -> (request: Result<Request, Response>)
    ensures
        match request {
            Ok(r) => request_in(buffer@) == Some(r@),
            Err(response) => request_in(buffer@) is None && response@ == bare(BAD_REQUEST),
        },
{
    match accept_head(buffer) {
        Ok(text) => match parse_request(text.as_str()) {
            Some(request) => Ok(request),
            None => Err(error_response(BAD_REQUEST)),
        },
        Err(response) => Err(response),
    }
}

/// Bytes that do not end with the terminator are never read as a request:
/// while the peer sends, more is asked for, and once it has closed, no
/// request is made of what it sent.
pub proof fn law_unfinished_head_is_no_request(buffer: Seq<u8>, read: int)
    requires
        !ends_head(buffer),
    ensures
        framing_after(buffer, read) != Framing::Complete,
        request_in(buffer) is None,
{
}

} // verus!
