//! Requests and responses as the routing sees them.

use vstd::prelude::*;
use crate::text::{chars_of, text_of};

verus! {

/// One header line: a name and the bytes of its value.
#[derive(Debug, PartialEq, Eq)]
pub struct Header {
    pub name: String,
    pub value: Vec<u8>,
}

/// What a [`Header`] holds, as mathematical values.
pub struct HeaderView {
    pub name: Seq<char>,
    pub value: Seq<u8>,
}

impl View for Header {
    type V = HeaderView;

    open spec fn view(&self) -> HeaderView {
        HeaderView { name: self.name@, value: self.value@ }
    }
}

impl Clone for Header {
    fn clone(&self) -> (copy: Self)
        ensures
            copy@ == self@,
    {
        Header { name: self.name.clone(), value: clone_bytes(&self.value) }
    }
}

/// The views of a list of headers, in the same order.
pub open spec fn header_views(list: Seq<Header>) -> Seq<HeaderView> {
    list.map_values(|h: Header| h@)
}

/// A copy of `bytes`.
pub fn clone_bytes(bytes: &Vec<u8>) -> (copy: Vec<u8>)
    ensures
        copy@ == bytes@,
{
    let mut copy: Vec<u8> = Vec::new();
    let mut i: usize = 0;
    while i < bytes.len()
        invariant
            i <= bytes@.len(),
            copy@ == bytes@.take(i as int),
        decreases bytes@.len() - i,
    {
        copy.push(bytes[i]);
        i += 1;
    }
    copy
}

/// A copy of `list` with the same headers in the same order.
pub fn clone_headers(list: &Vec<Header>) -> (copy: Vec<Header>)
    ensures
        header_views(copy@) == header_views(list@),
{
    let mut copy: Vec<Header> = Vec::new();
    let mut i: usize = 0;
    while i < list.len()
        invariant
            i <= list@.len(),
            copy@.len() == i,
            forall|k: int| 0 <= k < i ==> copy@[k]@ == list@[k]@,
        decreases list@.len() - i,
    {
        copy.push(list[i].clone());
        i += 1;
    }
    copy
}

/// The head of a request: method, path and headers. No body belongs to it.
#[derive(Debug, PartialEq, Eq)]
pub struct Request {
    pub method: String,
    pub path: String,
    pub headers: Vec<Header>,
}

/// What a [`Request`] holds, as mathematical values.
pub struct RequestView {
    pub method: Seq<char>,
    pub path: Seq<char>,
    pub headers: Seq<HeaderView>,
}

impl View for Request {
    type V = RequestView;

    open spec fn view(&self) -> RequestView {
        RequestView {
            method: self.method@,
            path: self.path@,
            headers: header_views(self.headers@),
        }
    }
}

impl Clone for Request {
    fn clone(&self) -> (copy: Self)
        ensures
            copy@ == self@,
    {
        Request {
            method: self.method.clone(),
            path: self.path.clone(),
            headers: clone_headers(&self.headers),
        }
    }
}

/// A response held in memory: status, headers and body.
#[derive(Debug, PartialEq, Eq)]
pub struct Response {
    pub status: u16,
    pub headers: Vec<Header>,
    pub body: Vec<u8>,
}

/// What a [`Response`] holds, as mathematical values.
pub struct ResponseView {
    pub status: u16,
    pub headers: Seq<HeaderView>,
    pub body: Seq<u8>,
}

impl View for Response {
    type V = ResponseView;

    open spec fn view(&self) -> ResponseView {
        ResponseView {
            status: self.status,
            headers: header_views(self.headers@),
            body: self.body@,
        }
    }
}

impl Clone for Response {
    fn clone(&self) -> (copy: Self)
        ensures
            copy@ == self@,
    {
        Response {
            status: self.status,
            headers: clone_headers(&self.headers),
            body: clone_bytes(&self.body),
        }
    }
}

/// `c` in lower case where it is an ASCII capital, and else `c`.
pub open spec fn lower(c: char) -> char {
    if 'A' <= c <= 'Z' {
        ((c as u8) + 32) as char
    } else {
        c
    }
}

/// Whether `a` and `b` are the same but for the case of ASCII letters.
pub open spec fn same_name(a: Seq<char>, b: Seq<char>) -> bool {
    a.len() == b.len() && forall|i: int| 0 <= i < a.len() ==> lower(a[i]) == lower(b[i])
}

/// Whether `b` may stand in a header value that is read as text: a printable
/// ASCII character, a space or a tab.
pub open spec fn is_visible(b: u8) -> bool {
    (32 <= b < 127) || b == 9
}

/// The text of a header value: its bytes as characters where all of them are
/// visible, and the empty text where one is not.
pub open spec fn value_text(value: Seq<u8>) -> Seq<char> {
    if forall|i: int| 0 <= i < value.len() ==> is_visible(#[trigger] value[i]) {
        Seq::new(value.len(), |i: int| value[i] as char)
    } else {
        Seq::empty()
    }
}

/// The position of the first header from `at` on whose name is `name` but
/// for case, or the number of headers where there is none.
pub open spec fn header_from(headers: Seq<HeaderView>, name: Seq<char>, at: int) -> int
    decreases headers.len() - at,
{
    if at < 0 || at >= headers.len() {
        headers.len() as int
    } else if same_name(headers[at].name, name) {
        at
    } else {
        header_from(headers, name, at + 1)
    }
}

/// The name of the header that says which host a request is for.
pub open spec fn host_name() -> Seq<char> {
    seq!['h', 'o', 's', 't']
}

/// The host that a request with these headers is for: the text of the first
/// `Host` header, and the empty text where there is none.
pub open spec fn host_of(headers: Seq<HeaderView>) -> Seq<char> {
    let i = header_from(headers, host_name(), 0);
    if i < headers.len() {
        value_text(headers[i].value)
    } else {
        Seq::empty()
    }
}

/// `c` in lower case where it is an ASCII capital.
pub fn to_lower(c: char) -> (l: char)
    ensures
        l == lower(c),
{
    if 'A' <= c && c <= 'Z' {
        ((c as u8) + 32) as char
    } else {
        c
    }
}

/// Whether `a` and `b` are the same name, in any mix of upper and lower
/// case.
pub fn names_match(a: &str, b: &str) -> (same: bool)
    ensures
        same == same_name(a@, b@),
{
    let x = chars_of(a);
    let y = chars_of(b);
    if x.len() != y.len() {
        return false;
    }
    let mut i: usize = 0;
    while i < x.len()
        invariant
            i <= x@.len(),
            x@ == a@,
            y@ == b@,
            x@.len() == y@.len(),
            forall|k: int| 0 <= k < i ==> lower(x@[k]) == lower(y@[k]),
        decreases x@.len() - i,
    {
        if to_lower(x[i]) != to_lower(y[i]) {
            return false;
        }
        i += 1;
    }
    true
}

/// Whether `name` is `host`, in any mix of upper and lower case.
pub fn is_host_name(name: &str) -> (is_host: bool)
    ensures
        is_host == same_name(name@, host_name()),
{
    proof {
        reveal_strlit("host");
    }
    names_match(name, "host")
}

/// The text of a header value, empty where a byte of it is not visible.
pub fn text_of_value(value: &Vec<u8>) -> (text: String)
    ensures
        text@ == value_text(value@),
{
    let mut chars: Vec<char> = Vec::new();
    let mut i: usize = 0;
    while i < value.len()
        invariant
            i <= value@.len(),
            chars@.len() == i,
            forall|k: int| 0 <= k < i ==> is_visible(#[trigger] value@[k]),
            forall|k: int| 0 <= k < i ==> chars@[k] == value@[k] as char,
        decreases value@.len() - i,
    {
        let b: u8 = value[i];
        if !((32 <= b && b < 127) || b == 9) {
            return String::new();
        }
        chars.push(b as char);
        i += 1;
    }
    text_of(&chars)
}

/// The position of the first header named `name`, in any mix of upper and
/// lower case, or the number of headers where there is none.
pub fn find_header(headers: &Vec<Header>, name: &str) -> (found: usize)
    ensures
        found == header_from(header_views(headers@), name@, 0),
        found <= headers@.len(),
{
    let ghost views = header_views(headers@);
    let mut i: usize = 0;
    while i < headers.len()
        invariant
            i <= headers@.len(),
            views == header_views(headers@),
            header_from(views, name@, 0) == header_from(views, name@, i as int),
        decreases headers@.len() - i,
    {
        if names_match(headers[i].name.as_str(), name) {
            return i;
        }
        i += 1;
    }
    i
}

impl Request {
    /// The host that the request is for: the text of its first `Host`
    /// header, and the empty text where it has none.
    pub fn host(&self) -> (host: String)
        ensures
            host@ == host_of(self@.headers),
    {
        proof {
            reveal_strlit("host");
            assert("host"@ =~= host_name());
        }
        let at = find_header(&self.headers, "host");
        if at < self.headers.len() {
            text_of_value(&self.headers[at].value)
        } else {
            String::new()
        }
    }
}

} // verus!
