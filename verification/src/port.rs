//! The port that a configured host listens on.
//!
//! A host name may carry its port after a colon, as in `example.com:8080`.
//! Without one the port follows from the directives: 443 where the host has
//! a certificate, 80 where it has none.

use vstd::prelude::*;
use crate::directive::{Directive, DirectiveView, directive_views};
use crate::text::{chars_of, find_char, index_from, string_of};

verus! {

/// The port of a host without a certificate.
pub const HTTP_PORT: u16 = 80;

/// The port of a host with a certificate.
pub const HTTPS_PORT: u16 = 443;

/// The position of the first `:` in `name` from `at` on, or the length of
/// `name` where there is none.
pub open spec fn colon_from(name: Seq<char>, at: int) -> int {
    index_from(name, ':', at)
}

/// Whether `name` carries a port.
pub open spec fn has_port(name: Seq<char>) -> bool {
    colon_from(name, 0) < name.len()
}

/// `name` without the port: what stands before its first `:`.
pub open spec fn bare_name(name: Seq<char>) -> Seq<char> {
    name.take(colon_from(name, 0))
}

/// The port as it is written in `name`: what stands between the first `:`
/// and the next one, or the end.
pub open spec fn port_text(name: Seq<char>) -> Seq<char> {
    let start = colon_from(name, 0) + 1;
    name.subrange(start, colon_from(name, start))
}

/// Whether `c` is a decimal digit.
pub open spec fn is_digit(c: char) -> bool {
    '0' <= c <= '9'
}

/// Whether `text` holds decimal digits and nothing else.
pub open spec fn all_digits(text: Seq<char>) -> bool {
    forall|i: int| 0 <= i < text.len() ==> is_digit(#[trigger] text[i])
}

/// The number that the decimal digits `text` write.
pub open spec fn digits_value(text: Seq<char>) -> nat
    decreases text.len(),
{
    if text.len() == 0 {
        0
    } else {
        (digits_value(text.drop_last()) * 10 + (text.last() as int - '0' as int)) as nat
    }
}

/// `text` without the `+` that may stand before a number.
pub open spec fn unsigned(text: Seq<char>) -> Seq<char> {
    if text.len() > 0 && text[0] == '+' {
        text.skip(1)
    } else {
        text
    }
}

/// The port that `text` writes: one or more decimal digits, with or without
/// a `+` before them, that write a number up to 65535.
pub open spec fn port_number(text: Seq<char>) -> Option<u16> {
    let digits = unsigned(text);
    if digits.len() > 0 && all_digits(digits) && digits_value(digits) <= u16::MAX {
        Some(digits_value(digits) as u16)
    } else {
        None
    }
}

/// Digits that follow never make the number smaller.
pub proof fn lemma_digits_grow(text: Seq<char>, k: int)
    requires
        0 <= k <= text.len(),
        all_digits(text),
    ensures
        digits_value(text.take(k)) <= digits_value(text),
    decreases text.len() - k,
{
    if k < text.len() {
        let longer = text.take(k + 1);
        assert(longer.drop_last() =~= text.take(k));
        lemma_digits_grow(text, k + 1);
    } else {
        assert(text.take(k) =~= text);
    }
}

/// Reads a port number from the characters of `text` between `start` and
/// `end`.
fn port_between(text: &Vec<char>, start: usize, end: usize) -> (port: Option<u16>)
    requires
        start <= end <= text@.len(),
    ensures
        port == port_number(text@.subrange(start as int, end as int)),
{
    let mut i: usize = start;
    if i < end && text[i] == '+' {
        i += 1;
    }
    let first: usize = i;
    let ghost digits = text@.subrange(first as int, end as int);
    if first == end {
        return None;
    }
    let mut value: u32 = 0;
    while i < end
        invariant
            start <= first <= i <= end <= text@.len(),
            digits == text@.subrange(first as int, end as int),
            digits == unsigned(text@.subrange(start as int, end as int)),
            all_digits(digits.take(i - first)),
            value == digits_value(digits.take(i - first)),
            value <= u16::MAX,
        decreases end - i,
    {
        let c: char = text[i];
        let ghost shorter = digits.take(i - first);
        let ghost longer = digits.take(i - first + 1);
        assert(longer.drop_last() =~= shorter);
        if !('0' <= c && c <= '9') {
            assert(!is_digit(digits[i - first]));
            return None;
        }
        let digit: u32 = (c as u32) - ('0' as u32);
        value = value * 10 + digit;
        if value > 65535 {
            proof {
                if all_digits(digits) {
                    lemma_digits_grow(digits, i - first + 1);
                }
            }
            return None;
        }
        i += 1;
    }
    assert(digits.take(end - first) =~= digits);
    Some(value as u16)
}

/// Reads a port number: decimal digits, with or without a `+` before them,
/// that write a number up to 65535. Anything else is no port.
pub fn parse_port(text: &str) -> (port: Option<u16>)
    ensures
        port == port_number(text@),
{
    let chars = chars_of(text);
    let n: usize = chars.len();
    assert(chars@.subrange(0, n as int) =~= chars@);
    port_between(&chars, 0, n)
}

/// The certificate and key of the last `Tls` directive in `list`.
pub open spec fn tls_of(list: Seq<DirectiveView>) -> Option<(Seq<char>, Seq<char>)>
    decreases list.len(),
{
    if list.len() == 0 {
        None
    } else {
        match list.last() {
            DirectiveView::Tls { cert, key } => Some((cert, key)),
            _ => tls_of(list.drop_last()),
        }
    }
}

/// The view of a pair of paths that may be missing.
pub open spec fn pair_view(pair: Option<(String, String)>) -> Option<(Seq<char>, Seq<char>)> {
    match pair {
        Some((cert, key)) => Some((cert@, key@)),
        None => None,
    }
}

/// The certificate and key that the host is configured with: those of its
/// last `Tls` directive.
pub fn tls_identity(list: &Vec<Directive>) -> (found: Option<(String, String)>)
    ensures
        pair_view(found) == tls_of(directive_views(list@)),
{
    let ghost views = directive_views(list@);
    let mut found: Option<(String, String)> = None;
    let mut i: usize = 0;
    while i < list.len()
        invariant
            i <= list@.len(),
            views == directive_views(list@),
            pair_view(found) == tls_of(views.take(i as int)),
        decreases list@.len() - i,
    {
        assert(views.take(i + 1).drop_last() =~= views.take(i as int));
        if let Directive::Tls { cert, key } = &list[i] {
            found = Some((cert.clone(), key.clone()));
        }
        i += 1;
    }
    assert(views.take(i as int) =~= views);
    found
}

/// The port of the host `name` with the directives `list`: the port that
/// the name carries where it carries one, whatever the directives are; else
/// 443 where a `Tls` directive is among them, and 80 where none is. `None`
/// where the name carries what is no port number.
pub open spec fn listen_port(name: Seq<char>, list: Seq<DirectiveView>) -> Option<u16> {
    if has_port(name) {
        port_number(port_text(name))
    } else if tls_of(list) is Some {
        Some(HTTPS_PORT)
    } else {
        Some(HTTP_PORT)
    }
}

/// Where a configured host is served: its name without the port, and the
/// port.
#[derive(Debug, PartialEq, Eq)]
pub struct HostAddress {
    pub name: String,
    pub port: u16,
}

/// Takes the host name `name` apart and settles the port of the host.
/// `None` where the name carries what is no port number.
pub fn host_address(name: &str, list: &Vec<Directive>) -> (address: Option<HostAddress>)
    ensures
        match address {
            Some(a) => a.name@ == bare_name(name@) && listen_port(name@, directive_views(list@))
                == Some(a.port),
            None => listen_port(name@, directive_views(list@)) is None,
        },
{
    let chars = chars_of(name);
    let colon = find_char(&chars, ':', 0);
    let bare = string_of(&chars, 0, colon);
    if colon < chars.len() {
        let end = find_char(&chars, ':', colon + 1);
        match port_between(&chars, colon + 1, end) {
            Some(port) => Some(HostAddress { name: bare, port }),
            None => None,
        }
    } else if tls_identity(list).is_some() {
        Some(HostAddress { name: bare, port: HTTPS_PORT })
    } else {
        Some(HostAddress { name: bare, port: HTTP_PORT })
    }
}

/// A port written in the host name decides, whatever the directives say.
pub proof fn law_written_port_wins(
    name: Seq<char>,
    list: Seq<DirectiveView>,
    other: Seq<DirectiveView>,
)
    requires
        has_port(name),
    ensures
        listen_port(name, list) == listen_port(name, other),
        listen_port(name, list) == port_number(port_text(name)),
{
}

} // verus!
