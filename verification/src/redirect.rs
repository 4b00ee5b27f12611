//! The target of a redirect.

use vstd::prelude::*;
use crate::text::{chars_of, text_of};

verus! {

/// The placeholder that stands for the request path: `{uri}`.
pub open spec fn uri_token() -> Seq<char> {
    seq!['{', 'u', 'r', 'i', '}']
}

/// `destination` with every occurrence of the placeholder replaced by `uri`,
/// reading from the left. What was put in is not read again.
pub open spec fn expand(destination: Seq<char>, uri: Seq<char>) -> Seq<char>
    decreases destination.len(),
{
    if destination.len() == 0 {
        Seq::empty()
    } else if uri_token().is_prefix_of(destination) {
        uri + expand(destination.skip(5), uri)
    } else {
        seq![destination[0]] + expand(destination.skip(1), uri)
    }
}

/// A placeholder becomes the request path, and what stands before it stays
/// as it is where it holds no `{`.
pub proof fn law_placeholder_becomes_path(before: Seq<char>, after: Seq<char>, uri: Seq<char>)
    requires
        !before.contains('{'),
    ensures
        expand(before + uri_token() + after, uri) == before + uri + expand(after, uri),
    decreases before.len(),
{
    let whole = before + uri_token() + after;
    if before.len() == 0 {
        assert(whole.skip(5) =~= after);
    } else {
        assert(!uri_token().is_prefix_of(whole));
        let shorter = before.skip(1);
        assert(!shorter.contains('{'));
        assert(whole.skip(1) =~= shorter + uri_token() + after);
        law_placeholder_becomes_path(shorter, after, uri);
        assert(seq![before[0]] + (shorter + uri + expand(after, uri)) =~= before + uri + expand(
            after,
            uri,
        ));
    }
}

/// A destination without `{` is kept as it is.
pub proof fn law_plain_destination_is_kept(destination: Seq<char>, uri: Seq<char>)
    requires
        !destination.contains('{'),
    ensures
        expand(destination, uri) == destination,
    decreases destination.len(),
{
    if destination.len() > 0 {
        let shorter = destination.skip(1);
        law_plain_destination_is_kept(shorter, uri);
    }
}

/// Whether the placeholder stands in `text` at position `at`.
fn token_at(text: &Vec<char>, at: usize) -> (found: bool)
    requires
        at <= text@.len(),
    ensures
        found == uri_token().is_prefix_of(text@.skip(at as int)),
{
    let ghost rest = text@.skip(at as int);
    if text.len() - at < 5 {
        return false;
    }
    let found = text[at] == '{' && text[at + 1] == 'u' && text[at + 2] == 'r' && text[at + 3]
        == 'i' && text[at + 4] == '}';
    proof {
        let head = rest.subrange(0, 5);
        assert(head[0] == rest[0] && head[1] == rest[1] && head[2] == rest[2] && head[3] == rest[3]
            && head[4] == rest[4]);
    }
    found
}

/// Puts the request path in the place of every `{uri}` in `destination`.
pub fn expand_uri(destination: &str, uri: &str) -> (location: String)
    ensures
        location@ == expand(destination@, uri@),
{
    let dest = chars_of(destination);
    let path = chars_of(uri);
    let mut out: Vec<char> = Vec::new();
    let mut i: usize = 0;
    assert(dest@.skip(0) =~= dest@);
    while i < dest.len()
        invariant
            i <= dest@.len(),
            out@ + expand(dest@.skip(i as int), path@) == expand(dest@, path@),
        decreases dest@.len() - i,
    {
        let ghost rest = dest@.skip(i as int);
        let ghost before = out@;
        if token_at(&dest, i) {
            let mut k: usize = 0;
            while k < path.len()
                invariant
                    k <= path@.len(),
                    out@ == before + path@.take(k as int),
                decreases path@.len() - k,
            {
                out.push(path[k]);
                k += 1;
            }
            assert(rest.skip(5) =~= dest@.skip(i + 5));
            assert(out@ + expand(rest.skip(5), path@) =~= before + (path@ + expand(
                rest.skip(5),
                path@,
            )));
            i += 5;
        } else {
            out.push(dest[i]);
            assert(rest.skip(1) =~= dest@.skip(i + 1));
            assert(out@ + expand(rest.skip(1), path@) =~= before + (seq![rest[0]] + expand(
                rest.skip(1),
                path@,
            )));
            i += 1;
        }
    }
    text_of(&out)
}

} // verus!
