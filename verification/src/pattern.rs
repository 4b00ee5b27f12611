//! Matching of request paths against directive patterns.

use vstd::prelude::*;
use crate::text::{chars_of, same_text};

verus! {

/// Whether `pattern` accepts `path`.
///
/// The pattern `*` accepts every path. A pattern that ends in `*` accepts the
/// paths that begin with what stands before that `*`. Any other pattern
/// accepts only the path equal to it.
pub open spec fn pattern_matches(pattern: Seq<char>, path: Seq<char>) -> bool {
    if pattern.len() > 0 && pattern.last() == '*' {
        pattern.drop_last().is_prefix_of(path)
    } else {
        pattern == path
    }
}

/// The pattern `*` accepts every path.
pub proof fn law_star_accepts_all(path: Seq<char>)
    ensures
        pattern_matches(seq!['*'], path),
{
}

/// A pattern that ends in `*` accepts a path if and only if the path begins
/// with what stands before the `*`.
pub proof fn law_trailing_star_is_prefix(prefix: Seq<char>, path: Seq<char>)
    ensures
        pattern_matches(prefix.push('*'), path) <==> exists|rest: Seq<char>| path == prefix + rest,
{
    if prefix.is_prefix_of(path) {
        let rest = path.skip(prefix.len() as int);
        assert(path =~= prefix + rest);
    }
}

/// A pattern that does not end in `*` accepts only the path equal to it.
pub proof fn law_plain_pattern_is_equality(pattern: Seq<char>, path: Seq<char>)
    requires
        pattern.len() == 0 || pattern.last() != '*',
    ensures
        pattern_matches(pattern, path) <==> pattern == path,
{
}

/// Whether the first `n` items of `prefix` open `text`.
fn begins_with(text: &Vec<char>, prefix: &Vec<char>, n: usize) -> (found: bool)
    requires
        n <= prefix@.len(),
    ensures
        found == prefix@.take(n as int).is_prefix_of(text@),
{
    if text.len() < n {
        return false;
    }
    let mut i: usize = 0;
    while i < n
        invariant
            n <= prefix@.len(),
            n <= text@.len(),
            i <= n,
            forall|k: int| 0 <= k < i ==> prefix@[k] == text@[k],
        decreases n - i,
    {
        if prefix[i] != text[i] {
            assert(prefix@.take(n as int)[i as int] != text@.subrange(0, n as int)[i as int]);
            return false;
        }
        i += 1;
    }
    true
}

/// Whether `pattern` accepts `path`: every path for `*`, the paths with
/// the given beginning for a pattern that ends in `*`, and the path equal
/// to the pattern for any other.
pub fn matches_pattern(pattern: &str, path: &str) -> (matched: bool)
    ensures
        matched == pattern_matches(pattern@, path@),
{
    let pat = chars_of(pattern);
    let n: usize = pat.len();
    if n > 0 && pat[n - 1] == '*' {
        begins_with(&chars_of(path), &pat, n - 1)
    } else {
        same_text(pattern, path)
    }
}

} // verus!
