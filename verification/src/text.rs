//! Conversions between strings and sequences of characters.

use vstd::prelude::*;

verus! {

/// `String::push` appends one character to the end of the string and leaves
/// what was there before in place.
pub assume_specification[ String::push ](s: &mut String, c: char)
    ensures
        final(s)@ == old(s)@.push(c),
;

/// The characters of `s`, in order.
pub(crate) fn chars_of(s: &str) -> (v: Vec<char>)
    ensures
        v@ == s@,
{
    let mut v: Vec<char> = Vec::new();
    for c in it: s.chars()
        invariant
            it.seq() == s@,
            v@ == s@.take(it.index() as int),
    {
        v.push(c);
    }
    v
}

/// The position of the first `c` in `text` from `at` on, or the length of
/// `text` where there is none.
pub open spec fn index_from(text: Seq<char>, c: char, at: int) -> int
    decreases text.len() - at,
{
    if at < 0 || at >= text.len() {
        text.len() as int
    } else if text[at] == c {
        at
    } else {
        index_from(text, c, at + 1)
    }
}

/// What `index_from` finds: the first `c` from `at` on.
pub proof fn lemma_index_from(text: Seq<char>, c: char, at: int)
    requires
        0 <= at <= text.len(),
    ensures
        at <= index_from(text, c, at) <= text.len(),
        index_from(text, c, at) < text.len() ==> text[index_from(text, c, at)] == c,
        forall|j: int| at <= j < index_from(text, c, at) ==> text[j] != c,
    decreases text.len() - at,
{
    if at < text.len() && text[at] != c {
        lemma_index_from(text, c, at + 1);
    }
}

/// The position of the first `c` in `text` from `at` on, or its length.
pub(crate) fn find_char(text: &Vec<char>, c: char, at: usize) -> (found: usize)
    requires
        at <= text@.len(),
    ensures
        found == index_from(text@, c, at as int),
        at <= found <= text@.len(),
{
    let mut i: usize = at;
    while i < text.len() && text[i] != c
        invariant
            at <= i <= text@.len(),
            index_from(text@, c, at as int) == index_from(text@, c, i as int),
        decreases text@.len() - i,
    {
        i += 1;
    }
    i
}

/// The characters of `text` from `start` up to `end`.
pub(crate) fn slice_of(text: &Vec<char>, start: usize, end: usize) -> (part: Vec<char>)
    requires
        start <= end <= text@.len(),
    ensures
        part@ == text@.subrange(start as int, end as int),
{
    let mut part: Vec<char> = Vec::new();
    let mut i: usize = start;
    while i < end
        invariant
            start <= i <= end <= text@.len(),
            part@ == text@.subrange(start as int, i as int),
        decreases end - i,
    {
        part.push(text[i]);
        i += 1;
    }
    part
}

/// Whether `a` and `b` hold the same characters.
pub(crate) fn same_text(a: &str, b: &str) -> (same: bool)
    ensures
        same == (a@ == b@),
{
    a.to_owned() == b.to_owned()
}

/// The string made of the characters of `v` from `start` up to `end`.
pub(crate) fn string_of(v: &Vec<char>, start: usize, end: usize) -> (s: String)
    requires
        start <= end <= v@.len(),
    ensures
        s@ == v@.subrange(start as int, end as int),
{
    let mut s = String::new();
    let mut i: usize = start;
    while i < end
        invariant
            start <= i <= end <= v@.len(),
            s@ == v@.subrange(start as int, i as int),
        decreases end - i,
    {
        s.push(v[i]);
        i += 1;
    }
    s
}

/// The string made of the characters of `v`.
pub(crate) fn text_of(v: &Vec<char>) -> (s: String)
    ensures
        s@ == v@,
{
    let n: usize = v.len();
    string_of(v, 0, n)
}

} // verus!
