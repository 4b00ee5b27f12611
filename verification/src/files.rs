//! Where a request path lies on disk.
//!
//! Paths are joined as text, with `/` between the parts.

use vstd::prelude::*;
use crate::text::{chars_of, text_of};

verus! {

/// `path` without the slashes that it begins with.
pub open spec fn trim_slashes(path: Seq<char>) -> Seq<char>
    decreases path.len(),
{
    if path.len() > 0 && path[0] == '/' {
        trim_slashes(path.skip(1))
    } else {
        path
    }
}

/// `rest` below the directory `base`: one `/` stands between the two unless
/// `base` is empty or ends in one already.
pub open spec fn join(base: Seq<char>, rest: Seq<char>) -> Seq<char> {
    if base.len() == 0 || base.last() == '/' {
        base + rest
    } else {
        base + seq!['/'] + rest
    }
}

/// The name of the file that is served for a directory.
pub open spec fn index_name() -> Seq<char> {
    seq!['i', 'n', 'd', 'e', 'x', '.', 'h', 't', 'm', 'l']
}

/// The file that a request to `uri` asks for under the directory `root`.
pub open spec fn file_under(root: Seq<char>, uri: Seq<char>) -> Seq<char> {
    join(root, trim_slashes(uri))
}

/// Appends `rest` to `base` as [`join`] says.
fn join_chars(base: &Vec<char>, rest: &Vec<char>, from: usize) -> (joined: String)
    requires
        from <= rest@.len(),
    ensures
        joined@ == join(base@, rest@.skip(from as int)),
{
    let mut out: Vec<char> = Vec::new();
    let mut i: usize = 0;
    while i < base.len()
        invariant
            i <= base@.len(),
            out@ == base@.take(i as int),
        decreases base@.len() - i,
    {
        out.push(base[i]);
        i += 1;
    }
    if base.len() > 0 && base[base.len() - 1] != '/' {
        out.push('/');
    }
    let ghost head = out@;
    let mut k: usize = from;
    while k < rest.len()
        invariant
            from <= k <= rest@.len(),
            out@ == head + rest@.subrange(from as int, k as int),
        decreases rest@.len() - k,
    {
        out.push(rest[k]);
        k += 1;
    }
    text_of(&out)
}

/// The path of the file that a request to `uri` asks for when files are
/// served from `root`: `uri` without its leading slashes, below `root`.
pub fn file_path(root: &str, uri: &str) -> (path: String)
    ensures
        path@ == file_under(root@, uri@),
{
    let base = chars_of(root);
    let rest = chars_of(uri);
    let mut from: usize = 0;
    assert(rest@.skip(0) =~= rest@);
    while from < rest.len() && rest[from] == '/'
        invariant
            from <= rest@.len(),
            trim_slashes(rest@) == trim_slashes(rest@.skip(from as int)),
        decreases rest@.len() - from,
    {
        assert(rest@.skip(from as int).skip(1) =~= rest@.skip(from + 1));
        from += 1;
    }
    join_chars(&base, &rest, from)
}

/// The path of the file that is served when `dir` is a directory:
/// `index.html` below it.
pub fn index_path(dir: &str) -> (path: String)
    ensures
        path@ == join(dir@, index_name()),
{
    let base = chars_of(dir);
    let name = chars_of("index.html");
    proof {
        reveal_strlit("index.html");
    }
    join_chars(&base, &name, 0)
}

/// The file that is opened for `path`: `index.html` below it where it is a
/// directory, and `path` itself where it is none.
pub open spec fn target_of(path: Seq<char>, is_directory: bool) -> Seq<char> {
    if is_directory {
        join(path, index_name())
    } else {
        path
    }
}

/// The path of the file to open for `path`, once it is known whether
/// `path` is a directory.
pub fn resolve(path: String, is_directory: bool) -> (target: String)
    ensures
        target@ == target_of(path@, is_directory),
{
    if is_directory {
        index_path(path.as_str())
    } else {
        path
    }
}

} // verus!
