//! The scan of a host's directive list for one request.
//!
//! The directives are read in order. A `Root` whose pattern accepts the path
//! binds the directory to serve from and the scan goes on. The scan stops at
//! the first `FileServer` or `Redir`, or at the first `ReverseProxy` whose
//! pattern accepts the path. `Tls` is passed over.

use vstd::prelude::*;
use vstd::string::StringExecFns;
use crate::directive::{Directive, DirectiveView, directive_views};
use crate::pattern::{matches_pattern, pattern_matches};
use crate::redirect::{expand, expand_uri};

verus! {

/// What the scan asks for.
#[derive(Debug, PartialEq, Eq)]
pub enum Plan {
    /// Serve a file from `root`; no directory is bound where `root` is `None`.
    ServeFiles { root: Option<String> },
    /// Send the request on to `url`.
    Forward { url: String },
    /// Redirect to `location`.
    Redirect { location: String },
    /// No directive took the request.
    Unhandled,
}

/// What a [`Plan`] holds, as mathematical values.
pub enum PlanView {
    ServeFiles { root: Option<Seq<char>> },
    Forward { url: Seq<char> },
    Redirect { location: Seq<char> },
    Unhandled,
}

impl View for Plan {
    type V = PlanView;

    open spec fn view(&self) -> PlanView {
        match *self {
            Plan::ServeFiles { root } => PlanView::ServeFiles {
                root: match root {
                    Some(dir) => Some(dir@),
                    None => None,
                },
            },
            Plan::Forward { url } => PlanView::Forward { url: url@ },
            Plan::Redirect { location } => PlanView::Redirect { location: location@ },
            Plan::Unhandled => PlanView::Unhandled,
        }
    }
}

/// Whether the scan stops at `d` for a request to `path`.
pub open spec fn stops_scan(d: DirectiveView, path: Seq<char>) -> bool {
    match d {
        DirectiveView::FileServer => true,
        DirectiveView::Redir { .. } => true,
        DirectiveView::ReverseProxy { pattern, .. } => pattern_matches(pattern, path),
        _ => false,
    }
}

/// Whether `d` binds a directory for a request to `path`.
pub open spec fn binds_root(d: DirectiveView, path: Seq<char>) -> bool {
    d matches DirectiveView::Root { pattern, .. } && pattern_matches(pattern, path)
}

/// The position of the first directive from `at` on at which the scan stops,
/// or the length of the list where there is none.
pub open spec fn stop_from(list: Seq<DirectiveView>, path: Seq<char>, at: int) -> int
    decreases list.len() - at,
{
    if at < 0 || at >= list.len() {
        list.len() as int
    } else if stops_scan(list[at], path) {
        at
    } else {
        stop_from(list, path, at + 1)
    }
}

/// The position at which the scan of `list` stops, or its length.
pub open spec fn stop_index(list: Seq<DirectiveView>, path: Seq<char>) -> int {
    stop_from(list, path, 0)
}

/// The directory bound by the last `Root` among the first `upto` directives
/// whose pattern accepts `path`.
pub open spec fn root_before(list: Seq<DirectiveView>, path: Seq<char>, upto: int) -> Option<
    Seq<char>,
>
    decreases upto,
{
    if upto <= 0 || upto > list.len() {
        None
    } else if binds_root(list[upto - 1], path) {
        Some(list[upto - 1]->Root_path)
    } else {
        root_before(list, path, upto - 1)
    }
}

/// What the directive at which the scan stopped asks for.
pub open spec fn act(d: DirectiveView, path: Seq<char>, root: Option<Seq<char>>) -> PlanView {
    match d {
        DirectiveView::FileServer => PlanView::ServeFiles { root },
        DirectiveView::ReverseProxy { destination, .. } => PlanView::Forward {
            url: destination + path,
        },
        DirectiveView::Redir { destination } => PlanView::Redirect {
            location: expand(destination, path),
        },
        _ => PlanView::Unhandled,
    }
}

/// The plan for a request to `path` on a host configured with `list`.
pub open spec fn scan(list: Seq<DirectiveView>, path: Seq<char>) -> PlanView {
    let k = stop_index(list, path);
    if k < list.len() {
        act(list[k], path, root_before(list, path, k))
    } else {
        PlanView::Unhandled
    }
}

/// A position with no stop before it, and a stop at it unless it is the end
/// of the list, is where the scan stops.
pub proof fn lemma_stop_index(list: Seq<DirectiveView>, path: Seq<char>, at: int, k: int)
    requires
        0 <= at <= k <= list.len(),
        forall|j: int| at <= j < k ==> !stops_scan(#[trigger] list[j], path),
        k < list.len() ==> stops_scan(list[k], path),
    ensures
        stop_from(list, path, at) == k,
    decreases k - at,
{
    if at < k {
        lemma_stop_index(list, path, at + 1, k);
    }
}

/// The scan stops at the first directive that stops it: none before that
/// position does, and the one at it does unless the list has ended.
pub proof fn lemma_stop_from(list: Seq<DirectiveView>, path: Seq<char>, at: int)
    requires
        0 <= at <= list.len(),
    ensures
        at <= stop_from(list, path, at) <= list.len(),
        stop_from(list, path, at) < list.len() ==> stops_scan(
            list[stop_from(list, path, at)],
            path,
        ),
        forall|j: int| at <= j < stop_from(list, path, at) ==> !stops_scan(#[trigger] list[j], path),
    decreases list.len() - at,
{
    if at < list.len() && !stops_scan(list[at], path) {
        lemma_stop_from(list, path, at + 1);
    }
}

/// A `ReverseProxy` whose pattern does not accept the path never ends the
/// scan.
pub proof fn law_unmatched_proxy_is_passed(list: Seq<DirectiveView>, path: Seq<char>, i: int)
    requires
        0 <= i < list.len(),
        list[i] matches DirectiveView::ReverseProxy { pattern, .. } && !pattern_matches(
            pattern,
            path,
        ),
    ensures
        stop_index(list, path) != i,
{
    lemma_stop_from(list, path, 0);
}

/// The binding after the first `upto` directives depends on these alone.
pub proof fn lemma_root_before_agrees(
    list: Seq<DirectiveView>,
    other: Seq<DirectiveView>,
    path: Seq<char>,
    upto: int,
)
    requires
        0 <= upto <= list.len(),
        upto <= other.len(),
        forall|j: int| 0 <= j < upto ==> list[j] == other[j],
    ensures
        root_before(list, path, upto) == root_before(other, path, upto),
    decreases upto,
{
    if 0 < upto {
        lemma_root_before_agrees(list, other, path, upto - 1);
    }
}

/// Taking out a directive that binds nothing leaves the binding as it was.
pub proof fn lemma_root_before_without(
    list: Seq<DirectiveView>,
    path: Seq<char>,
    i: int,
    upto: int,
)
    requires
        0 <= i < upto <= list.len(),
        !binds_root(list[i], path),
    ensures
        root_before(list.remove(i), path, upto - 1) == root_before(list, path, upto),
    decreases upto,
{
    let shorter = list.remove(i);
    if upto == i + 1 {
        lemma_root_before_agrees(shorter, list, path, i);
    } else {
        lemma_root_before_without(list, path, i, upto - 1);
    }
}

/// A directive that neither stops the scan nor binds a directory for the
/// request can be taken out of the list and the plan stays the same. Such
/// are a `ReverseProxy` and a `Root` whose pattern does not accept the
/// path, and every `Tls`.
pub proof fn law_idle_directive_changes_nothing(
    list: Seq<DirectiveView>,
    path: Seq<char>,
    i: int,
)
    requires
        0 <= i < list.len(),
        !stops_scan(list[i], path),
        !binds_root(list[i], path),
    ensures
        scan(list.remove(i), path) == scan(list, path),
{
    let shorter = list.remove(i);
    let k = stop_index(list, path);
    lemma_stop_from(list, path, 0);
    if k < i {
        lemma_stop_index(shorter, path, 0, k);
        lemma_root_before_agrees(shorter, list, path, k);
    } else {
        lemma_stop_index(shorter, path, 0, k - 1);
        lemma_root_before_without(list, path, i, k);
    }
}

/// A `FileServer` or `Redir` takes the request when nothing before it stops
/// the scan: neither `Root` nor `Tls` does, nor a `ReverseProxy` whose
/// pattern does not accept the path.
pub proof fn law_later_terminal_fires(list: Seq<DirectiveView>, path: Seq<char>, k: int)
    requires
        0 <= k < list.len(),
        list[k] is FileServer || list[k] is Redir,
        forall|j: int|
            0 <= j < k ==> (#[trigger] list[j]) is Root || list[j] is Tls || (list[j] matches DirectiveView::ReverseProxy {
                pattern,
                ..
            } && !pattern_matches(pattern, path)),
    ensures
        stop_index(list, path) == k,
        scan(list, path) == act(list[k], path, root_before(list, path, k)),
        list[k] is FileServer ==> scan(list, path) is ServeFiles,
        list[k] is Redir ==> scan(list, path) is Redirect,
{
    lemma_stop_index(list, path, 0, k);
}

/// The directory that files are served from is the one bound by the last
/// `Root` before the `FileServer` whose pattern accepts the path.
pub proof fn law_last_root_wins(list: Seq<DirectiveView>, path: Seq<char>, r: int, k: int)
    requires
        0 <= r < k < list.len(),
        stop_index(list, path) == k,
        list[k] is FileServer,
        binds_root(list[r], path),
        forall|j: int| r < j < k ==> !binds_root(#[trigger] list[j], path),
    ensures
        scan(list, path) == (PlanView::ServeFiles { root: Some(list[r]->Root_path) }),
{
    lemma_root_before(list, path, r, k);
}

/// Where no `Root` before the `FileServer` accepts the path, no directory
/// is bound when the scan stops there.
pub proof fn law_no_root_bound(list: Seq<DirectiveView>, path: Seq<char>, k: int)
    requires
        0 <= k < list.len(),
        stop_index(list, path) == k,
        list[k] is FileServer,
        forall|j: int| 0 <= j < k ==> !binds_root(#[trigger] list[j], path),
    ensures
        scan(list, path) == (PlanView::ServeFiles { root: None }),
{
    lemma_no_root_before(list, path, k);
}

/// Directives that bind nothing leave the binding as it was.
pub proof fn lemma_root_before(list: Seq<DirectiveView>, path: Seq<char>, r: int, k: int)
    requires
        0 <= r < k <= list.len(),
        binds_root(list[r], path),
        forall|j: int| r < j < k ==> !binds_root(#[trigger] list[j], path),
    ensures
        root_before(list, path, k) == Some(list[r]->Root_path),
    decreases k - r,
{
    if r + 1 < k {
        lemma_root_before(list, path, r, k - 1);
    }
}

/// Nothing is bound where no directive binds.
pub proof fn lemma_no_root_before(list: Seq<DirectiveView>, path: Seq<char>, k: int)
    requires
        0 <= k <= list.len(),
        forall|j: int| 0 <= j < k ==> !binds_root(#[trigger] list[j], path),
    ensures
        root_before(list, path, k) is None,
    decreases k,
{
    if 0 < k {
        lemma_no_root_before(list, path, k - 1);
    }
}

/// Scans `list` for a request to `path` and says what is to be done.
pub fn scan_directives(list: &Vec<Directive>, path: &str) -> (plan: Plan)
    ensures
        plan@ == scan(directive_views(list@), path@),
{
    let ghost views = directive_views(list@);
    let mut root: Option<String> = None;
    let mut i: usize = 0;
    while i < list.len()
        invariant
            i <= list@.len(),
            views == directive_views(list@),
            forall|j: int| 0 <= j < i ==> !stops_scan(#[trigger] views[j], path@),
            match root {
                Some(dir) => Some(dir@),
                None => None,
            } == root_before(views, path@, i as int),
        decreases list@.len() - i,
    {
        match &list[i] {
            Directive::Root { pattern, path: dir } => {
                if matches_pattern(pattern, path) {
                    root = Some(dir.clone());
                }
            },
            Directive::FileServer => {
                proof {
                    lemma_stop_index(views, path@, 0, i as int);
                }
                return Plan::ServeFiles { root };
            },
            Directive::ReverseProxy { pattern, destination } => {
                if matches_pattern(pattern, path) {
                    proof {
                        lemma_stop_index(views, path@, 0, i as int);
                    }
                    let mut url = destination.clone();
                    url.append(path);
                    return Plan::Forward { url };
                }
            },
            Directive::Redir { destination } => {
                proof {
                    lemma_stop_index(views, path@, 0, i as int);
                }
                return Plan::Redirect { location: expand_uri(destination, path) };
            },
            Directive::Tls { .. } => {},
        }
        i += 1;
    }
    proof {
        lemma_stop_index(views, path@, 0, list@.len() as int);
    }
    Plan::Unhandled
}

} // verus!
