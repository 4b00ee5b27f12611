//! The routing rules that a host is configured with.

use vstd::prelude::*;

verus! {

/// One routing rule of a virtual host.
#[derive(Debug, PartialEq, Eq)]
pub enum Directive {
    /// Binds a path pattern to a directory; answers nothing by itself.
    Root { pattern: String, path: String },
    /// Serves files from the directory bound last.
    FileServer,
    /// Forwards the requests whose path the pattern accepts.
    ReverseProxy { pattern: String, destination: String },
    /// Redirects; `{uri}` in the destination stands for the request path.
    Redir { destination: String },
    /// The certificate and key of the host; read when listeners are set up.
    Tls { cert: String, key: String },
}

/// What a [`Directive`] holds, as mathematical values.
pub enum DirectiveView {
    Root { pattern: Seq<char>, path: Seq<char> },
    FileServer,
    ReverseProxy { pattern: Seq<char>, destination: Seq<char> },
    Redir { destination: Seq<char> },
    Tls { cert: Seq<char>, key: Seq<char> },
}

impl View for Directive {
    type V = DirectiveView;

    open spec fn view(&self) -> DirectiveView {
        match *self {
            Directive::Root { pattern, path } => DirectiveView::Root {
                pattern: pattern@,
                path: path@,
            },
            Directive::FileServer => DirectiveView::FileServer,
            Directive::ReverseProxy { pattern, destination } => DirectiveView::ReverseProxy {
                pattern: pattern@,
                destination: destination@,
            },
            Directive::Redir { destination } => DirectiveView::Redir { destination: destination@ },
            Directive::Tls { cert, key } => DirectiveView::Tls { cert: cert@, key: key@ },
        }
    }
}

impl Clone for Directive {
    fn clone(&self) -> (copy: Self)
        ensures
            copy@ == self@,
    {
        match self {
            Directive::Root { pattern, path } => Directive::Root {
                pattern: pattern.clone(),
                path: path.clone(),
            },
            Directive::FileServer => Directive::FileServer,
            Directive::ReverseProxy { pattern, destination } => Directive::ReverseProxy {
                pattern: pattern.clone(),
                destination: destination.clone(),
            },
            Directive::Redir { destination } => Directive::Redir {
                destination: destination.clone(),
            },
            Directive::Tls { cert, key } => Directive::Tls { cert: cert.clone(), key: key.clone() },
        }
    }
}

/// The views of a list of directives, in the same order.
pub open spec fn directive_views(list: Seq<Directive>) -> Seq<DirectiveView> {
    list.map_values(|d: Directive| d@)
}

/// A copy of `list` with the same directives in the same order.
pub fn clone_directives(list: &Vec<Directive>) -> (copy: Vec<Directive>)
    ensures
        directive_views(copy@) == directive_views(list@),
{
    let mut copy: Vec<Directive> = Vec::new();
    let mut i: usize = 0;
    while i < list.len()
        invariant
            i <= list@.len(),
            copy@.len() == i,
            forall|k: int| 0 <= k < i ==> copy@[k]@ == list@[k]@,
        decreases list@.len() - i,
    {
        copy.push(list[i].clone());
        i += 1;
    }
    copy
}

} // verus!
