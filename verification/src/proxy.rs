//! What comes back from an upstream server, and what is sent on for it.

use vstd::prelude::*;
use crate::message::{
    Header, HeaderView, Request, RequestView, Response, ResponseView, clone_headers, header_views,
};
use crate::response::{bare, error_response, BAD_GATEWAY};

verus! {

/// The request that is sent to the upstream server. No body goes with it.
#[derive(Debug, PartialEq, Eq)]
pub struct Outbound {
    pub method: String,
    pub url: String,
    pub headers: Vec<Header>,
}

/// What an [`Outbound`] holds, as mathematical values.
pub struct OutboundView {
    pub method: Seq<char>,
    pub url: Seq<char>,
    pub headers: Seq<HeaderView>,
}

impl View for Outbound {
    type V = OutboundView;

    open spec fn view(&self) -> OutboundView {
        OutboundView {
            method: self.method@,
            url: self.url@,
            headers: header_views(self.headers@),
        }
    }
}

/// The request that is sent to `url` for `request`: with the method and
/// all the headers of `request`.
pub open spec fn passed_on(request: RequestView, url: Seq<char>) -> OutboundView {
    OutboundView { method: request.method, url, headers: request.headers }
}

/// Makes the request that is sent to `url` for `request`.
pub fn outbound(request: &Request, url: String) -> (sent: Outbound)
    ensures
        sent@ == passed_on(request@, url@),
{
    Outbound { method: request.method.clone(), url, headers: clone_headers(&request.headers) }
}

/// How the exchange with the upstream server ended.
#[derive(Debug, PartialEq, Eq)]
pub enum Upstream {
    /// No answer came: the connection, the handshake or the exchange failed.
    Failed,
    /// The upstream server answered. `body` is `None` where the head came
    /// and the body could not be read to its end.
    Answered { status: u16, headers: Vec<Header>, body: Option<Vec<u8>> },
}

/// The response that is sent on for an answer of the upstream server:
/// its status and headers, and its body where that was read.
pub open spec fn mirrored(status: u16, headers: Seq<Header>, body: Option<Vec<u8>>) -> ResponseView {
    ResponseView {
        status,
        headers: header_views(headers),
        body: match body {
            Some(bytes) => bytes@,
            None => Seq::empty(),
        },
    }
}

/// The response for a forwarded request: the upstream answer where one came,
/// and status 502 where none did.
pub fn proxy_response(upstream: Upstream) -> (response: Response)
    ensures
        response@ == match upstream {
            Upstream::Failed => bare(BAD_GATEWAY),
            Upstream::Answered { status, headers, body } => mirrored(status, headers@, body),
        },
{
    match upstream {
        Upstream::Failed => error_response(BAD_GATEWAY),
        Upstream::Answered { status, headers, body } => {
            let body = match body {
                Some(bytes) => bytes,
                None => Vec::new(),
            };
            Response { status, headers, body }
        },
    }
}

} // verus!
