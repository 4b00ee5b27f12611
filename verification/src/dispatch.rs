//! From a request to the first thing that is done for it.
//!
//! The host is chosen by the `Host` header, the directives of that host are
//! scanned, and the outcome is a response, a file to serve or an address to
//! forward to.

use vstd::prelude::*;
use vstd::utf8::encode_utf8;
use crate::directive::DirectiveView;
use crate::engine::{
    Plan, PlanView, binds_root, law_no_root_bound, scan, scan_directives, stop_index,
};
use crate::files::{file_path, file_under};
use crate::hosts::{
    HostEntryView, first_wildcard, is_wildcard, lemma_named_from, lemma_wildcard_from, selected,
};
use crate::message::{Request, RequestView, Response, ResponseView, host_of};
use crate::response::{
    bare, error_response, file_response, location_name, length_name, decimal, redirect_response,
    with_header, FORBIDDEN, FOUND, INTERNAL_SERVER_ERROR, NOT_FOUND, OK,
};
use crate::proxy::{Outbound, OutboundView, outbound, passed_on};
use crate::port::{bare_name, listen_port};
use crate::server::{Server, grouped, law_host_is_served, server_on};

verus! {

/// What is to be done for a request.
#[derive(Debug, PartialEq, Eq)]
pub enum Step {
    /// Send this response.
    Reply(Response),
    /// Serve the file at `path`.
    ServeFile { path: String },
    /// Send this request to the upstream server and pass the answer back.
    Forward(Outbound),
}

/// What a [`Step`] holds, as mathematical values.
pub enum StepView {
    Reply(ResponseView),
    ServeFile { path: Seq<char> },
    Forward(OutboundView),
}

impl View for Step {
    type V = StepView;

    open spec fn view(&self) -> StepView {
        match *self {
            Step::Reply(response) => StepView::Reply(response@),
            Step::ServeFile { path } => StepView::ServeFile { path: path@ },
            Step::Forward(sent) => StepView::Forward(sent@),
        }
    }
}

/// The step that carries out `plan` for `request`.
///
/// Files are served from the bound directory, and the answer is status 500
/// where none is bound. A forwarded request keeps its method and headers.
/// A redirect is status 302 with the header `Location`. A request that no
/// directive took is answered with 404.
pub open spec fn step_for(plan: PlanView, request: RequestView) -> StepView {
    match plan {
        PlanView::ServeFiles { root: Some(dir) } => StepView::ServeFile {
            path: file_under(dir, request.path),
        },
        PlanView::ServeFiles { root: None } => StepView::Reply(bare(INTERNAL_SERVER_ERROR)),
        PlanView::Forward { url } => StepView::Forward(passed_on(request, url)),
        PlanView::Redirect { location } => StepView::Reply(
            with_header(FOUND, location_name(), encode_utf8(location)),
        ),
        PlanView::Unhandled => StepView::Reply(bare(NOT_FOUND)),
    }
}

/// The step for `request` on a listener with the hosts `hosts`: status 403
/// where no host answers to the request's `Host` header, and else what the
/// scan of that host's directives asks for.
pub open spec fn routed(hosts: Seq<HostEntryView>, request: RequestView) -> StepView {
    match selected(hosts, host_of(request.headers)) {
        Some(i) => step_for(scan(hosts[i].directives, request.path), request),
        None => StepView::Reply(bare(FORBIDDEN)),
    }
}

/// Carries out `plan` for `request` as far as no file and no upstream
/// server is needed.
pub fn begin(plan: Plan, request: &Request) -> (step: Step)
    ensures
        step@ == step_for(plan@, request@),
{
    match plan {
        Plan::ServeFiles { root: Some(dir) } => Step::ServeFile {
            path: file_path(dir.as_str(), request.path.as_str()),
        },
        Plan::ServeFiles { root: None } => Step::Reply(error_response(INTERNAL_SERVER_ERROR)),
        Plan::Forward { url } => Step::Forward(outbound(request, url)),
        Plan::Redirect { location } => Step::Reply(redirect_response(location.as_str())),
        Plan::Unhandled => Step::Reply(error_response(NOT_FOUND)),
    }
}

/// Says what is to be done for `request` on the listener `server`.
pub fn dispatch(server: &Server, request: &Request) -> (step: Step)
    ensures
        step@ == routed(server@.hosts, request@),
{
    let host = request.host();
    match server.hosts.select(host.as_str()) {
        Some(i) => {
            let entry = server.hosts.at(i);
            let plan = scan_directives(&entry.directives, request.path.as_str());
            begin(plan, request)
        },
        None => Step::Reply(error_response(FORBIDDEN)),
    }
}

/// On a listener with a wildcard host, every request is handled by the
/// directives of the first such host, whatever its `Host` header says.
pub proof fn law_wildcard_takes_every_request(
    hosts: Seq<HostEntryView>,
    wildcard: int,
    request: RequestView,
)
    requires
        0 <= wildcard < hosts.len(),
        is_wildcard(hosts[wildcard].name),
    ensures
        first_wildcard(hosts) matches Some(first) && 0 <= first <= wildcard && is_wildcard(
            hosts[first].name,
        ) && routed(hosts, request) == step_for(
            scan(hosts[first].directives, request.path),
            request,
        ),
{
    lemma_wildcard_from(hosts, 0);
}

/// On a listener without a wildcard host, a request is handled by the
/// directives of the host that its `Host` header names, and is answered
/// with status 403 where no host has that name.
pub proof fn law_host_header_decides(hosts: Seq<HostEntryView>, request: RequestView)
    requires
        forall|i: int| 0 <= i < hosts.len() ==> !is_wildcard((#[trigger] hosts[i]).name),
    ensures
        match selected(hosts, host_of(request.headers)) {
            Some(i) => 0 <= i < hosts.len() && hosts[i].name == host_of(request.headers)
                && routed(hosts, request) == step_for(
                scan(hosts[i].directives, request.path),
                request,
            ),
            None => routed(hosts, request) == StepView::Reply(bare(FORBIDDEN)),
        },
        selected(hosts, host_of(request.headers)) is None <==> forall|i: int|
            0 <= i < hosts.len() ==> (#[trigger] hosts[i]).name != host_of(request.headers),
{
    lemma_wildcard_from(hosts, 0);
    lemma_named_from(hosts, host_of(request.headers), 0);
}

/// From the configuration to the request: on the listener of its port, a
/// request that names a configured host is handled by the directives of
/// that host and of no other, where the listener has no wildcard host and
/// no later host of the configuration has the same name and port.
pub proof fn law_configured_host_is_routed(
    config: Seq<HostEntryView>,
    i: int,
    request: RequestView,
)
    requires
        0 <= i < config.len(),
        listen_port(config[i].name, config[i].directives) is Some,
        forall|j: int|
            i < j < config.len() ==> !(bare_name((#[trigger] config[j]).name) == bare_name(
                config[i].name,
            ) && listen_port(config[j].name, config[j].directives) == listen_port(
                config[i].name,
                config[i].directives,
            )),
        host_of(request.headers) == bare_name(config[i].name),
        server_on(
            grouped(config, config.len() as int),
            listen_port(config[i].name, config[i].directives)->0,
        ) matches Some(server) ==> forall|k: int|
            0 <= k < server.hosts.len() ==> !is_wildcard((#[trigger] server.hosts[k]).name),
    ensures
        server_on(
            grouped(config, config.len() as int),
            listen_port(config[i].name, config[i].directives)->0,
        ) matches Some(server) && routed(server.hosts, request) == step_for(
            scan(config[i].directives, request.path),
            request,
        ),
{
    let port = listen_port(config[i].name, config[i].directives)->0;
    law_host_is_served(config, config.len() as int, i);
    let server = server_on(grouped(config, config.len() as int), port)->0;
    lemma_wildcard_from(server.hosts, 0);
}

/// A request that comes to a `FileServer` before any `Root` has accepted
/// its path is answered with status 500, whatever the path is.
pub proof fn law_file_server_without_root(
    list: Seq<DirectiveView>,
    request: RequestView,
    k: int,
)
    requires
        0 <= k < list.len(),
        stop_index(list, request.path) == k,
        list[k] is FileServer,
        forall|j: int| 0 <= j < k ==> !binds_root(#[trigger] list[j], request.path),
    ensures
        step_for(scan(list, request.path), request) == StepView::Reply(
            bare(INTERNAL_SERVER_ERROR),
        ),
{
    law_no_root_bound(list, request.path, k);
}

/// The response to a request for a file, once it is known whether the file
/// could be opened and how many bytes it has: the head of a response that
/// carries the file, or status 404.
pub open spec fn opened(size: Option<u64>) -> ResponseView {
    match size {
        Some(n) => with_header(OK, length_name(), decimal(n as nat)),
        None => bare(NOT_FOUND),
    }
}

/// The response to a request for a file. `size` is the size of the file
/// where it could be opened, and `None` where it could not, for whatever
/// reason.
pub fn open_response(size: Option<u64>) -> (response: Response)
    ensures
        response@ == opened(size),
{
    match size {
        Some(n) => file_response(n),
        None => error_response(NOT_FOUND),
    }
}

} // verus!
