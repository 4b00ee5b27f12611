//! Request routing for a small web server with virtual hosts.
//!
//! A configuration gives each host an ordered list of directives. The hosts
//! are divided among listeners by port. For each request the listener picks
//! the host by the `Host` header, scans that host's directives and serves a
//! file, forwards the request, redirects, or answers with an error status.
//!
//! The crate decides and computes; it opens no socket and no file. A caller
//! owns the connections, the files and the upstream exchange, and asks the
//! functions here what to do with what it has read:
//!
//! - [`config`] reads the directives of each host from the parsed
//!   configuration, and [`server`] divides the hosts among listeners;
//! - [`acceptor`] says what a listener binds and what it does with a new
//!   connection;
//! - [`framing`] and [`request`] tell where the head of a request ends and
//!   read the request from it;
//! - [`dispatch`] says what is to be done for a request, with [`hosts`],
//!   [`engine`], [`pattern`], [`redirect`] and [`files`] below it;
//! - [`proxy`] and [`response`] make the responses, and [`wire`] turns them
//!   into bytes.

pub mod text;
pub mod pattern;
pub mod directive;
pub mod redirect;
pub mod engine;
pub mod hosts;
pub mod message;
pub mod files;
pub mod response;
pub mod proxy;
pub mod framing;
pub mod port;
pub mod error;
pub mod server;
pub mod dispatch;
pub mod config;
pub mod request;
pub mod acceptor;
pub mod wire;

pub use directive::Directive;
pub use hosts::HostTable;
pub use message::{Header, Request, Response};
pub use pattern::matches_pattern;
pub use server::Server;
