//! Listeners: the hosts that share a port, and how a configuration is
//! divided among them.

use std::collections::HashMap;
use vstd::prelude::*;
use vstd::std_specs::hash::group_hash_axioms;
use crate::directive::{Directive, DirectiveView, directive_views, clone_directives};
use crate::error::{ConfigError, ConfigErrorView};
use crate::hosts::{
    HostEntryView, HostTable, directives_of, distinct_names,
    law_put_keeps_names_distinct, law_put_keeps_others, law_put_then_found, put,
};
use crate::port::{bare_name, host_address, listen_port, pair_view, tls_identity, tls_of};

verus! {

/// The virtual hosts that share one port, and the one certificate and key
/// that the port is served with.
#[derive(Debug, PartialEq, Eq)]
pub struct Server {
    pub port: u16,
    pub hosts: HostTable,
    pub cert: Option<String>,
    pub key: Option<String>,
}

/// What a [`Server`] holds, as mathematical values.
pub struct ServerView {
    pub port: u16,
    pub hosts: Seq<HostEntryView>,
    pub cert: Option<Seq<char>>,
    pub key: Option<Seq<char>>,
}

/// The view of a path that may be missing.
pub open spec fn path_view(path: Option<String>) -> Option<Seq<char>> {
    match path {
        Some(p) => Some(p@),
        None => None,
    }
}

impl View for Server {
    type V = ServerView;

    open spec fn view(&self) -> ServerView {
        ServerView {
            port: self.port,
            hosts: self.hosts@,
            cert: path_view(self.cert),
            key: path_view(self.key),
        }
    }
}

/// The views of the servers of a map, under the same ports.
pub open spec fn server_views(servers: Map<u16, Server>) -> Map<u16, ServerView> {
    servers.map_values(|s: Server| s@)
}

/// Each server stands under the port on which it listens.
pub open spec fn keyed_by_port(servers: Map<u16, ServerView>) -> bool {
    forall|port: u16| servers.contains_key(port) ==> (#[trigger] servers[port]).port == port
}

/// `server` after a host was added to it: the host is put into its table,
/// and where the host has a certificate and key, these take the place of
/// the ones that the server had.
pub open spec fn joined(
    server: ServerView,
    host: HostEntryView,
    tls: Option<(Seq<char>, Seq<char>)>,
) -> ServerView {
    ServerView {
        port: server.port,
        hosts: put(server.hosts, host),
        cert: match tls {
            Some((cert, _)) => Some(cert),
            None => server.cert,
        },
        key: match tls {
            Some((_, key)) => Some(key),
            None => server.key,
        },
    }
}

/// The certificate and key that `server` is served with, where it has both.
pub open spec fn identity(server: ServerView) -> Option<(Seq<char>, Seq<char>)> {
    match (server.cert, server.key) {
        (Some(cert), Some(key)) => Some((cert, key)),
        _ => None,
    }
}

/// The server that listens on `port` for nobody yet.
pub open spec fn vacant(port: u16) -> ServerView {
    ServerView { port, hosts: Seq::empty(), cert: None, key: None }
}

/// The server that listens on `port`.
pub open spec fn server_on(servers: Map<u16, ServerView>, port: u16) -> Option<ServerView> {
    if servers.contains_key(port) {
        Some(servers[port])
    } else {
        None
    }
}

/// The servers after `host` was placed on `port`: it joins the server that
/// listens there, or a new server.
pub open spec fn placed(
    servers: Map<u16, ServerView>,
    port: u16,
    host: HostEntryView,
    tls: Option<(Seq<char>, Seq<char>)>,
) -> Map<u16, ServerView> {
    servers.insert(
        port,
        joined(
            match server_on(servers, port) {
                Some(server) => server,
                None => vacant(port),
            },
            host,
            tls,
        ),
    )
}

/// The host of the configuration entry `entry` as it stands in a server's
/// table: under its name without the port.
pub open spec fn hosted(entry: HostEntryView) -> HostEntryView {
    HostEntryView { name: bare_name(entry.name), directives: entry.directives }
}

/// The servers for the first `upto` entries of `config`, each entry placed
/// in turn. An entry whose port cannot be told is left out.
pub open spec fn grouped(config: Seq<HostEntryView>, upto: int) -> Map<u16, ServerView>
    decreases upto,
{
    if upto <= 0 || upto > config.len() {
        Map::empty()
    } else {
        let entry = config[upto - 1];
        let before = grouped(config, upto - 1);
        match listen_port(entry.name, entry.directives) {
            Some(port) => placed(before, port, hosted(entry), tls_of(entry.directives)),
            None => before,
        }
    }
}

/// The position of the first entry of `config` from `at` on whose port
/// cannot be told, or the length of `config` where there is none.
pub open spec fn invalid_from(config: Seq<HostEntryView>, at: int) -> int
    decreases config.len() - at,
{
    if at < 0 || at >= config.len() {
        config.len() as int
    } else if listen_port(config[at].name, config[at].directives) is None {
        at
    } else {
        invalid_from(config, at + 1)
    }
}

/// The directives under which the host `name` is served on `port`.
pub open spec fn served(servers: Map<u16, ServerView>, port: u16, name: Seq<char>) -> Option<
    Seq<DirectiveView>,
> {
    match server_on(servers, port) {
        Some(server) => directives_of(server.hosts, name),
        None => None,
    }
}

/// After a host was placed on `port`, the server on that port is the one
/// that was there, or a new one, with the host added.
pub proof fn law_placed_on_port(
    servers: Map<u16, ServerView>,
    port: u16,
    host: HostEntryView,
    tls: Option<(Seq<char>, Seq<char>)>,
)
    ensures
        server_on(placed(servers, port, host, tls), port) == Some(
            joined(
                match server_on(servers, port) {
                    Some(server) => server,
                    None => vacant(port),
                },
                host,
                tls,
            ),
        ),
{
}

/// Placing a host on one port leaves the servers on other ports as they
/// were.
pub proof fn law_placed_keeps_others(
    servers: Map<u16, ServerView>,
    port: u16,
    host: HostEntryView,
    tls: Option<(Seq<char>, Seq<char>)>,
    other: u16,
)
    requires
        other != port,
    ensures
        server_on(placed(servers, port, host, tls), other) == server_on(servers, other),
{
}

/// Each server of a configuration listens on the port under which it
/// stands, so that no two of them listen on the same port.
pub proof fn law_one_server_per_port(config: Seq<HostEntryView>, upto: int)
    ensures
        keyed_by_port(grouped(config, upto)),
        forall|p: u16, q: u16|
            grouped(config, upto).contains_key(p) && grouped(config, upto).contains_key(q) && p
                != q ==> (#[trigger] grouped(config, upto)[p]).port != (#[trigger] grouped(
                config,
                upto,
            )[q]).port,
    decreases upto,
{
    if 0 < upto <= config.len() {
        law_one_server_per_port(config, upto - 1);
    }
}

/// No server of a configuration has two hosts of the same name.
pub proof fn law_one_entry_per_host(config: Seq<HostEntryView>, upto: int, port: u16)
    requires
        grouped(config, upto).contains_key(port),
    ensures
        distinct_names(grouped(config, upto)[port].hosts),
    decreases upto,
{
    if 0 < upto <= config.len() {
        let entry = config[upto - 1];
        let before = grouped(config, upto - 1);
        match listen_port(entry.name, entry.directives) {
            Some(place) => {
                if port == place {
                    if before.contains_key(port) {
                        law_one_entry_per_host(config, upto - 1, port);
                        law_put_keeps_names_distinct(before[port].hosts, hosted(entry));
                    } else {
                        law_put_keeps_names_distinct(Seq::empty(), hosted(entry));
                    }
                } else {
                    law_one_entry_per_host(config, upto - 1, port);
                }
            },
            None => {
                law_one_entry_per_host(config, upto - 1, port);
            },
        }
    }
}

/// A configured host is served on its port under its name without the
/// port, with its own directives, unless a later host of the configuration
/// has the same name and port and so takes its place.
pub proof fn law_host_is_served(config: Seq<HostEntryView>, upto: int, i: int)
    requires
        0 <= i < upto <= config.len(),
        listen_port(config[i].name, config[i].directives) is Some,
        forall|j: int|
            i < j < upto ==> !(bare_name((#[trigger] config[j]).name) == bare_name(config[i].name)
                && listen_port(config[j].name, config[j].directives) == listen_port(
                config[i].name,
                config[i].directives,
            )),
    ensures
        served(
            grouped(config, upto),
            listen_port(config[i].name, config[i].directives)->0,
            bare_name(config[i].name),
        ) == Some(config[i].directives),
    decreases upto,
{
    let port = listen_port(config[i].name, config[i].directives)->0;
    let name = bare_name(config[i].name);
    let entry = config[upto - 1];
    let before = grouped(config, upto - 1);
    if i == upto - 1 {
        law_placed_on_port(before, port, hosted(entry), tls_of(entry.directives));
        let was = match server_on(before, port) {
            Some(server) => server,
            None => vacant(port),
        };
        law_put_then_found(was.hosts, hosted(entry));
    } else {
        law_host_is_served(config, upto - 1, i);
        match listen_port(entry.name, entry.directives) {
            Some(other) => {
                if other == port {
                    law_placed_on_port(before, port, hosted(entry), tls_of(entry.directives));
                    law_put_keeps_others(server_on(before, port)->0.hosts, hosted(entry), name);
                } else {
                    law_placed_keeps_others(
                        before,
                        other,
                        hosted(entry),
                        tls_of(entry.directives),
                        port,
                    );
                }
            },
            None => {},
        }
    }
}

/// Every host that a server serves is a host of the configuration: placed
/// on that port, of that name without its port, with those directives.
pub proof fn law_served_host_is_configured(
    config: Seq<HostEntryView>,
    upto: int,
    port: u16,
    name: Seq<char>,
)
    requires
        served(grouped(config, upto), port, name) is Some,
    ensures
        exists|i: int|
            0 <= i < upto && i < config.len() && bare_name((#[trigger] config[i]).name) == name
                && listen_port(config[i].name, config[i].directives) == Some(port)
                && served(grouped(config, upto), port, name) == Some(config[i].directives),
    decreases upto,
{
    if 0 < upto <= config.len() {
        let entry = config[upto - 1];
        let before = grouped(config, upto - 1);
        match listen_port(entry.name, entry.directives) {
            Some(other) => {
                if other == port {
                    law_placed_on_port(before, port, hosted(entry), tls_of(entry.directives));
                    let was = match server_on(before, port) {
                        Some(server) => server,
                        None => vacant(port),
                    };
                    if bare_name(entry.name) == name {
                        law_put_then_found(was.hosts, hosted(entry));
                    } else {
                        law_put_keeps_others(was.hosts, hosted(entry), name);
                        law_served_host_is_configured(config, upto - 1, port, name);
                    }
                } else {
                    law_placed_keeps_others(
                        before,
                        other,
                        hosted(entry),
                        tls_of(entry.directives),
                        port,
                    );
                    law_served_host_is_configured(config, upto - 1, port, name);
                }
            },
            None => {
                law_served_host_is_configured(config, upto - 1, port, name);
            },
        }
    }
}

/// A server has the certificate and key of the last host on its port that
/// brings any: what an earlier host brought is replaced, and a host that
/// brings none changes nothing.
pub proof fn law_last_identity_wins(config: Seq<HostEntryView>, upto: int, i: int)
    requires
        0 <= i < upto <= config.len(),
        listen_port(config[i].name, config[i].directives) is Some,
        tls_of(config[i].directives) is Some,
        forall|j: int|
            i < j < upto ==> !(listen_port(
                (#[trigger] config[j]).name,
                config[j].directives,
            ) == listen_port(config[i].name, config[i].directives) && tls_of(config[j].directives)
                is Some),
    ensures
        server_on(grouped(config, upto), listen_port(config[i].name, config[i].directives)->0)
            matches Some(server) && identity(server) == tls_of(config[i].directives),
    decreases upto,
{
    let port = listen_port(config[i].name, config[i].directives)->0;
    let entry = config[upto - 1];
    let before = grouped(config, upto - 1);
    if i == upto - 1 {
        law_placed_on_port(before, port, hosted(entry), tls_of(entry.directives));
    } else {
        law_last_identity_wins(config, upto - 1, i);
        match listen_port(entry.name, entry.directives) {
            Some(other) => {
                if other == port {
                    law_placed_on_port(before, port, hosted(entry), tls_of(entry.directives));
                } else {
                    law_placed_keeps_others(
                        before,
                        other,
                        hosted(entry),
                        tls_of(entry.directives),
                        port,
                    );
                }
            },
            None => {},
        }
    }
}

/// A server on whose port no host brings a certificate has none.
pub proof fn law_no_identity_without_tls(config: Seq<HostEntryView>, upto: int, port: u16)
    requires
        forall|j: int|
            0 <= j < upto && j < config.len() ==> !(listen_port(
                (#[trigger] config[j]).name,
                config[j].directives,
            ) == Some(port) && tls_of(config[j].directives) is Some),
    ensures
        server_on(grouped(config, upto), port) matches Some(server) ==> server.cert is None
            && server.key is None && identity(server) is None,
    decreases upto,
{
    if 0 < upto <= config.len() {
        let entry = config[upto - 1];
        let before = grouped(config, upto - 1);
        law_no_identity_without_tls(config, upto - 1, port);
        match listen_port(entry.name, entry.directives) {
            Some(other) => {
                if other == port {
                    law_placed_on_port(before, port, hosted(entry), tls_of(entry.directives));
                } else {
                    law_placed_keeps_others(
                        before,
                        other,
                        hosted(entry),
                        tls_of(entry.directives),
                        port,
                    );
                }
            },
            None => {},
        }
    }
}

/// Places a host on `port`: in the server that listens there, or in a new
/// one.
fn place(
    servers: &mut HashMap<u16, Server>,
    port: u16,
    name: String,
    directives: Vec<Directive>,
    tls: Option<(String, String)>,
)
    ensures
        server_views(final(servers)@) == placed(
            server_views(old(servers)@),
            port,
            HostEntryView { name: name@, directives: directive_views(directives@) },
            pair_view(tls),
        ),
{
    broadcast use group_hash_axioms;

    let mut server = match servers.remove(&port) {
        Some(server) => server,
        None => Server { port, hosts: HostTable::new(), cert: None, key: None },
    };
    server.hosts.insert(name, directives);
    if let Some((cert, key)) = tls {
        server.cert = Some(cert);
        server.key = Some(key);
    }
    servers.insert(port, server);
}

/// Divides the hosts of `config` among servers, one server for each port,
/// and gives the servers by port.
///
/// The hosts are taken in the order of `config`. Each is placed on the port
/// that its name carries, or else on 443 where it has a `Tls` directive and
/// on 80 where it has none, under its name without the port. Where a host
/// has a certificate and key, they become those of its server, in the place
/// of any that an earlier host brought.
///
/// Fails on the first host whose name carries what is no port number.
pub fn bootstrap(config: &HostTable) -> (servers: Result<HashMap<u16, Server>, ConfigError>)
    ensures
        match servers {
            Ok(map) => invalid_from(config@, 0) == config@.len() && server_views(map@)
                == grouped(config@, config@.len() as int),
            Err(error) => invalid_from(config@, 0) < config@.len() && error@
                == (ConfigErrorView::InvalidPort { host: config@[invalid_from(config@, 0)].name }),
        },
{
    let mut servers: HashMap<u16, Server> = HashMap::new();
    let n: usize = config.len();
    let mut i: usize = 0;
    while i < n
        invariant
            n == config@.len(),
            i <= n,
            invalid_from(config@, 0) == invalid_from(config@, i as int),
            server_views(servers@) == grouped(config@, i as int),
        decreases n - i,
    {
        let entry = config.at(i);
        match host_address(entry.name.as_str(), &entry.directives) {
            Some(address) => {
                let tls = tls_identity(&entry.directives);
                let directives = clone_directives(&entry.directives);
                place(&mut servers, address.port, address.name, directives, tls);
            },
            None => {
                return Err(ConfigError::InvalidPort { host: entry.name.clone() });
            },
        }
        i += 1;
    }
    Ok(servers)
}

} // verus!
