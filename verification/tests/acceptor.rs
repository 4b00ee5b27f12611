use cblt::acceptor::{after_handshake, bind_address, Admission};
use cblt::hosts::HostTable;
use cblt::server::Server;

fn server(cert: Option<&str>, key: Option<&str>) -> Server {
    Server {
        port: 443,
        hosts: HostTable::new(),
        cert: cert.map(|c| c.to_string()),
        key: key.map(|k| k.to_string()),
    }
}

#[test]
fn listener_binds_every_address() {
    assert_eq!(bind_address(80), "0.0.0.0:80");
    assert_eq!(bind_address(443), "0.0.0.0:443");
    assert_eq!(bind_address(0), "0.0.0.0:0");
    assert_eq!(bind_address(65535), "0.0.0.0:65535");
}

#[test]
fn server_with_identity_shakes_hands_first() {
    let s = server(Some("c.pem"), Some("k.pem"));
    assert_eq!(s.tls_paths(), Some(("c.pem", "k.pem")));
    assert_eq!(s.on_accept(), Admission::Handshake);
}

#[test]
fn server_without_identity_serves_plainly() {
    let s = server(None, None);
    assert_eq!(s.tls_paths(), None);
    assert_eq!(s.on_accept(), Admission::Serve);
}

#[test]
fn half_an_identity_is_none() {
    assert_eq!(server(Some("c.pem"), None).tls_paths(), None);
    assert_eq!(server(None, Some("k.pem")).on_accept(), Admission::Serve);
}

#[test]
fn failed_handshake_drops_the_connection() {
    assert_eq!(after_handshake(true), Admission::Serve);
    assert_eq!(after_handshake(false), Admission::Drop);
}
