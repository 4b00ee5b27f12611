use cblt::directive::Directive;
use cblt::port::{host_address, parse_port, tls_identity, HostAddress, HTTPS_PORT, HTTP_PORT};

fn tls(cert: &str, key: &str) -> Directive {
    Directive::Tls { cert: cert.to_string(), key: key.to_string() }
}

fn address(name: &str, port: u16) -> Option<HostAddress> {
    Some(HostAddress { name: name.to_string(), port })
}

#[test]
fn default_ports() {
    assert_eq!(HTTP_PORT, 80);
    assert_eq!(HTTPS_PORT, 443);
}

#[test]
fn port_is_decimal_digits() {
    assert_eq!(parse_port("80"), Some(80));
    assert_eq!(parse_port("0"), Some(0));
    assert_eq!(parse_port("8080"), Some(8080));
    assert_eq!(parse_port("65535"), Some(65535));
    assert_eq!(parse_port("00080"), Some(80));
    assert_eq!(parse_port("+443"), Some(443));
}

#[test]
fn what_is_no_number_is_no_port() {
    assert_eq!(parse_port(""), None);
    assert_eq!(parse_port("+"), None);
    assert_eq!(parse_port("-1"), None);
    assert_eq!(parse_port("++1"), None);
    assert_eq!(parse_port("80a"), None);
    assert_eq!(parse_port("a80"), None);
    assert_eq!(parse_port(" 80"), None);
    assert_eq!(parse_port("80 "), None);
    assert_eq!(parse_port("8 0"), None);
    assert_eq!(parse_port("http"), None);
    assert_eq!(parse_port("٨٠"), None);
}

#[test]
fn numbers_above_the_range_are_no_port() {
    assert_eq!(parse_port("65536"), None);
    assert_eq!(parse_port("70000"), None);
    assert_eq!(parse_port("99999999999999999999999999"), None);
    assert_eq!(parse_port("4294967376"), None);
    assert_eq!(parse_port("655350"), None);
}

#[test]
fn port_parsing_agrees_with_std() {
    for text in ["0", "1", "80", "+80", "-80", "65535", "65536", "000001", "", "+", "1e3", "0x50", "١"] {
        assert_eq!(parse_port(text), text.parse::<u16>().ok());
    }
}

#[test]
fn host_without_tls_listens_on_80() {
    assert_eq!(host_address("example.com", &vec![Directive::FileServer]), address("example.com", 80));
    assert_eq!(host_address("example.com", &Vec::new()), address("example.com", 80));
}

#[test]
fn host_with_tls_listens_on_443() {
    let list = vec![Directive::FileServer, tls("c.pem", "k.pem")];
    assert_eq!(host_address("example.com", &list), address("example.com", 443));
}

#[test]
fn written_port_wins_over_tls() {
    let list = vec![tls("c.pem", "k.pem")];
    assert_eq!(host_address("example.com:8443", &list), address("example.com", 8443));
    assert_eq!(host_address("example.com:80", &list), address("example.com", 80));
    assert_eq!(host_address("example.com:8080", &Vec::new()), address("example.com", 8080));
}

#[test]
fn port_stands_between_the_first_two_colons() {
    assert_eq!(host_address("a:80:90", &Vec::new()), address("a", 80));
    assert_eq!(host_address(":8080", &Vec::new()), address("", 8080));
    assert_eq!(host_address("*:8080", &Vec::new()), address("*", 8080));
}

#[test]
fn port_that_is_no_number_gives_no_address() {
    assert_eq!(host_address("example.com:http", &Vec::new()), None);
    assert_eq!(host_address("example.com:", &Vec::new()), None);
    assert_eq!(host_address("example.com::80", &Vec::new()), None);
    assert_eq!(host_address("example.com:65536", &vec![tls("c", "k")]), None);
    assert_eq!(host_address("[::1]:80", &Vec::new()), None);
}

#[test]
fn last_tls_directive_gives_the_identity() {
    assert_eq!(tls_identity(&Vec::new()), None);
    assert_eq!(tls_identity(&vec![Directive::FileServer]), None);
    let list = vec![tls("a.pem", "a.key"), Directive::FileServer, tls("b.pem", "b.key")];
    assert_eq!(tls_identity(&list), Some(("b.pem".to_string(), "b.key".to_string())));
    let list = vec![tls("a.pem", "a.key"), Directive::FileServer];
    assert_eq!(tls_identity(&list), Some(("a.pem".to_string(), "a.key".to_string())));
}
