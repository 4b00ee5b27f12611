use cblt::message::{is_host_name, text_of_value, Header, Request};

fn header(name: &str, value: &[u8]) -> Header {
    Header { name: name.to_string(), value: value.to_vec() }
}

fn request(headers: Vec<Header>) -> Request {
    Request { method: "GET".to_string(), path: "/".to_string(), headers }
}

#[test]
fn host_is_read_from_the_host_header() {
    let r = request(vec![header("Accept", b"*/*"), header("Host", b"example.com")]);
    assert_eq!(r.host(), "example.com");
}

#[test]
fn host_is_empty_without_the_header() {
    assert_eq!(request(Vec::new()).host(), "");
    assert_eq!(request(vec![header("Accept", b"*/*")]).host(), "");
}

#[test]
fn header_name_is_matched_without_case() {
    for name in ["host", "Host", "HOST", "hOsT"] {
        assert_eq!(request(vec![header(name, b"a.test")]).host(), "a.test");
    }
    for name in ["hosts", "hos", "x-host", " host", "ho st"] {
        assert_eq!(request(vec![header(name, b"a.test")]).host(), "");
    }
}

#[test]
fn first_host_header_is_taken() {
    let r = request(vec![header("host", b"one.test"), header("Host", b"two.test")]);
    assert_eq!(r.host(), "one.test");
}

#[test]
fn host_with_port_is_kept_whole() {
    let r = request(vec![header("Host", b"example.com:8080")]);
    assert_eq!(r.host(), "example.com:8080");
}

#[test]
fn value_that_is_no_visible_text_reads_as_empty() {
    assert_eq!(request(vec![header("Host", b"a\x00b")]).host(), "");
    assert_eq!(request(vec![header("Host", "é.test".as_bytes())]).host(), "");
    assert_eq!(request(vec![header("Host", b"a\x7fb")]).host(), "");
    assert_eq!(request(vec![header("Host", b"a\nb")]).host(), "");
}

#[test]
fn visible_text_is_kept_byte_for_byte() {
    assert_eq!(text_of_value(&b"a b\tc~!".to_vec()), "a b\tc~!");
    assert_eq!(text_of_value(&Vec::new()), "");
    assert_eq!(text_of_value(&vec![31u8]), "");
    assert_eq!(text_of_value(&vec![32u8]), " ");
    assert_eq!(text_of_value(&vec![126u8]), "~");
    assert_eq!(text_of_value(&vec![127u8]), "");
    assert_eq!(text_of_value(&vec![b'a', 200]), "");
}

#[test]
fn host_name_is_four_letters() {
    assert!(is_host_name("Host"));
    assert!(is_host_name("hOST"));
    assert!(!is_host_name(""));
    assert!(!is_host_name("Hose"));
    assert!(!is_host_name("Host "));
}
