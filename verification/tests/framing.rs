use cblt::framing::{accept_head, ends_with_terminator, frame_step, Framing};
use cblt::message::Response;

fn bad_request() -> Response {
    Response { status: 400, headers: Vec::new(), body: Vec::new() }
}

#[test]
fn terminator_is_four_bytes_at_the_end() {
    assert!(ends_with_terminator(b"\r\n\r\n"));
    assert!(ends_with_terminator(b"GET / HTTP/1.1\r\nHost: a\r\n\r\n"));
    assert!(!ends_with_terminator(b""));
    assert!(!ends_with_terminator(b"\n\r\n"));
    assert!(!ends_with_terminator(b"GET / HTTP/1.1\r\n"));
    assert!(!ends_with_terminator(b"GET / HTTP/1.1\n\n"));
    assert!(!ends_with_terminator(b"\r\n\r\nbody"));
    assert!(!ends_with_terminator(b"\r\n\n\r"));
}

#[test]
fn reading_goes_on_until_the_head_ends() {
    assert_eq!(frame_step(b"GET / HTTP/1.1\r\n", 16), Framing::More);
    assert_eq!(frame_step(b"GET / HTTP/1.1\r\nHost: a\r\n", 9), Framing::More);
    assert_eq!(frame_step(b"GET / HTTP/1.1\r\nHost: a\r\n\r\n", 2), Framing::Complete);
}

#[test]
fn zero_byte_read_closes_the_framing() {
    assert_eq!(frame_step(b"", 0), Framing::Closed);
    assert_eq!(frame_step(b"GET / HTTP/1.1\r\n", 0), Framing::Closed);
    assert_eq!(frame_step(b"GET / HTTP/1.1\r\n\r\n", 0), Framing::Closed);
}

#[test]
fn complete_head_is_handed_on_as_text() {
    let buffer = b"GET / HTTP/1.1\r\nHost: a\r\n\r\n";
    assert_eq!(
        accept_head(buffer),
        Ok("GET / HTTP/1.1\r\nHost: a\r\n\r\n".to_string())
    );
    let buffer = "GET /é HTTP/1.1\r\n\r\n".as_bytes();
    assert_eq!(accept_head(buffer), Ok("GET /é HTTP/1.1\r\n\r\n".to_string()));
}

#[test]
fn bytes_that_are_no_utf8_are_a_bad_request() {
    assert_eq!(accept_head(b"GET /\xff HTTP/1.1\r\n\r\n"), Err(bad_request()));
    assert_eq!(accept_head(b"\xc3\r\n\r\n"), Err(bad_request()));
}

#[test]
fn head_cut_short_by_the_peer_is_a_bad_request() {
    assert_eq!(accept_head(b"GET / HTTP/1.1\r\nHost: a\r\n"), Err(bad_request()));
    assert_eq!(accept_head(b""), Err(bad_request()));
    assert_eq!(accept_head(b"GET / HTTP/1.1\r\n"), Err(bad_request()));
    assert_eq!(accept_head(b"GET / HTTP/1.1\n\n"), Err(bad_request()));
}
