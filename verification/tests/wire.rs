use cblt::message::{Header, Response};
use cblt::response::{error_response, file_response, redirect_response};
use cblt::wire::{encode_head, response_bytes, response_head};

fn header(name: &str, value: &[u8]) -> Header {
    Header { name: name.to_string(), value: value.to_vec() }
}

#[test]
fn error_response_on_the_wire() {
    assert_eq!(
        response_bytes(&error_response(404)),
        b"HTTP/1.1 404 Not Found\r\nContent-Length: 0\r\n\r\n".to_vec()
    );
    assert_eq!(
        response_bytes(&error_response(502)),
        b"HTTP/1.1 502 Bad Gateway\r\nContent-Length: 0\r\n\r\n".to_vec()
    );
    assert_eq!(
        response_bytes(&error_response(400)),
        b"HTTP/1.1 400 Bad Request\r\nContent-Length: 0\r\n\r\n".to_vec()
    );
}

#[test]
fn redirect_on_the_wire() {
    assert_eq!(
        response_bytes(&redirect_response("/go/here")),
        b"HTTP/1.1 302 Found\r\nLocation: /go/here\r\nContent-Length: 0\r\n\r\n".to_vec()
    );
}

#[test]
fn file_head_keeps_its_own_length() {
    assert_eq!(
        response_head(&file_response(1234)),
        b"HTTP/1.1 200 OK\r\nContent-Length: 1234\r\n\r\n".to_vec()
    );
}

#[test]
fn length_header_is_found_in_any_case() {
    let response = Response {
        status: 200,
        headers: vec![header("content-length", b"5"), header("X-A", b"b")],
        body: b"hello".to_vec(),
    };
    assert_eq!(
        response_bytes(&response),
        b"HTTP/1.1 200 OK\r\ncontent-length: 5\r\nX-A: b\r\n\r\nhello".to_vec()
    );
}

#[test]
fn body_length_is_added_where_no_header_says_it() {
    let response = Response {
        status: 201,
        headers: vec![header("Content-Type", b"text/plain")],
        body: b"0123456789ab".to_vec(),
    };
    assert_eq!(
        response_bytes(&response),
        b"HTTP/1.1 201 Created\r\nContent-Type: text/plain\r\nContent-Length: 12\r\n\r\n0123456789ab"
            .to_vec()
    );
}

#[test]
fn header_values_are_written_byte_for_byte() {
    let response = Response { status: 200, headers: vec![header("X", b"\xff\x80")], body: Vec::new() };
    assert_eq!(
        response_head(&response),
        b"HTTP/1.1 200 OK\r\nX: \xff\x80\r\nContent-Length: 0\r\n\r\n".to_vec()
    );
}

#[test]
fn status_without_a_phrase_has_none() {
    assert_eq!(
        response_head(&error_response(599)),
        b"HTTP/1.1 599 \r\nContent-Length: 0\r\n\r\n".to_vec()
    );
    assert_eq!(
        response_head(&error_response(42)),
        b"HTTP/1.1 42 \r\nContent-Length: 0\r\n\r\n".to_vec()
    );
}

#[test]
fn head_with_a_given_phrase() {
    let response = error_response(404);
    assert_eq!(
        encode_head(&response, Some("Gone Fishing")),
        b"HTTP/1.1 404 Gone Fishing\r\nContent-Length: 0\r\n\r\n".to_vec()
    );
    assert_eq!(encode_head(&response, None), b"HTTP/1.1 404 \r\nContent-Length: 0\r\n\r\n".to_vec());
}
