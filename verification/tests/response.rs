use cblt::message::{Header, Response};
use cblt::response::{
    decimal_digits, error_response, file_response, redirect_response, BAD_GATEWAY, BAD_REQUEST,
    FORBIDDEN, FOUND, INTERNAL_SERVER_ERROR, NOT_FOUND, OK,
};

#[test]
fn status_codes_have_their_numbers() {
    assert_eq!(OK, 200);
    assert_eq!(FOUND, 302);
    assert_eq!(BAD_REQUEST, 400);
    assert_eq!(FORBIDDEN, 403);
    assert_eq!(NOT_FOUND, 404);
    assert_eq!(INTERNAL_SERVER_ERROR, 500);
    assert_eq!(BAD_GATEWAY, 502);
}

#[test]
fn error_response_holds_only_the_status() {
    for status in [400u16, 403, 404, 500, 502] {
        let response = error_response(status);
        assert_eq!(response, Response { status, headers: Vec::new(), body: Vec::new() });
    }
}

#[test]
fn redirect_response_names_the_location() {
    let response = redirect_response("/go/here");
    assert_eq!(response.status, 302);
    assert_eq!(
        response.headers,
        vec![Header { name: "Location".to_string(), value: b"/go/here".to_vec() }]
    );
    assert!(response.body.is_empty());
}

#[test]
fn redirect_location_is_encoded_as_utf8() {
    let response = redirect_response("/é");
    assert_eq!(response.headers[0].value, "/é".as_bytes().to_vec());
}

#[test]
fn file_response_carries_the_length() {
    let response = file_response(1234);
    assert_eq!(response.status, 200);
    assert_eq!(
        response.headers,
        vec![Header { name: "Content-Length".to_string(), value: b"1234".to_vec() }]
    );
    assert!(response.body.is_empty());
    assert_eq!(file_response(0).headers[0].value, b"0".to_vec());
}

#[test]
fn decimal_digits_of_numbers() {
    assert_eq!(decimal_digits(0), b"0".to_vec());
    assert_eq!(decimal_digits(7), b"7".to_vec());
    assert_eq!(decimal_digits(10), b"10".to_vec());
    assert_eq!(decimal_digits(909), b"909".to_vec());
    assert_eq!(decimal_digits(u64::MAX), b"18446744073709551615".to_vec());
    for n in [1u64, 9, 11, 99, 100, 101, 65535, 1_000_000, 123_456_789] {
        assert_eq!(decimal_digits(n), n.to_string().into_bytes());
    }
}
