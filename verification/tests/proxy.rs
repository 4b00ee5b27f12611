use cblt::message::{Header, Request, Response};
use cblt::proxy::{outbound, proxy_response, Outbound, Upstream};

fn header(name: &str, value: &[u8]) -> Header {
    Header { name: name.to_string(), value: value.to_vec() }
}

#[test]
fn failed_exchange_is_bad_gateway() {
    assert_eq!(
        proxy_response(Upstream::Failed),
        Response { status: 502, headers: Vec::new(), body: Vec::new() }
    );
}

#[test]
fn upstream_answer_is_mirrored() {
    let headers = vec![header("content-type", b"text/plain"), header("x-upstream", b"\xffraw")];
    let answer = Upstream::Answered {
        status: 201,
        headers: headers.clone(),
        body: Some(b"created".to_vec()),
    };
    assert_eq!(
        proxy_response(answer),
        Response { status: 201, headers, body: b"created".to_vec() }
    );
}

#[test]
fn upstream_error_status_is_passed_on() {
    let answer = Upstream::Answered { status: 503, headers: Vec::new(), body: Some(Vec::new()) };
    assert_eq!(proxy_response(answer).status, 503);
    let answer = Upstream::Answered { status: 404, headers: Vec::new(), body: Some(b"no".to_vec()) };
    assert_eq!(proxy_response(answer).body, b"no".to_vec());
}

#[test]
fn unread_body_is_sent_on_empty() {
    let headers = vec![header("content-length", b"10")];
    let answer = Upstream::Answered { status: 200, headers: headers.clone(), body: None };
    assert_eq!(proxy_response(answer), Response { status: 200, headers, body: Vec::new() });
}

#[test]
fn outbound_request_keeps_method_and_headers() {
    let request = Request {
        method: "POST".to_string(),
        path: "/submit".to_string(),
        headers: vec![header("Host", b"a.test"), header("Cookie", b"k=v"), header("Cookie", b"x=y")],
    };
    assert_eq!(
        outbound(&request, "http://backend/submit".to_string()),
        Outbound {
            method: "POST".to_string(),
            url: "http://backend/submit".to_string(),
            headers: request.headers.clone(),
        }
    );
}
