//! End-to-end runs of the request pipeline: raw request bytes through the
//! parser, then the response builder with a simulated file-read outcome.

use tinyserve::request::{parse_request, Method};
use tinyserve::response::create_response;

fn read_buffer(req: &[u8]) -> [u8; 512] {
    let mut buf = [0u8; 512];
    buf[..req.len()].copy_from_slice(req);
    buf
}

#[test]
fn serves_an_existing_file() {
    let buf = read_buffer(b"GET /index.html HTTP/1.1\r\nHost: example\r\n\r\n");
    let request = parse_request(&buf).unwrap();
    assert_eq!(request.method, Method::Get);
    let response = create_response(request, Some(b"<p>hi</p>".to_vec()));
    let text = String::from_utf8(response).unwrap();
    assert!(text.starts_with("HTTP/1.1 200 OK\r\n"));
    assert!(text.contains("Content-Length: 9\r\n"));
    assert!(text.contains("Content-Type: text/html\r\n"));
    assert!(text.ends_with("\r\n\r\n<p>hi</p>"));
}

#[test]
fn serves_the_fallback_for_a_missing_file() {
    let buf = read_buffer(b"GET /missing.txt HTTP/1.1\r\nHost: example\r\n\r\n");
    let request = parse_request(&buf).unwrap();
    let response = create_response(request, None);
    let text = String::from_utf8(response).unwrap();
    assert!(text.starts_with("HTTP/1.1 200 OK\r\n"));
    assert!(text.contains("Content-Type: text/html\r\n"));
    assert!(text.ends_with("\r\n\r\n<h1>Not Found</h1>"));
}

#[test]
fn rejects_an_unsupported_method() {
    let buf = read_buffer(b"DELETE /x HTTP/1.1\r\nHost: example\r\n\r\n");
    assert!(parse_request(&buf).is_none());
}
