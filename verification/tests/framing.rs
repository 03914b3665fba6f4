use tinyserve::request::{Method, Request};
use tinyserve::response::create_response;

fn request(path: &[u8]) -> Request {
    Request { method: Method::Get, path: path.to_vec() }
}

#[test]
fn found_file_response_is_exact() {
    let r = create_response(request(b"/index.html"), Some(b"<p>hi</p>".to_vec()));
    let expected: &[u8] = b"HTTP/1.1 200 OK\r\n\
        Server: My Rust Code\r\n\
        Content-Length: 9\r\n\
        Content-Type: text/html\r\n\
        Connection: Closed\r\n\
        \r\n\
        <p>hi</p>";
    assert_eq!(r, expected.to_vec());
}

#[test]
fn missing_file_response_is_exact() {
    let r = create_response(request(b"/missing.txt"), None);
    let expected: &[u8] = b"HTTP/1.1 200 OK\r\n\
        Server: My Rust Code\r\n\
        Content-Length: 18\r\n\
        Content-Type: text/html\r\n\
        Connection: Closed\r\n\
        \r\n\
        <h1>Not Found</h1>";
    assert_eq!(r, expected.to_vec());
}

#[test]
fn subtype_comes_from_extension() {
    let r = create_response(request(b"/style.css"), Some(b"body{}".to_vec()));
    let expected: &[u8] = b"HTTP/1.1 200 OK\r\n\
        Server: My Rust Code\r\n\
        Content-Length: 6\r\n\
        Content-Type: text/css\r\n\
        Connection: Closed\r\n\
        \r\n\
        body{}";
    assert_eq!(r, expected.to_vec());
}

#[test]
fn last_dot_names_the_subtype() {
    let r = create_response(request(b"/a.tar.gz"), Some(b"x".to_vec()));
    let text = String::from_utf8(r).unwrap();
    assert!(text.contains("Content-Type: text/gz\r\n"));
}

#[test]
fn no_dot_defaults_to_html() {
    let r = create_response(request(b"/data"), Some(b"x".to_vec()));
    let text = String::from_utf8(r).unwrap();
    assert!(text.contains("Content-Type: text/html\r\n"));
}

#[test]
fn empty_body_has_length_zero() {
    let r = create_response(request(b"/empty.html"), Some(Vec::new()));
    let text = String::from_utf8(r).unwrap();
    assert!(text.contains("Content-Length: 0\r\n"));
    assert!(text.ends_with("\r\n\r\n"));
}

#[test]
fn content_length_is_decimal_byte_length() {
    let body = vec![b'a'; 905];
    let r = create_response(request(b"/big.txt"), Some(body.clone()));
    let text = String::from_utf8(r).unwrap();
    assert!(text.contains("Content-Length: 905\r\n"));
    assert!(text.ends_with(std::str::from_utf8(&body).unwrap()));
}

#[test]
fn missing_file_ignores_extension() {
    let r = create_response(request(b"/gone.css"), None);
    let text = String::from_utf8(r).unwrap();
    assert!(text.contains("Content-Type: text/html\r\n"));
    assert!(text.ends_with("<h1>Not Found</h1>"));
}

#[test]
fn framing_is_deterministic() {
    let a = create_response(request(b"/index.html"), Some(b"<p>hi</p>".to_vec()));
    let b = create_response(request(b"/index.html"), Some(b"<p>hi</p>".to_vec()));
    assert_eq!(a, b);
    let c = create_response(request(b"/gone"), None);
    let d = create_response(request(b"/gone"), None);
    assert_eq!(c, d);
}
