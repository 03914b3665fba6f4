use tinyserve::request::{parse_request, Method};

#[test]
fn get_request_line_parses() {
    let r = parse_request(b"GET /index.html HTTP/1.1\r\nHost: example\r\n\r\n").unwrap();
    assert_eq!(r.method, Method::Get);
    assert_eq!(r.path, b"/index.html".to_vec());
}

#[test]
fn post_lowercase_method_parses() {
    let r = parse_request(b"post /form HTTP/1.1\r\n\r\n").unwrap();
    assert_eq!(r.method, Method::Post);
    assert_eq!(r.path, b"/form".to_vec());
}

#[test]
fn mixed_case_method_parses() {
    let r = parse_request(b"gEt /a HTTP/1.1\r\n\r\n").unwrap();
    assert_eq!(r.method, Method::Get);
}

#[test]
fn path_taken_verbatim_without_decoding() {
    let r = parse_request(b"GET /../secret%20file HTTP/1.1\r\n").unwrap();
    assert_eq!(r.path, b"/../secret%20file".to_vec());
}

#[test]
fn two_tokens_without_version_parse() {
    let r = parse_request(b"GET /x\r\n").unwrap();
    assert_eq!(r.method, Method::Get);
    assert_eq!(r.path, b"/x".to_vec());
}

#[test]
fn single_token_line_yields_none() {
    assert!(parse_request(b"GET\r\nHost: example\r\n\r\n").is_none());
}

#[test]
fn empty_input_yields_none() {
    assert!(parse_request(b"").is_none());
}

#[test]
fn blank_line_yields_none() {
    assert!(parse_request(b"\r\nGET /x HTTP/1.1\r\n").is_none());
}

#[test]
fn unknown_method_is_rejected() {
    assert!(parse_request(b"DELETE /x HTTP/1.1\r\n").is_none());
}

#[test]
fn missing_crlf_still_parses_whole_buffer() {
    let r = parse_request(b"GET /x HTTP/1.1").unwrap();
    assert_eq!(r.path, b"/x".to_vec());
}

#[test]
fn consecutive_spaces_give_empty_path() {
    let r = parse_request(b"GET  /x HTTP/1.1\r\n").unwrap();
    assert_eq!(r.path, b"".to_vec());
}

#[test]
fn zero_padded_read_buffer_parses() {
    let req = b"GET /index.html HTTP/1.1\r\nHost: example\r\n\r\n";
    let mut buf = [0u8; 512];
    buf[..req.len()].copy_from_slice(req);
    let r = parse_request(&buf).unwrap();
    assert_eq!(r.method, Method::Get);
    assert_eq!(r.path, b"/index.html".to_vec());
}

#[test]
fn adds_numbers() {
    assert_eq!(tinyserve::add(2, 3), 5);
}
