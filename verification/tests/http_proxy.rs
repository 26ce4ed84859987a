use rustunnel::http_proxy::{
    error_resp, forward_request, is_valid_header_value, is_valid_status, not_found, parse_http_response,
    split_tunnel_path,
};

#[test]
fn split_paths() {
    assert_eq!(split_tunnel_path("abc/x/y"), ("abc".to_string(), "/x/y".to_string()));
    assert_eq!(split_tunnel_path("abc"), ("abc".to_string(), "/".to_string()));
    assert_eq!(split_tunnel_path("abc/"), ("abc".to_string(), "/".to_string()));
    assert_eq!(split_tunnel_path("/x"), ("".to_string(), "/x".to_string()));
    assert_eq!(split_tunnel_path(""), ("".to_string(), "/".to_string()));
    assert_eq!(split_tunnel_path("é/ü"), ("é".to_string(), "/ü".to_string()));
}

#[test]
fn forwarded_request_bytes() {
    let headers = vec![
        ("host".to_string(), b"example.com".to_vec()),
        ("connection".to_string(), b"keep-alive".to_vec()),
        ("x-a".to_string(), b"1".to_vec()),
    ];
    let raw = forward_request("POST", "/api/v1", Some("q=1&r=2"), &headers, b"body!");
    assert_eq!(
        raw,
        b"POST /api/v1?q=1&r=2 HTTP/1.1\r\nhost: example.com\r\nx-a: 1\r\nConnection: close\r\n\r\nbody!".to_vec()
    );
    let raw = forward_request("GET", "/", None, &Vec::new(), b"");
    assert_eq!(raw, b"GET / HTTP/1.1\r\nConnection: close\r\n\r\n".to_vec());
}

#[test]
fn parse_complete_response() {
    let data = b"HTTP/1.1 201 Created\r\nContent-Type: text/plain\r\nX-A: \x80\r\n\r\nhello".to_vec();
    let r = parse_http_response(data);
    assert_eq!(r.status, 201);
    assert_eq!(
        r.headers,
        vec![("Content-Type".to_string(), b"text/plain".to_vec()), ("X-A".to_string(), vec![0x80u8])]
    );
    assert_eq!(r.body, b"hello".to_vec());
}

#[test]
fn parse_empty_is_bad_gateway() {
    let r = parse_http_response(Vec::new());
    assert_eq!(r.status, 502);
    assert!(r.headers.is_empty());
    assert!(r.body.is_empty());
}

#[test]
fn parse_incomplete_or_garbage_passes_bytes_through() {
    let r = parse_http_response(b"HTTP/1.1 200 OK\r\nContent-".to_vec());
    assert_eq!(r.status, 200);
    assert!(r.headers.is_empty());
    assert_eq!(r.body, b"HTTP/1.1 200 OK\r\nContent-".to_vec());
    let r = parse_http_response(b"not http at all".to_vec());
    assert_eq!(r.status, 200);
    assert_eq!(r.body, b"not http at all".to_vec());
}

#[test]
fn parse_out_of_range_status_is_500() {
    let r = parse_http_response(b"HTTP/1.1 099 Low\r\n\r\n".to_vec());
    assert_eq!(r.status, 500);
    assert!(r.body.is_empty());
}

#[test]
fn canned_responses() {
    let r = not_found();
    assert_eq!(r.status, 404);
    assert_eq!(r.body, b"tunnel not found\n".to_vec());
    let r = error_resp(400);
    assert_eq!(r.status, 400);
    assert!(r.body.is_empty() && r.headers.is_empty());
}

#[test]
fn validity_checks() {
    assert!(is_valid_status(100) && is_valid_status(999));
    assert!(!is_valid_status(99) && !is_valid_status(1000));
    assert!(is_valid_header_value(b"a b\tc\x80"));
    assert!(!is_valid_header_value(b"a\nb"));
    assert!(!is_valid_header_value(b"\x7f"));
    assert!(is_valid_header_value(b""));
}
