use websocket_std::http::{Request, Response, Method};
use websocket_std::traits::{Serialize, Parse};

#[test]
fn request_serializes_to_the_upgrade_wire_format() {
    let headers = vec![
        ("Upgrade".to_string(), "websocket".to_string()),
        ("Connection".to_string(), "Upgrade".to_string()),
    ];
    let request = Request::new(Method::GET, "/chat", "HTTP/1.1", Some(headers));
    let bytes = request.serialize();
    let text = String::from_utf8(bytes).unwrap();
    assert_eq!(
        text,
        "GET /chat HTTP/1.1\r\nUpgrade: websocket\r\nConnection: Upgrade\r\n\r\n"
    );
}

#[test]
fn request_without_headers_has_only_the_request_line() {
    let request = Request::new(Method::GET, "/", "HTTP/1.1", None);
    let text = String::from_utf8(request.serialize()).unwrap();
    assert_eq!(text, "GET / HTTP/1.1\r\n\r\n");
}

#[test]
fn response_parse_reads_status_and_headers() {
    let raw = b"HTTP/1.1 101 Switching\r\nUpgrade: websocket\r\nSec-WebSocket-Accept: abc=\r\n\r\n";
    let resp = Response::parse(raw.as_slice()).unwrap();
    assert_eq!(resp.get_status_code(), 101);
    assert_eq!(resp.header("sec-websocket-accept"), Some("abc=".to_string()));
    // Header lookup is case-insensitive.
    assert_eq!(resp.header("SEC-WEBSOCKET-ACCEPT"), Some("abc=".to_string()));
    assert_eq!(resp.header("upgrade"), Some("websocket".to_string()));
    assert_eq!(resp.header("missing"), None);
    assert!(resp.body().is_none());
}

#[test]
fn response_parse_reads_the_body() {
    let raw = b"HTTP/1.1 200 OK\r\nA: b\r\n\r\nhello there";
    let resp = Response::parse(raw.as_slice()).unwrap();
    assert_eq!(resp.get_status_code(), 200);
    assert_eq!(resp.body(), Some(&"hello there".to_string()));
}

#[test]
fn response_parse_needs_the_blank_line() {
    let raw = b"HTTP/1.1 101 Switching\r\nUpgrade: websocket\r\n";
    assert!(Response::parse(raw.as_slice()).is_err());
}

#[test]
fn response_parse_rejects_a_header_without_a_colon() {
    let raw = b"HTTP/1.1 101 Switching\r\nUpgradewebsocket\r\n\r\n";
    assert!(Response::parse(raw.as_slice()).is_err());
}

#[test]
fn response_parse_rejects_a_bad_status_code() {
    let raw = b"HTTP/1.1 10x Switching\r\n\r\n";
    assert!(Response::parse(raw.as_slice()).is_err());
    let raw2 = b"HTTP/1.1\r\n\r\n";
    assert!(Response::parse(raw2.as_slice()).is_err());
}

#[test]
fn response_values_are_trimmed() {
    let raw = b"HTTP/1.1 101 Sw\r\nKey:   value  \r\n\r\n";
    let resp = Response::parse(raw.as_slice()).unwrap();
    assert_eq!(resp.header("key"), Some("value".to_string()));
}
