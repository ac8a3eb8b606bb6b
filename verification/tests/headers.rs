use pcloud_relay::protocol::HeaderPair;
use pcloud_relay::proxy::{relay_headers, response_headers, response_status, should_forward_header, RequestHeader};

fn req(name: &str, value: &[u8]) -> RequestHeader {
    RequestHeader { name: name.to_owned(), value: value.to_vec() }
}

fn pair(name: &str, value: &str) -> HeaderPair {
    HeaderPair { name: name.to_owned(), value: value.to_owned() }
}

#[test]
fn hop_headers_are_not_forwarded() {
    for name in ["host", "connection", "upgrade", "transfer-encoding", "content-length"] {
        assert!(!should_forward_header(name));
    }
    assert!(should_forward_header("content-type"));
    assert!(should_forward_header("x-forwarded-for"));
}

#[test]
fn relay_headers_filters_hop_and_invalid_values() {
    let headers = vec![
        req("host", b"relay.example.com"),
        req("accept", b"*/*"),
        req("x-binary", &[0xff, 0x41]),
        req("x-tab", b"a\tb"),
        req("content-length", b"10"),
        req("cookie", b"a=1"),
    ];
    let out = relay_headers(&headers);
    let got: Vec<(String, String)> = out.into_iter().map(|h| (h.name, h.value)).collect();
    assert_eq!(
        got,
        vec![
            ("accept".to_owned(), "*/*".to_owned()),
            ("x-tab".to_owned(), "a\tb".to_owned()),
            ("cookie".to_owned(), "a=1".to_owned()),
        ]
    );
}

#[test]
fn relay_headers_drops_control_bytes() {
    let out = relay_headers(&vec![req("x-del", &[0x41, 0x7f])]);
    assert!(out.is_empty());
}

#[test]
fn response_headers_normalize_and_filter() {
    let headers = vec![
        pair("Content-Type", "application/json"),
        pair("Transfer-Encoding", "chunked"),
        pair("bad name", "x"),
        pair("X-Note", "caf\u{e9}"),
        pair("x-bad-value", "a\nb"),
        pair("", "empty"),
    ];
    let out = response_headers(&headers);
    let got: Vec<(String, String)> = out.into_iter().map(|h| (h.name, h.value)).collect();
    assert_eq!(
        got,
        vec![
            ("content-type".to_owned(), "application/json".to_owned()),
            ("x-note".to_owned(), "caf\u{e9}".to_owned()),
        ]
    );
}

#[test]
fn response_status_keeps_valid_codes() {
    assert_eq!(response_status(200), 200);
    assert_eq!(response_status(100), 100);
    assert_eq!(response_status(999), 999);
    assert_eq!(response_status(404), 404);
}

#[test]
fn response_status_maps_invalid_codes_to_bad_gateway() {
    assert_eq!(response_status(99), 502);
    assert_eq!(response_status(0), 502);
    assert_eq!(response_status(1000), 502);
}
