use base64::Engine;
use pcloud_relay::device::{PendingResponse, PendingResponses};
use pcloud_relay::protocol::RelayToDevice;
use pcloud_relay::proxy::{
    fail_proxy_request, limit_exceeded_message, proxy_failure_reply, start_proxy_request,
    BodyEvent, BodyForwarder, ProxyFailure, RequestHeader, STREAM_CHUNK_BYTES,
};

fn decode(text: &str) -> Vec<u8> {
    base64::engine::general_purpose::STANDARD.decode(text).unwrap()
}

#[test]
fn frame_is_cut_into_64k_chunks() {
    let data: Vec<u8> = (0..(2 * STREAM_CHUNK_BYTES + 10)).map(|i| (i % 251) as u8).collect();
    let mut f = BodyForwarder::new("9".to_owned(), 1 << 30);
    let messages = f.step(BodyEvent::Data(&data));
    assert!(f.forwarding());
    assert_eq!(messages.len(), 3);
    let mut joined = Vec::new();
    for (k, m) in messages.iter().enumerate() {
        match m {
            RelayToDevice::RequestBodyChunk(c) => {
                assert_eq!(c.request_id, "9");
                let bytes = decode(&c.body_base64);
                if k < 2 {
                    assert_eq!(bytes.len(), STREAM_CHUNK_BYTES);
                } else {
                    assert_eq!(bytes.len(), 10);
                }
                joined.extend(bytes);
            }
            _ => panic!("expected a body chunk"),
        }
    }
    assert_eq!(joined, data);
}

#[test]
fn small_frame_is_one_chunk() {
    let mut f = BodyForwarder::new("1".to_owned(), 100);
    let messages = f.step(BodyEvent::Data(b"hello world~"));
    assert_eq!(messages.len(), 1);
    match &messages[0] {
        RelayToDevice::RequestBodyChunk(c) => assert_eq!(c.body_base64, "aGVsbG8gd29ybGR+"),
        _ => panic!("expected a body chunk"),
    }
}

#[test]
fn empty_and_non_data_frames_send_nothing() {
    let mut f = BodyForwarder::new("1".to_owned(), 0);
    assert!(f.step(BodyEvent::Data(&[])).is_empty());
    assert!(f.step(BodyEvent::NonData).is_empty());
    assert!(f.forwarding());
}

#[test]
fn body_over_limit_is_aborted_and_nothing_follows() {
    let mut f = BodyForwarder::new("1".to_owned(), 10);
    assert_eq!(f.step(BodyEvent::Data(b"12345")).len(), 1);
    assert_eq!(f.step(BodyEvent::Data(b"12345")).len(), 1);
    let messages = f.step(BodyEvent::Data(b"x"));
    assert_eq!(messages.len(), 1);
    match &messages[0] {
        RelayToDevice::RequestAbort(a) => {
            assert_eq!(a.request_id, "1");
            assert_eq!(a.message, "Request body exceeded relay limit of 10 bytes");
        }
        _ => panic!("expected an abort"),
    }
    assert!(!f.forwarding());
    assert!(f.step(BodyEvent::Data(b"y")).is_empty());
    assert!(f.step(BodyEvent::Finished).is_empty());
}

#[test]
fn limit_message_text() {
    assert_eq!(
        limit_exceeded_message(5368709120),
        "Request body exceeded relay limit of 5368709120 bytes"
    );
}

#[test]
fn finished_body_ends_once() {
    let mut f = BodyForwarder::new("42".to_owned(), 1);
    let messages = f.step(BodyEvent::Finished);
    assert_eq!(messages.len(), 1);
    match &messages[0] {
        RelayToDevice::RequestEnd(e) => assert_eq!(e.request_id, "42"),
        _ => panic!("expected end"),
    }
    assert!(!f.forwarding());
    assert!(f.step(BodyEvent::Finished).is_empty());
    assert!(f.step(BodyEvent::Failed("late".to_owned())).is_empty());
}

#[test]
fn failed_body_is_aborted_with_its_text() {
    let mut f = BodyForwarder::new("42".to_owned(), 100);
    assert_eq!(f.step(BodyEvent::Data(b"ab")).len(), 1);
    let messages = f.step(BodyEvent::Failed("gone".to_owned()));
    match &messages[0] {
        RelayToDevice::RequestAbort(a) => {
            assert_eq!(a.request_id, "42");
            assert_eq!(a.message, "gone");
        }
        _ => panic!("expected abort"),
    }
    assert!(f.step(BodyEvent::Data(b"cd")).is_empty());
}

#[test]
fn start_proxy_request_records_pending_and_builds_start() {
    let mut p: PendingResponses<u8, u8> = PendingResponses::new();
    let headers = vec![
        RequestHeader { name: "host".to_owned(), value: b"relay".to_vec() },
        RequestHeader { name: "accept".to_owned(), value: b"text/html".to_vec() },
    ];
    let m = start_proxy_request(
        &mut p,
        "5".to_owned(),
        "dev",
        Some("/d/dev/api/client/status"),
        "GET".to_owned(),
        &headers,
        1,
        2,
    );
    assert!(p.contains(&"5".to_owned()));
    match m {
        RelayToDevice::RequestStart(s) => {
            assert_eq!(s.request_id, "5");
            assert_eq!(s.method, "GET");
            assert_eq!(s.path, "/api/client/status");
            assert_eq!(s.headers.len(), 1);
            assert_eq!(s.headers[0].name, "accept");
            assert_eq!(s.headers[0].value, "text/html");
        }
        _ => panic!("expected a request start"),
    }
}

#[test]
fn failures_and_their_replies() {
    let mut p: PendingResponses<u8, u8> = PendingResponses::new();
    p.insert("1".to_owned(), PendingResponse { start_sender: Some(0), body_sender: 0 });
    let r = fail_proxy_request(&mut p, &"1".to_owned(), ProxyFailure::ClosedBeforeResponse);
    assert_eq!((r.status, r.message.as_str()), (502, "Device tunnel closed before response"));
    assert!(p.contains(&"1".to_owned()));
    let r = fail_proxy_request(&mut p, &"1".to_owned(), ProxyFailure::TimedOut);
    assert_eq!((r.status, r.message.as_str()), (504, "Device response timed out"));
    assert!(!p.contains(&"1".to_owned()));
    p.insert("2".to_owned(), PendingResponse { start_sender: Some(0), body_sender: 0 });
    let r = fail_proxy_request(&mut p, &"2".to_owned(), ProxyFailure::TunnelClosed);
    assert_eq!((r.status, r.message.as_str()), (502, "Device tunnel is closed"));
    assert!(!p.contains(&"2".to_owned()));
    let r = proxy_failure_reply(&ProxyFailure::DeviceOffline);
    assert_eq!((r.status, r.message.as_str()), (502, "Device is offline"));
}
