use pcloud_relay::device::{
    handle_device_message, DeviceDelivery, PendingResponse, PendingResponses,
};
use pcloud_relay::protocol::{BodyChunk, DeviceToRelay, RelayResponseStart, RequestEnd, ResponseError};

fn table_with(id: &str) -> PendingResponses<u32, String> {
    let mut p = PendingResponses::new();
    p.insert(
        id.to_owned(),
        PendingResponse { start_sender: Some(7u32), body_sender: "body-7".to_owned() },
    );
    p
}

fn start(id: &str, status: u16) -> DeviceToRelay {
    DeviceToRelay::ResponseStart(RelayResponseStart {
        request_id: id.to_owned(),
        status,
        headers: vec![],
    })
}

fn chunk(id: &str, text: &str) -> DeviceToRelay {
    DeviceToRelay::ResponseBodyChunk(BodyChunk {
        request_id: id.to_owned(),
        body_base64: text.to_owned(),
    })
}

#[test]
fn response_start_goes_to_waiting_request_once() {
    let mut p = table_with("1");
    match handle_device_message(&mut p, start("1", 200)) {
        DeviceDelivery::Start { start_sender, start } => {
            assert_eq!(start_sender, 7);
            assert_eq!(start.status, 200);
            assert_eq!(start.request_id, "1");
        }
        _ => panic!("expected a start"),
    }
    assert!(p.contains(&"1".to_owned()));
    assert!(matches!(handle_device_message(&mut p, start("1", 500)), DeviceDelivery::Nothing));
}

#[test]
fn unknown_request_gets_nothing() {
    let mut p = table_with("1");
    assert!(matches!(handle_device_message(&mut p, start("2", 200)), DeviceDelivery::Nothing));
    assert!(matches!(handle_device_message(&mut p, chunk("2", "aGk=")), DeviceDelivery::Nothing));
    assert!(p.contains(&"1".to_owned()));
}

#[test]
fn body_chunk_is_decoded() {
    let mut p = table_with("1");
    match handle_device_message(&mut p, chunk("1", "eyJzdGF0dXMiOiJvayJ9")) {
        DeviceDelivery::BodyData { body_sender, data } => {
            assert_eq!(body_sender, "body-7");
            assert_eq!(data, b"{\"status\":\"ok\"}".to_vec());
        }
        _ => panic!("expected body data"),
    }
}

#[test]
fn invalid_body_chunk_fails_the_body() {
    let mut p = table_with("1");
    match handle_device_message(&mut p, chunk("1", "not base64!")) {
        DeviceDelivery::BodyInvalid { body_sender, message } => {
            assert_eq!(body_sender, "body-7");
            let error = base64::Engine::decode(&base64::engine::general_purpose::STANDARD, "not base64!")
                .unwrap_err();
            assert_eq!(message, format!("Invalid response body chunk: {error}"));
        }
        _ => panic!("expected an invalid chunk"),
    }
    assert!(p.contains(&"1".to_owned()));
}

#[test]
fn response_end_forgets_request() {
    let mut p = table_with("1");
    let end = DeviceToRelay::ResponseEnd(RequestEnd { request_id: "1".to_owned() });
    assert!(matches!(handle_device_message(&mut p, end), DeviceDelivery::Nothing));
    assert!(!p.contains(&"1".to_owned()));
    assert!(matches!(handle_device_message(&mut p, chunk("1", "aGk=")), DeviceDelivery::Nothing));
}

#[test]
fn error_before_start_becomes_plain_text_response() {
    let mut p = table_with("1");
    let err = DeviceToRelay::ResponseError(ResponseError {
        request_id: "1".to_owned(),
        status: 503,
        message: "local server down".to_owned(),
    });
    match handle_device_message(&mut p, err) {
        DeviceDelivery::ErrorResponse { start_sender, body_sender, start, body } => {
            assert_eq!(start_sender, 7);
            assert_eq!(body_sender, "body-7");
            assert_eq!(start.status, 503);
            assert_eq!(start.request_id, "1");
            assert_eq!(start.headers.len(), 1);
            assert_eq!(start.headers[0].name, "content-type");
            assert_eq!(start.headers[0].value, "text/plain; charset=utf-8");
            assert_eq!(body, "local server down");
        }
        _ => panic!("expected an error response"),
    }
    assert!(!p.contains(&"1".to_owned()));
}

#[test]
fn error_after_start_fails_the_body() {
    let mut p = table_with("1");
    let _ = handle_device_message(&mut p, start("1", 200));
    let err = DeviceToRelay::ResponseError(ResponseError {
        request_id: "1".to_owned(),
        status: 500,
        message: "broken".to_owned(),
    });
    match handle_device_message(&mut p, err) {
        DeviceDelivery::ErrorAfterStart { body_sender, message } => {
            assert_eq!(body_sender, "body-7");
            assert_eq!(message, "broken");
        }
        _ => panic!("expected an error after start"),
    }
    assert!(!p.contains(&"1".to_owned()));
}

#[test]
fn pong_changes_nothing() {
    let mut p = table_with("1");
    assert!(matches!(handle_device_message(&mut p, DeviceToRelay::Pong), DeviceDelivery::Nothing));
    assert!(p.contains(&"1".to_owned()));
}

#[test]
fn cleared_table_delivers_nothing() {
    let mut p = table_with("1");
    p.clear();
    assert!(matches!(handle_device_message(&mut p, start("1", 200)), DeviceDelivery::Nothing));
}

#[test]
fn pending_remove_and_take_start() {
    let mut p = table_with("1");
    assert_eq!(p.take_start_sender(&"1".to_owned()), Some(7));
    assert_eq!(p.take_start_sender(&"1".to_owned()), None);
    assert_eq!(p.body_sender(&"1".to_owned()).cloned(), Some("body-7".to_owned()));
    let removed = p.remove(&"1".to_owned()).unwrap();
    assert!(removed.start_sender.is_none());
    assert!(p.remove(&"1".to_owned()).is_none());
}
