use pcloud_relay::device::{
    device_connect, device_status, socket_event_action, ConnectDecision, DeviceConnectQuery,
    DeviceRegistry, SocketAction, SocketEvent,
};

#[test]
fn registered_device_is_online() {
    let mut r: DeviceRegistry<&str> = DeviceRegistry::new();
    let s = device_status(&r, "my-device".to_owned());
    assert_eq!(s.device_id, "my-device");
    assert!(!s.online);
    let id = r.register("my-device".to_owned(), "conn-a");
    assert_eq!(id, 1);
    assert!(device_status(&r, "my-device".to_owned()).online);
    assert_eq!(r.connection(&"my-device".to_owned()), Some(&"conn-a"));
}

#[test]
fn disconnect_takes_device_offline() {
    let mut r: DeviceRegistry<&str> = DeviceRegistry::new();
    let id = r.register("d".to_owned(), "conn-a");
    assert!(r.remove_if_same_connection(&"d".to_owned(), id));
    assert!(!r.is_online(&"d".to_owned()));
    assert!(!r.remove_if_same_connection(&"d".to_owned(), id));
}

#[test]
fn stale_disconnect_keeps_newer_connection() {
    let mut r: DeviceRegistry<&str> = DeviceRegistry::new();
    let old = r.register("d".to_owned(), "conn-a");
    let new = r.register("d".to_owned(), "conn-b");
    assert_ne!(old, new);
    assert!(!r.remove_if_same_connection(&"d".to_owned(), old));
    assert!(r.is_online(&"d".to_owned()));
    assert_eq!(r.connection(&"d".to_owned()), Some(&"conn-b"));
}

#[test]
fn disconnect_leaves_other_devices() {
    let mut r: DeviceRegistry<&str> = DeviceRegistry::new();
    let a = r.register("a".to_owned(), "conn-a");
    let _b = r.register("b".to_owned(), "conn-b");
    assert!(r.remove_if_same_connection(&"a".to_owned(), a));
    assert!(r.is_online(&"b".to_owned()));
    assert!(!r.is_online(&"a".to_owned()));
}

#[test]
fn connect_with_shared_token_is_accepted() {
    let token = "change-this-shared-development-token".to_owned();
    let q = DeviceConnectQuery { device_id: "my-device".to_owned(), token: token.clone() };
    match device_connect(&token, q) {
        ConnectDecision::Accept { device_id } => assert_eq!(device_id, "my-device"),
        ConnectDecision::Reject { .. } => panic!("expected accept"),
    }
}

#[test]
fn connect_with_wrong_token_is_rejected() {
    let token = "secret".to_owned();
    let q = DeviceConnectQuery { device_id: "my-device".to_owned(), token: "guess".to_owned() };
    match device_connect(&token, q) {
        ConnectDecision::Reject { status, message } => {
            assert_eq!(status, 401);
            assert_eq!(message, "Invalid relay token");
        }
        ConnectDecision::Accept { .. } => panic!("expected reject"),
    }
}

#[test]
fn socket_events() {
    assert!(matches!(socket_event_action(&SocketEvent::Text), SocketAction::HandleText));
    assert!(matches!(socket_event_action(&SocketEvent::Close), SocketAction::Stop));
    assert!(matches!(socket_event_action(&SocketEvent::Failed), SocketAction::Stop));
    assert!(matches!(socket_event_action(&SocketEvent::Ping), SocketAction::Ignore));
    assert!(matches!(socket_event_action(&SocketEvent::Pong), SocketAction::Ignore));
    assert!(matches!(socket_event_action(&SocketEvent::Binary), SocketAction::Ignore));
}
