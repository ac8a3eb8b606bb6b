use pcloud_relay::config::{
    bind_text, Config, ConfigError, DEFAULT_MAX_BODY_BYTES, DEFAULT_REQUEST_TIMEOUT_SECONDS,
};
use pcloud_relay::state::RequestCounter;
use pcloud_relay::text::{decimal_text, parse_u64, same_text};

#[test]
fn request_ids_count_from_one() {
    let mut c = RequestCounter::new();
    assert_eq!(c.next_request_id(), "1");
    assert_eq!(c.next_request_id(), "2");
    assert_eq!(c.next_request_id(), "3");
}

#[test]
fn decimal_text_matches_to_string() {
    for n in [0u64, 7, 10, 99, 100, 4096, u64::MAX] {
        assert_eq!(decimal_text(n), n.to_string());
    }
}

#[test]
fn parse_u64_matches_std() {
    for s in ["0", "42", "+42", "007", "18446744073709551615", "18446744073709551616", "", "+", "-1", "1a", " 1", "12 ", "٣"] {
        assert_eq!(parse_u64(s), s.parse::<u64>().ok(), "{s:?}");
    }
}

#[test]
fn same_text_compares_exactly() {
    assert!(same_text("host", "host"));
    assert!(!same_text("host", "Host"));
    assert!(!same_text("host", "hos"));
    assert!(same_text("", ""));
}

#[test]
fn settings_defaults() {
    let c = Config::from_settings(bind_text(None), true, Some("t".to_owned()), None, None).ok().unwrap();
    assert_eq!(c.bind, "0.0.0.0:7070");
    assert_eq!(c.shared_token, "t");
    assert_eq!(c.request_timeout_seconds, DEFAULT_REQUEST_TIMEOUT_SECONDS);
    assert_eq!(c.request_timeout_seconds, 3600);
    assert_eq!(c.max_body_bytes, DEFAULT_MAX_BODY_BYTES);
    assert_eq!(c.max_body_bytes, 5 * 1024 * 1024 * 1024);
}

#[test]
fn settings_parse_numbers_or_fall_back() {
    let c = Config::from_settings(
        bind_text(Some("127.0.0.1:9000".to_owned())),
        true,
        Some("t".to_owned()),
        Some("30".to_owned()),
        Some("lots".to_owned()),
    )
    .ok()
    .unwrap();
    assert_eq!(c.bind, "127.0.0.1:9000");
    assert_eq!(c.request_timeout_seconds, 30);
    assert_eq!(c.max_body_bytes, DEFAULT_MAX_BODY_BYTES);
}

#[test]
fn settings_without_token_are_refused() {
    match Config::from_settings(bind_text(None), true, None, None, None) {
        Err(e) => {
            assert!(matches!(e, ConfigError::MissingToken));
            assert_eq!(e.message(), "PCLOUD_RELAY_TOKEN must be set");
        }
        Ok(_) => panic!("expected an error"),
    }
}

#[test]
fn settings_with_bad_bind_are_refused_first() {
    let bind = bind_text(Some("not an address".to_owned()));
    match Config::from_settings(bind, false, None, None, None) {
        Err(e) => {
            assert!(matches!(e, ConfigError::InvalidBind));
            assert_eq!(e.message(), "invalid socket address syntax");
        }
        Ok(_) => panic!("expected an error"),
    }
}

#[test]
fn settings_time_and_size_never_refuse() {
    let c = Config::from_settings(
        bind_text(None),
        true,
        Some("t".to_owned()),
        Some("-5".to_owned()),
        Some("+1024".to_owned()),
    )
    .ok()
    .unwrap();
    assert_eq!(c.request_timeout_seconds, 3600);
    assert_eq!(c.max_body_bytes, 1024);
}
