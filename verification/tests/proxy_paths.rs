use axum::http::Uri;
use pcloud_relay::proxy::{proxied_path, redirect_device_root};

#[test]
fn proxied_path_strips_device_prefix() {
    let uri = "/d/device-1/api/files?limit=20".parse::<Uri>().unwrap();

    assert_eq!(
        proxied_path("device-1", uri.path_and_query().map(|value| value.as_str())),
        "/api/files?limit=20"
    );
}

#[test]
fn proxied_path_maps_device_root_to_slash() {
    let uri = "/d/device-1".parse::<Uri>().unwrap();

    assert_eq!(
        proxied_path("device-1", uri.path_and_query().map(|value| value.as_str())),
        "/"
    );
}

#[test]
fn proxied_path_device_root_with_slash() {
    assert_eq!(proxied_path("my-device", Some("/d/my-device/")), "/");
}

#[test]
fn proxied_path_without_target_is_root() {
    assert_eq!(proxied_path("my-device", None), "/");
}

#[test]
fn proxied_path_other_device_is_unchanged() {
    assert_eq!(proxied_path("a", Some("/d/b/x")), "/d/b/x");
}

#[test]
fn proxied_path_keeps_query_after_root() {
    assert_eq!(
        proxied_path("my-device", Some("/d/my-device?x=1")),
        "?x=1"
    );
}

#[test]
fn proxied_path_non_ascii_device() {
    assert_eq!(proxied_path("gerät", Some("/d/gerät/ä/b")), "/ä/b");
}

#[test]
fn redirect_keeps_query() {
    let r = redirect_device_root("my-device", Some("a=1&b=2"));
    assert_eq!(r.status, 307);
    assert_eq!(r.location, "/d/my-device/?a=1&b=2");
}

#[test]
fn redirect_without_query() {
    let r = redirect_device_root("my-device", None);
    assert_eq!(r.status, 307);
    assert_eq!(r.location, "/d/my-device/");
}

#[test]
fn redirect_then_proxy_reaches_device_root() {
    let r = redirect_device_root("dev", Some("q=1"));
    assert_eq!(proxied_path("dev", Some(r.location.as_str())), "/?q=1");
}
