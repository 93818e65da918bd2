use ttstack::api::{default_engine, ApiResp, ApiRespEmpty, VmSpec};
use ttstack::auth::constant_time_eq;
use ttstack::model::Engine;

#[test]
fn api_resp_success_roundtrip() {
    let resp = ApiResp::success("hello".to_string());
    assert!(resp.ok);
    assert_eq!(resp.data.as_deref(), Some("hello"));
    assert!(resp.error.is_none());
}

#[test]
fn api_resp_error() {
    let resp = ApiResp::<String>::err("boom");
    assert!(!resp.ok);
    assert!(resp.data.is_none());
    assert_eq!(resp.error.as_deref(), Some("boom"));
}

#[test]
fn api_resp_empty_ok() {
    let resp = ApiRespEmpty::ok();
    assert!(resp.ok);
    assert!(resp.data.is_none());
    assert!(resp.error.is_none());
}

#[test]
fn vm_spec_defaults() {
    assert_eq!(default_engine(), Engine::Qemu);
    let spec = VmSpec {
        image: "ubuntu".to_string(),
        engine: default_engine(),
        cpu: None,
        mem: None,
        disk: None,
        ports: vec![],
        deny_outgoing: false,
    };
    assert_eq!(spec.image, "ubuntu");
    assert_eq!(spec.engine, Engine::Qemu);
    assert!(spec.ports.is_empty());
    assert!(!spec.deny_outgoing);
    assert_eq!(spec.cpu_or_default(), 2);
    assert_eq!(spec.mem_or_default(), 1024);
    assert_eq!(spec.disk_or_default(), 40960);
}

#[test]
fn equal_strings() {
    assert!(constant_time_eq("abc", "abc"));
    assert!(constant_time_eq("", ""));
    assert!(constant_time_eq(
        "tt-0123456789abcdef",
        "tt-0123456789abcdef"
    ));
}

#[test]
fn different_strings() {
    assert!(!constant_time_eq("abc", "abd"));
    assert!(!constant_time_eq("abc", "ab"));
    assert!(!constant_time_eq("", "a"));
}

#[test]
fn constant_time_eq_multibyte() {
    assert!(constant_time_eq("héllo", "héllo"));
    assert!(!constant_time_eq("héllo", "hello"));
}
