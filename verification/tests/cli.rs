use ttstack::api::ApiResp;
use ttstack::cli::{
    base_url, bearer_value, build_vm_specs, choose_owner, config_path, env_create_request,
    parse_cli_config, render_cli_config, reply_data, reply_unit, request_url,
};
use ttstack::model::Engine;

#[test]
fn controller_urls() {
    assert_eq!(base_url("10.0.0.1:9200"), "http://10.0.0.1:9200");
    assert_eq!(base_url("https://ctl.example"), "https://ctl.example");
    assert_eq!(request_url("http://a:1", "/api/status"), "http://a:1/api/status");
    assert_eq!(bearer_value("k"), "Bearer k");
}

#[test]
fn replies() {
    assert_eq!(reply_data(ApiResp::success(5u32), "200 OK"), Ok(5));
    assert_eq!(reply_data(ApiResp::<u32> { ok: true, data: None, error: None }, "200 OK"), Err("empty response".to_string()));
    assert_eq!(reply_data(ApiResp::<u32>::err("nope"), "404 Not Found"), Err("nope".to_string()));
    assert_eq!(reply_data(ApiResp::<u32> { ok: false, data: None, error: None }, "502 Bad Gateway"), Err("HTTP 502 Bad Gateway".to_string()));
    assert_eq!(reply_unit(ApiResp::ok(), "200 OK"), Ok(()));
    assert_eq!(reply_unit(ApiResp::<()> { ok: false, data: None, error: None }, "500"), Err("HTTP 500".to_string()));
}

#[test]
fn config_file_roundtrip() {
    let text = render_cli_config("10.0.0.1:9200", Some("secret"));
    assert_eq!(text, "10.0.0.1:9200\nsecret\n");
    let c = parse_cli_config(&text).unwrap();
    assert_eq!(c.addr, "10.0.0.1:9200");
    assert_eq!(c.api_key.as_deref(), Some("secret"));
    let t2 = render_cli_config("h:1", None);
    assert_eq!(t2, "h:1\n");
    let c2 = parse_cli_config(&t2).unwrap();
    assert_eq!(c2.addr, "h:1");
    assert!(c2.api_key.is_none());
}

#[test]
fn config_file_parsing_edges() {
    assert!(parse_cli_config("").is_none());
    assert!(parse_cli_config("   \nkey\n").is_none());
    let c = parse_cli_config("  a:1  \r\n  \n").unwrap();
    assert_eq!(c.addr, "a:1");
    assert!(c.api_key.is_none());
    assert_eq!(config_path(Some("/home/u")), "/home/u/.ttconfig");
    assert_eq!(config_path(None), "./.ttconfig");
}

#[test]
fn owner_choice() {
    assert_eq!(choose_owner(Some("o".into()), Some("u".into())), "o");
    assert_eq!(choose_owner(None, Some("u".into())), "u");
    assert_eq!(choose_owner(None, None), "default");
}

#[test]
fn vm_specs_are_duplicated_in_order() {
    let images = vec!["a".to_string(), "b".to_string()];
    let v = build_vm_specs(&images, Engine::Docker, Some(1), None, Some(3), 2, &[22, 80], true);
    assert_eq!(v.len(), 4);
    let names: Vec<&str> = v.iter().map(|s| s.image.as_str()).collect();
    assert_eq!(names, vec!["a", "a", "b", "b"]);
    assert!(v.iter().all(|s| s.engine == Engine::Docker && s.cpu == Some(1) && s.mem.is_none() && s.disk == Some(3) && s.ports == vec![22, 80] && s.deny_outgoing));
    assert!(build_vm_specs(&images, Engine::Qemu, None, None, None, 0, &[], false).is_empty());
    let req = env_create_request("env1", "me".into(), v, Some(60));
    assert_eq!((req.id.as_str(), req.owner.as_str(), req.vms.len(), req.lifetime), ("env1", "me", 4, Some(60)));
}
