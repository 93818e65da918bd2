use ttstack::api::{AgentInfo, CreateEnvReq, VmSpec};
use ttstack::controller::{
    agent_url, check_remove_host, create_outcome, db_path, env_expiry, env_exists_message,
    expired_envs, find_host, finish_env, fleet_status, new_progress, record_reply, fleet_totals_fit, images_of_host, lists_images,
    make_env, plan_register, refresh_host, validate_env_request, vm_request, vm_url,
    AgentFetch, AgentReply, CreateReply, BAD_GATEWAY, CONFLICT,
};
use ttstack::model::{Engine, Env, EnvState, Host, HostState, Resource, Storage, Vm, VmState, MAX_LIFETIME};

fn make_host(id: &str) -> Host {
    Host {
        id: id.into(),
        addr: format!("{id}:9100"),
        resource: Resource { cpu_total: 8, mem_total: 16384, disk_total: 500_000, ..Default::default() },
        state: HostState::Online,
        engines: vec![Engine::Qemu],
        storage: Storage::Raw,
        registered_at: 1000,
    }
}

fn make_env_rec(id: &str, expires_at: u64) -> Env {
    Env {
        id: id.into(),
        owner: "tester".into(),
        vm_ids: vec!["vm1".into()],
        created_at: 1000,
        expires_at,
        state: EnvState::Active,
    }
}

fn spec(image: &str) -> VmSpec {
    VmSpec {
        image: image.into(),
        engine: Engine::Qemu,
        cpu: None,
        mem: Some(2048),
        disk: None,
        ports: vec![80],
        deny_outgoing: true,
    }
}

#[test]
fn fleet_status_aggregates() {
    let mut h1 = make_host("h1");
    h1.resource.cpu_used = 2;
    h1.resource.mem_used = 4096;
    let mut h2 = make_host("h2");
    h2.state = HostState::Offline;
    let hosts = vec![h1, h2];
    assert!(fleet_totals_fit(&hosts));
    let status = fleet_status(&hosts, 1, 1);
    assert_eq!(status.hosts, 2);
    assert_eq!(status.hosts_online, 1);
    assert_eq!(status.total_envs, 1);
    assert_eq!(status.total_vms, 1);
    assert_eq!(status.cpu_total, 16);
    assert_eq!(status.cpu_used, 2);
    assert_eq!(status.mem_used, 4096);
    assert_eq!(status.disk_total, 1_000_000);
}

#[test]
fn fleet_totals_overflow_detected() {
    let mut h1 = make_host("h1");
    h1.resource.cpu_total = u32::MAX;
    let h2 = make_host("h2");
    assert!(!fleet_totals_fit(&[h1, h2]));
}

#[test]
fn env_request_validation() {
    let ok = CreateEnvReq { id: "env-1".into(), owner: "me".into(), vms: vec![spec("ubuntu")], lifetime: None };
    assert!(validate_env_request(&ok).is_ok());
    let bad_name = CreateEnvReq { id: "../x".into(), owner: "me".into(), vms: vec![], lifetime: None };
    assert_eq!(validate_env_request(&bad_name).err().unwrap(), "env name contains invalid characters (only a-z, A-Z, 0-9, '-', '_', '.' allowed)");
    let bad_image = CreateEnvReq { id: "e".into(), owner: "me".into(), vms: vec![spec("ok"), spec("")], lifetime: None };
    assert_eq!(validate_env_request(&bad_image).err().unwrap(), "image cannot be empty");
}

#[test]
fn expiry_is_capped() {
    assert_eq!(env_expiry(1000, Some(60)), 1060);
    assert_eq!(env_expiry(1000, Some(1_000_000)), 1000 + MAX_LIFETIME);
    assert_eq!(env_expiry(1000, None), 1000 + MAX_LIFETIME);
    // A lifetime of 0 means the default (6 hours).
    assert_eq!(env_expiry(1000, Some(0)), 1000 + MAX_LIFETIME);
    assert_eq!(env_expiry(1000, Some(MAX_LIFETIME)), 1000 + MAX_LIFETIME);
    assert_eq!(env_expiry(1000, Some(1)), 1001);
}

#[test]
fn expired_env_selection() {
    let envs = vec![make_env_rec("a", 0), make_env_rec("b", 500), make_env_rec("c", 2000), make_env_rec("d", 1000)];
    assert_eq!(expired_envs(&envs, 1000), vec!["b", "d"]);
}

#[test]
fn new_env_record() {
    let req = CreateEnvReq { id: "e1".into(), owner: "me".into(), vms: vec![], lifetime: Some(10) };
    let e = make_env(&req, vec!["v1".into()], 5, 15);
    assert_eq!((e.id.as_str(), e.owner.as_str(), e.created_at, e.expires_at), ("e1", "me", 5, 15));
    assert_eq!(e.state, EnvState::Active);
}

#[test]
fn agent_request_uses_defaults() {
    let r = vm_request(&spec("ubuntu"), "env1", "abcdef123456".into());
    assert_eq!((r.cpu, r.mem, r.disk), (2, 2048, 40960));
    assert_eq!(r.ports, vec![80]);
    assert!(r.deny_outgoing);
    assert_eq!(r.env_id, "env1");
    assert_eq!(r.vm_id, "abcdef123456");
}

#[test]
fn agent_urls() {
    assert_eq!(agent_url("10.0.0.2:9100", "/api/info"), "http://10.0.0.2:9100/api/info");
    assert_eq!(vm_url("h:1", "v", None), "http://h:1/api/vms/v");
    assert_eq!(vm_url("h:1", "v", Some("stop")), "http://h:1/api/vms/v/stop");
    assert_eq!(db_path("/data"), "/data/ctl.db");
}

#[test]
fn host_lookup() {
    let hosts = vec![make_host("h1"), make_host("h2"), make_host("h2")];
    assert_eq!(find_host(&hosts, "h2"), Some(1));
    assert_eq!(find_host(&hosts, "h3"), None);
}

#[test]
fn creation_outcomes() {
    assert_eq!(create_outcome("a:1", CreateReply::Unparseable).err().unwrap(), "unparseable response from a:1");
    assert_eq!(create_outcome("a:1", CreateReply::Refused("500 Internal Server Error".into())).err().unwrap(), "agent a:1 returned 500 Internal Server Error");
    assert_eq!(create_outcome("a:1", CreateReply::Unreachable("timeout".into())).err().unwrap(), "failed to reach a:1: timeout");
    assert_eq!(env_exists_message("e1"), "environment 'e1' already exists");
}

fn info() -> AgentInfo {
    AgentInfo {
        host_id: "h9".into(),
        resource: Resource { cpu_total: 4, ..Default::default() },
        engines: vec![Engine::Docker],
        storage: Storage::Zfs,
        images: vec![],
    }
}

#[test]
fn registration_plan() {
    let h = plan_register(AgentFetch::Info(info()), 3, "10.0.0.9:9100".into(), 77).ok().unwrap();
    assert_eq!((h.id.as_str(), h.addr.as_str(), h.registered_at), ("h9", "10.0.0.9:9100", 77));
    assert_eq!(h.state, HostState::Online);
    let full = plan_register(AgentFetch::Info(info()), 50, "a".into(), 0).err().unwrap();
    assert_eq!((full.status, full.message.as_str()), (CONFLICT, "fleet limit reached (50 hosts)"));
    let down = plan_register(AgentFetch::Unreachable("refused".into()), 0, "a:1".into(), 0).err().unwrap();
    assert_eq!((down.status, down.message.as_str()), (BAD_GATEWAY, "cannot reach agent at a:1: refused"));
    let empty = plan_register(AgentFetch::NoData, 0, "a".into(), 0).err().unwrap();
    assert_eq!(empty.message, "agent returned no data");
    let bad = plan_register(AgentFetch::BadReply("eof".into()), 0, "a".into(), 0).err().unwrap();
    assert_eq!(bad.message, "invalid agent response: eof");
}

#[test]
fn host_removal_and_refresh() {
    assert!(check_remove_host("h1", 0).is_ok());
    assert_eq!(check_remove_host("h1", 3).err().unwrap(), "host h1 still has 3 VMs; destroy them first");
    let mut h = make_host("h1");
    refresh_host(&mut h, AgentReply::Unreachable);
    assert_eq!(h.state, HostState::Offline);
    let r = Resource { cpu_total: 9, ..Default::default() };
    refresh_host(&mut h, AgentReply::Info(r));
    assert_eq!(h.state, HostState::Online);
    assert_eq!(h.resource.cpu_total, 9);
    refresh_host(&mut h, AgentReply::NoInfo);
    assert_eq!(h.resource.cpu_total, 9);
}

#[test]
fn image_listing() {
    let mut h = make_host("h1");
    assert!(lists_images(&h));
    let imgs = images_of_host(&h, vec!["a".into(), "b".into()]);
    assert_eq!(imgs.len(), 2);
    assert_eq!((imgs[1].name.as_str(), imgs[1].host_id.as_str()), ("b", "h1"));
    h.state = HostState::Offline;
    assert!(!lists_images(&h));
}

fn vm_rec(id: &str) -> Vm {
    Vm {
        id: id.into(),
        env_id: "e1".into(),
        host_id: "h1".into(),
        image: "ubuntu".into(),
        engine: Engine::Qemu,
        cpu: 2,
        mem: 1024,
        disk: 40960,
        ip: "10.10.0.2".into(),
        port_map: Default::default(),
        state: VmState::Running,
        created_at: 10,
    }
}

#[test]
fn env_creation_gathers_replies() {
    let req = CreateEnvReq { id: "e1".into(), owner: "bob".into(), vms: vec![spec("a"), spec("b"), spec("c")], lifetime: None };
    let mut p = new_progress();
    record_reply(&mut p, "h1:9100", "vm-1".into(), CreateReply::Created(vm_rec("vm-1")));
    record_reply(&mut p, "h2:9100", "vm-2".into(), CreateReply::Unreachable("refused".into()));
    record_reply(&mut p, "h3:9100", "vm-3".into(), CreateReply::Unparseable);
    assert_eq!(p.vm_ids, vec!["vm-1".to_string()]);
    assert_eq!(p.vms.len(), 1);
    assert_eq!(p.warnings, vec!["failed to reach h2:9100: refused".to_string(), "unparseable response from h3:9100".to_string()]);
    let d = finish_env(&req, p, 100, 200).ok().unwrap();
    assert_eq!(d.env.id, "e1");
    assert_eq!(d.env.owner, "bob");
    assert_eq!(d.env.vm_ids, vec!["vm-1".to_string()]);
    assert_eq!((d.env.created_at, d.env.expires_at), (100, 200));
    assert_eq!(d.env.state, EnvState::Active);
    assert_eq!(d.vms[0].id, "vm-1");
    assert_eq!(d.warnings.len(), 2);
}

#[test]
fn env_creation_fails_when_no_vm_came_up() {
    let req = CreateEnvReq { id: "e1".into(), owner: "bob".into(), vms: vec![spec("a")], lifetime: None };
    let mut p = new_progress();
    record_reply(&mut p, "h1:9100", "vm-1".into(), CreateReply::Refused("500 Internal Server Error".into()));
    let e = finish_env(&req, p, 100, 200).err().unwrap();
    assert_eq!(e, "all VM creation attempts failed; check agent connectivity");
    let empty = CreateEnvReq { id: "e2".into(), owner: "bob".into(), vms: vec![], lifetime: None };
    assert!(finish_env(&empty, new_progress(), 1, 2).is_ok());
}
