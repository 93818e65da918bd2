use ttstack::proxy::{
    dispatch_list, gen_resp_err, gen_resp_ok, parse_ops_id, requested_oses, split_env,
    usage_is_consistent, AddEnv, Req, ReqAddEnv, ReqDelEnv, RetStatus, RespGetServerInfo, VmDefaults, DEFAULT_REQ_ID,
    OPS_ID_LEN,
};

fn server(cpu: u32, mem: u32, disk: u32, oses: &[&str]) -> RespGetServerInfo {
    RespGetServerInfo {
        vm_total: 0,
        cpu_total: cpu,
        cpu_used: 0,
        mem_total: mem,
        mem_used: 0,
        disk_total: disk,
        disk_used: 0,
        supported_list: oses.iter().map(|s| s.to_string()).collect(),
    }
}

fn names(v: &[&str]) -> Vec<String> {
    v.iter().map(|s| s.to_string()).collect()
}

#[test]
fn add_env_defaults_and_back() {
    let req = ReqAddEnv {
        env_id: "e".into(),
        os_prefix: names(&["centos"]),
        life_time: Some(9),
        cpu_num: None,
        mem_size: Some(512),
        disk_size: None,
        port_set: vec![22],
        dup_each: None,
        deny_outgoing: true,
    };
    let d = VmDefaults { cpu: 2, mem: 1024, disk: 40960 };
    let a = AddEnv::from_req(req, &d);
    assert_eq!((a.cpu_num, a.mem_size, a.disk_size, a.dup_each), (2, 512, 40960, 0));
    let back = a.into_req();
    assert_eq!((back.cpu_num, back.mem_size, back.disk_size, back.dup_each), (Some(2), Some(512), Some(40960), Some(0)));
    assert!(back.deny_outgoing);
    assert_eq!(back.env_id, "e");
}

#[test]
fn split_places_on_first_server_with_room() {
    let servers = vec![server(8, 8192, 100, &["centos7", "ubuntu"]), server(8, 8192, 100, &["centos7", "fedora"])];
    assert!(usage_is_consistent(&servers));
    // each system needs 2 * (1 + 1) = 4 CPUs
    let jobs = split_env(&servers, &names(&["centos7", "ubuntu", "fedora", "centos7"]), 2, 1024, 10, 1).unwrap();
    assert_eq!(jobs[0], names(&["centos7", "ubuntu"]));
    assert_eq!(jobs[1], names(&["fedora", "centos7"]));
    // the first server is full after two systems
    let small = vec![server(4, 4096, 100, &["centos7", "ubuntu"]), server(8, 8192, 100, &["centos7"])];
    assert!(split_env(&small, &names(&["centos7", "ubuntu"]), 2, 1024, 10, 1).is_none());
}

#[test]
fn split_reports_busy() {
    let servers = vec![server(4, 4096, 100, &["centos7"])];
    assert!(split_env(&servers, &names(&["centos7", "centos7"]), 4, 1, 1, 0).is_none());
    assert!(split_env(&servers, &names(&["debian"]), 1, 1, 1, 0).is_none());
}

#[test]
fn split_nothing_requested() {
    let servers = vec![server(1, 1, 1, &["x"])];
    let jobs = split_env(&servers, &[], 1, 1, 1, 0).unwrap();
    assert_eq!(jobs.len(), 1);
    assert!(jobs[0].is_empty());
    assert!(dispatch_list(jobs).is_empty());
}

#[test]
fn dispatch_skips_idle_servers() {
    let jobs = vec![vec![], names(&["a"]), vec![], names(&["b", "c"])];
    let d = dispatch_list(jobs);
    assert_eq!(d, vec![(1, names(&["a"])), (3, names(&["b", "c"]))]);
}

#[test]
fn requested_systems_dedup_and_prefix() {
    let servers = vec![server(1, 1, 1, &["CentOS7", "ubuntu20"]), server(1, 1, 1, &["centos8", "CentOS7", "Fedora"])];
    assert_eq!(requested_oses(&servers, &names(&["cent"])), names(&["centos8"]));
    assert_eq!(requested_oses(&servers, &names(&["UBU", "cen"])), names(&["ubuntu20", "centos8"]));
    assert!(requested_oses(&servers, &[]).is_empty());
}

#[test]
fn inconsistent_usage_detected() {
    let mut s = server(1, 1, 1, &["x"]);
    s.mem_used = 2;
    assert!(!usage_is_consistent(&[s]));
}

#[test]
fn replies_and_ops() {
    let r = gen_resp_err(7, "Resource busy!");
    assert_eq!(r.uuid, 7);
    assert!(r.status == RetStatus::Fail);
    assert_eq!(r.msg, b"Resource busy!".to_vec());
    let ok = gen_resp_ok(8, b"[]".to_vec());
    assert!(ok.status == RetStatus::Success);
    assert_eq!(RetStatus::Success.to_string(), "Success");
    assert_eq!(RetStatus::Fail.to_string(), "Fail");
    assert_eq!(parse_ops_id("0012"), Some(12));
    assert_eq!(parse_ops_id("12a4"), None);
    assert_eq!(OPS_ID_LEN, 4);
    assert_eq!(DEFAULT_REQ_ID, u64::MAX);
}

#[test]
fn request_envelopes() {
    let r = Req::new(7, ReqDelEnv { env_id: "e1".to_string() });
    assert_eq!(r.uuid, 7);
    assert!(r.cli_id.is_none());
    assert_eq!(r.msg.env_id, "e1");
    let x = Req::newx(8, Some("alice".to_string()), 5u32);
    assert_eq!(x.uuid, 8);
    assert_eq!(x.cli_id.as_deref(), Some("alice"));
    assert_eq!(x.msg, 5);
}
