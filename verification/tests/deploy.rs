use ttstack::deploy::{
    agent_setup_script, agent_setup_script_checked, api_key_from_seed, ctl_setup_script, deploy_roles, deploy_tmp_dir,
    listen_port, local_agent_cmd, local_ctl_cmd, local_dirs, openrc_initd, parse_disk,
    parse_disk_checked, remote_setup_script, systemd_unit, uid_from_status, AgentConfig,
    ControllerConfig, GeneralConfig,
};

#[test]
fn parse_disk_gib() {
    assert_eq!(parse_disk("200G"), 204800);
    assert_eq!(parse_disk("100g"), 102400);
    assert_eq!(parse_disk("\"500G\""), 512000);
}

#[test]
fn parse_disk_mib() {
    assert_eq!(parse_disk("204800"), 204800);
    assert_eq!(parse_disk("1024"), 1024);
}

#[test]
fn parse_disk_fallbacks_and_trim() {
    assert_eq!(parse_disk("abcG"), 204800);
    assert_eq!(parse_disk("lots"), 204800);
    assert_eq!(parse_disk("  \"1000G\"  "), 1024000);
    assert_eq!(parse_disk_checked("5000000G"), None);
    assert_eq!(parse_disk_checked("4194303G"), Some(4194303 * 1024));
}

#[test]
fn remote_script_contains_sudo() {
    let script = remote_setup_script(
        "tt-agent",
        "/opt/tt/bin/tt-agent --listen 0.0.0.0:9100",
        "ttstack",
        "/home/ttstack",
        "/opt/tt",
        "/tmp/deploy-1",
        &["tt-agent"],
        &["/home/ttstack/images"],
        "testhost",
    );
    assert!(script.contains("sudo"));
    assert!(script.contains("rc-service") || script.contains("systemctl"));
    assert!(script.contains("adduser") || script.contains("useradd"));
}

#[test]
fn remote_script_details() {
    let script = remote_setup_script(
        "tt-ctl",
        "/opt/tt/bin/tt-ctl --listen 0.0.0.0:9200",
        "u",
        "/home/u",
        "/opt/tt",
        "/tmp/d",
        &["tt-ctl", "tt"],
        &["/home/u/ctl"],
        "h1",
    );
    assert!(script.starts_with("#!/bin/sh\nset -e\n"));
    assert!(script.contains("sudo mkdir -p /opt/tt/bin /home/u/ctl /home/u/data /home/u/run\n"));
    assert!(script.contains(
        "sudo cp /tmp/d/tt-ctl /opt/tt/bin/tt-ctl\nsudo chmod 755 /opt/tt/bin/tt-ctl\nsudo cp /tmp/d/tt /opt/tt/bin/tt\nsudo chmod 755 /opt/tt/bin/tt\n"
    ));
    assert!(script.ends_with("echo \"[deploy] tt-ctl deployed on h1\"\n"));
    assert!(script.contains(&systemd_unit("tt-ctl", "/opt/tt/bin/tt-ctl --listen 0.0.0.0:9200", true)));
}

#[test]
fn systemd_unit_text() {
    let u = systemd_unit("tt-ctl", "/x --y", false);
    assert_eq!(
        u,
        "[Unit]\nDescription=TTstack tt-ctl\nAfter=network.target\n\n[Service]\nType=simple\nUser=ttstack\nGroup=ttstack\nExecStart=/x --y\nRestart=on-failure\nRestartSec=5\nLimitNOFILE=65536\n\n[Install]\nWantedBy=multi-user.target\n"
    );
    assert!(systemd_unit("a", "b", true).contains("# Runs as root (needs NET_ADMIN for bridge/TAP/nftables)\n"));
}

#[test]
fn openrc_splits_command() {
    let s = openrc_initd("tt-agent", "/opt/bin/tt-agent --listen 1:2 --x");
    assert!(s.contains("command=\"/opt/bin/tt-agent\"\ncommand_args=\"--listen 1:2 --x\"\n"));
    assert!(s.contains("pidfile=\"/run/${name}.pid\""));
    let t = openrc_initd("x", "/bin/only");
    assert!(t.contains("command=\"/bin/only\"\ncommand_args=\"\"\n"));
}

fn general() -> GeneralConfig {
    let mut g = GeneralConfig::default();
    g.prefix = "/opt/tt".to_string();
    g.user = "myuser".to_string();
    g.api_key = Some("my-secret-key".to_string());
    g
}

#[test]
fn general_defaults() {
    let g = GeneralConfig::default();
    assert_eq!(g.prefix, "/opt/ttstack");
    assert_eq!(g.user, "ttstack");
    assert_eq!(g.release_dir, "./target/release");
    assert!(g.api_key.is_none());
}

#[test]
fn controller_script_command() {
    let c = ControllerConfig {
        host: "10.0.0.1".into(),
        ssh_user: "root".into(),
        ssh_port: 22,
        listen: "0.0.0.0:9200".into(),
        data_dir: None,
    };
    let s = ctl_setup_script(&general(), &c, "k1", "/tmp/ttstack-deploy-7");
    assert!(s.contains("/opt/tt/bin/tt-ctl --listen 0.0.0.0:9200 --data-dir /home/myuser/ctl --api-key k1"));
    assert!(s.contains("sudo mkdir -p /opt/tt/bin /home/myuser/ctl /home/myuser/data /home/myuser/run\n"));
}

#[test]
fn agent_script_command() {
    let a = AgentConfig {
        host: "10.0.0.2".into(),
        ssh_user: "root".into(),
        ssh_port: 22,
        listen: "0.0.0.0:9100".into(),
        storage: "zfs".into(),
        image_dir: Some("tank/images".into()),
        runtime_dir: Some("tank/runtime".into()),
        cpu_total: 32,
        mem_total: 65536,
        disk_total: "1000G".into(),
        host_id: Some("node-a".into()),
        release_dir: None,
    };
    let s = agent_setup_script(&general(), &a, "/tmp/t");
    assert!(s.contains("/opt/tt/bin/tt-agent --listen 0.0.0.0:9100 --image-dir tank/images --runtime-dir tank/runtime --data-dir /home/myuser/data --storage zfs --cpu-total 32 --mem-total 65536 --disk-total 1024000 --host-id node-a"));
    assert!(s.contains("sudo mkdir -p /opt/tt/bin tank/images tank/runtime /home/myuser/data /home/myuser/run\n"));
}

#[test]
fn api_key_format() {
    let k = api_key_from_seed(0x1234);
    assert!(k.starts_with("tt-0000000000001234"));
    let m = 0x1234u128.wrapping_mul(6364136223846793005);
    assert_eq!(k, format!("tt-{:016x}{:016x}", 0x1234u128, m));
    let big = u128::MAX;
    assert_eq!(api_key_from_seed(big), format!("tt-{:016x}{:016x}", big, big.wrapping_mul(6364136223846793005)));
}

#[test]
fn small_texts() {
    assert_eq!(listen_port("0.0.0.0:9200"), "9200");
    assert_eq!(listen_port("9200"), "9200");
    assert_eq!(deploy_tmp_dir(42), "/tmp/ttstack-deploy-42");
    assert_eq!(deploy_roles("all"), (true, true));
    assert_eq!(deploy_roles("agent"), (true, false));
    assert_eq!(deploy_roles("ctl"), (false, true));
    assert_eq!(deploy_roles("x"), (false, false));
    assert!(local_agent_cmd().starts_with("/opt/ttstack/bin/tt-agent --listen 0.0.0.0:9100"));
    assert_eq!(local_ctl_cmd("k"), "/opt/ttstack/bin/tt-ctl --listen 0.0.0.0:9200 --data-dir /home/ttstack/ctl --api-key k");
    assert_eq!(local_dirs("/h"), vec!["/h/images", "/h/runtime", "/h/data", "/h/ctl", "/h/run"]);
}

#[test]
fn uid_parsing() {
    let status = "Name:\tbash\nUmask:\t0022\nUid:\t0\t0\t0\t0\nGid:\t0\t0\t0\t0\n";
    assert_eq!(uid_from_status(status), 0);
    assert_eq!(uid_from_status("Uid:\t1001\t1001\n"), 1001);
    assert_eq!(uid_from_status("Name: x\n"), 1000);
    assert_eq!(uid_from_status("Uid:\n"), 1000);
}

#[test]
fn agent_script_checked_disk() {
    let mut a = AgentConfig {
        host: "10.0.0.3".into(),
        ssh_user: "root".into(),
        ssh_port: 22,
        listen: "0.0.0.0:9100".into(),
        storage: "raw".into(),
        image_dir: None,
        runtime_dir: None,
        cpu_total: 0,
        mem_total: 0,
        disk_total: "200G".into(),
        host_id: None,
        release_dir: None,
    };
    let s = agent_setup_script_checked(&general(), &a, "/tmp/t").unwrap();
    assert_eq!(s, agent_setup_script(&general(), &a, "/tmp/t"));
    assert!(s.contains("--disk-total 204800"));
    a.disk_total = "5000000G".into();
    assert!(agent_setup_script_checked(&general(), &a, "/tmp/t").is_none());
}
