use ttstack::agent_config::{parse_mem_total, parse_sysctl_mem, Config};
use ttstack::model::Storage;

/// The agent's settings as its command line defaults them.
fn defaults() -> Config {
    Config {
        listen: "0.0.0.0:9100".to_string(),
        image_dir: "/home/ttstack/images".to_string(),
        runtime_dir: "/home/ttstack/runtime".to_string(),
        data_dir: "/home/ttstack/data".to_string(),
        storage: "raw".to_string(),
        cpu_total: 0,
        mem_total: 0,
        disk_total: 200 * 1024,
        host_id: None,
        api_key: None,
    }
}

#[test]
fn parse_meminfo() {
    let content = "\
MemTotal:       131696312 kB
MemFree:         1234567 kB
MemAvailable:    9876543 kB";
    assert_eq!(parse_mem_total(content), Some(131696312 / 1024));
}

#[test]
fn parse_meminfo_missing() {
    assert_eq!(parse_mem_total("nothing here"), None);
}

#[test]
fn parse_meminfo_malformed() {
    assert_eq!(parse_mem_total("MemTotal: notanumber kB"), None);
}

#[test]
fn parse_meminfo_not_first_line_and_crlf() {
    assert_eq!(parse_mem_total("MemFree: 1 kB\r\nMemTotal:\t2048 kB\r\n"), Some(2));
    assert_eq!(parse_mem_total("MemTotal:"), None);
    assert_eq!(parse_mem_total(""), None);
}

#[test]
fn storage_kind_default() {
    // Default is "raw"
    let cfg = defaults();
    assert_eq!(cfg.storage_kind(), Storage::Raw);
}

#[test]
fn storage_kind_zfs() {
    let cfg = Config { storage: "zfs".to_string(), ..defaults() };
    assert_eq!(cfg.storage_kind(), Storage::Zfs);
}

#[test]
fn storage_kind_invalid_falls_back() {
    let cfg = Config { storage: "foo".to_string(), ..defaults() };
    assert_eq!(cfg.storage_kind(), Storage::Raw);
}

#[test]
fn effective_cpu_explicit() {
    let cfg = Config { cpu_total: 16, ..defaults() };
    assert_eq!(cfg.effective_cpu(Some(64)), 16);
}

#[test]
fn effective_cpu_auto() {
    let cfg = defaults();
    // Auto-detect: should be > 0
    assert!(cfg.effective_cpu(Some(8)) > 0);
    assert_eq!(cfg.effective_cpu(Some(8)), 8);
    assert_eq!(cfg.effective_cpu(None), 4);
}

#[test]
fn effective_mem_explicit() {
    let cfg = Config { mem_total: 4096, ..defaults() };
    assert_eq!(cfg.effective_mem(Some(1)), 4096);
}

#[test]
fn effective_mem_auto() {
    let cfg = defaults();
    // Whether or not detection works, the result is positive
    assert!(cfg.effective_mem(None) > 0);
    assert_eq!(cfg.effective_mem(None), 8192);
    assert_eq!(cfg.effective_mem(parse_mem_total("MemTotal: 16777216 kB")), 16384);
}

#[test]
fn parse_sysctl_physmem() {
    assert_eq!(parse_sysctl_mem("17179869184\n"), Some(16384));
    assert_eq!(parse_sysctl_mem("  1048576  "), Some(1));
    assert_eq!(parse_sysctl_mem("1048575"), Some(0));
}

#[test]
fn parse_sysctl_not_a_number() {
    assert_eq!(parse_sysctl_mem(""), None);
    assert_eq!(parse_sysctl_mem("hw.physmem: 123"), None);
    assert_eq!(parse_sysctl_mem("-5"), None);
}
