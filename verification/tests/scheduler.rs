use ttstack::api::VmSpec;
use ttstack::model::{Engine, Host, HostState, Resource, Storage};
use ttstack::scheduler::{place_vm, schedule_env, schedule_env_checked};

fn make_host(id: &str, cpu: u32, mem: u32, engines: Vec<Engine>) -> Host {
    Host {
        id: id.into(),
        addr: format!("{id}:9100"),
        resource: Resource {
            cpu_total: cpu,
            cpu_used: 0,
            mem_total: mem,
            mem_used: 0,
            disk_total: 500_000,
            disk_used: 0,
            vm_count: 0,
        },
        state: HostState::Online,
        engines,
        storage: Storage::Raw,
        registered_at: 0,
    }
}

fn make_spec() -> VmSpec {
    VmSpec {
        image: "ubuntu".into(),
        engine: Engine::Qemu,
        cpu: Some(2),
        mem: Some(1024),
        disk: Some(40960),
        ports: vec![22],
        deny_outgoing: false,
    }
}

/// `schedule_env`, after the overflow check the controller makes.
fn schedule(hosts: &[Host], specs: &[VmSpec]) -> Result<Vec<(VmSpec, ttstack::scheduler::Placement)>, String> {
    assert!(schedule_env_checked(hosts, specs).is_some());
    schedule_env(hosts, specs)
}

#[test]
fn place_vm_picks_online_host() {
    let hosts = vec![make_host("h1", 8, 16384, vec![Engine::Qemu])];
    let p = place_vm(&hosts, &make_spec()).unwrap();
    assert_eq!(p.host_id, "h1");
}

#[test]
fn place_vm_skips_offline_host() {
    let mut h = make_host("h1", 8, 16384, vec![Engine::Qemu]);
    h.state = HostState::Offline;
    let hosts = vec![h];
    assert!(place_vm(&hosts, &make_spec()).is_err());
}

#[test]
fn place_vm_skips_wrong_engine() {
    let hosts = vec![make_host("h1", 8, 16384, vec![Engine::Docker])];
    let spec = make_spec();
    assert!(place_vm(&hosts, &spec).is_err());
}

#[test]
fn place_vm_skips_insufficient_resources() {
    let hosts = vec![make_host("h1", 1, 512, vec![Engine::Qemu])];
    let spec = make_spec();
    assert!(place_vm(&hosts, &spec).is_err());
}

#[test]
fn place_vm_best_fit_prefers_smaller() {
    let hosts = vec![
        make_host("h1", 16, 32768, vec![Engine::Qemu]),
        make_host("h2", 4, 4096, vec![Engine::Qemu]),
    ];
    let p = place_vm(&hosts, &make_spec()).unwrap();
    assert_eq!(p.host_id, "h2");
}

#[test]
fn place_vm_error_message() {
    let hosts = vec![make_host("h1", 1, 512, vec![Engine::Qemu])];
    let e = place_vm(&hosts, &make_spec()).err().unwrap();
    assert_eq!(e, "no host available for engine=qemu, cpu=2, mem=1024MB, disk=40960MB");
}

#[test]
fn place_vm_uses_defaults() {
    let hosts = vec![make_host("h1", 2, 1024, vec![Engine::Qemu])];
    let spec = VmSpec {
        image: "ubuntu".into(),
        engine: Engine::Qemu,
        cpu: None,
        mem: None,
        disk: None,
        ports: vec![],
        deny_outgoing: false,
    };
    assert_eq!(place_vm(&hosts, &spec).unwrap().host_id, "h1");
}

#[test]
fn schedule_env_distributes_when_full() {
    let hosts = vec![
        make_host("h1", 4, 4096, vec![Engine::Qemu]),
        make_host("h2", 4, 4096, vec![Engine::Qemu]),
    ];
    let specs: Vec<VmSpec> = (0..3).map(|_| make_spec()).collect();
    let placements = schedule(&hosts, &specs).unwrap();
    assert_eq!(placements.len(), 3);
    let on_h1 = placements.iter().filter(|(_, p)| p.host_id == "h1").count();
    let on_h2 = placements.iter().filter(|(_, p)| p.host_id == "h2").count();
    assert_eq!(on_h1, 2);
    assert_eq!(on_h2, 1);
}

#[test]
fn schedule_env_fails_if_no_capacity() {
    let hosts = vec![make_host("h1", 2, 2048, vec![Engine::Qemu])];
    let specs: Vec<VmSpec> = (0..2).map(|_| make_spec()).collect();
    assert!(schedule(&hosts, &specs).is_err());
}

#[test]
fn schedule_env_empty_specs_ok() {
    let hosts = vec![make_host("h1", 8, 16384, vec![Engine::Qemu])];
    let placements = schedule(&hosts, &[]).unwrap();
    assert!(placements.is_empty());
}

#[test]
fn schedule_env_keeps_specs_and_addresses() {
    let hosts = vec![make_host("h1", 8, 16384, vec![Engine::Qemu])];
    let specs = vec![make_spec()];
    let placements = schedule(&hosts, &specs).unwrap();
    assert_eq!(placements[0].0.image, "ubuntu");
    assert_eq!(placements[0].1.host_addr, "h1:9100");
}

#[test]
fn schedule_env_checked_detects_overflow() {
    let mut h = make_host("h1", u32::MAX, u32::MAX, vec![Engine::Qemu]);
    h.resource.vm_count = u32::MAX;
    let hosts = vec![h];
    assert!(schedule_env_checked(&hosts, &[make_spec()]).is_none());
}

#[test]
fn schedule_env_gives_overcommitted_hosts_nothing() {
    let mut busy = make_host("h1", 4, 16384, vec![Engine::Qemu]);
    busy.resource.cpu_used = 6;
    let free = make_host("h2", 4, 16384, vec![Engine::Qemu]);
    let placed = schedule(&[busy, free], &[make_spec(), make_spec()]).unwrap();
    assert_eq!(placed[0].1.host_id, "h2");
    assert_eq!(placed[1].1.host_id, "h2");
    let mut busy = make_host("h1", 4, 16384, vec![Engine::Qemu]);
    busy.resource.cpu_used = 6;
    assert!(schedule(&[busy], &[make_spec()]).is_err());
}
