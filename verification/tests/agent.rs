use std::collections::BTreeMap;
use ttstack::agent::{
    alloc_ip, alloc_port_map, apply_create, apply_destroy, apply_start, apply_stop,
    base_image_path, check_create, choose_host_id, clone_path, detected_engines, host_managed,
    mark_running, max_ip_index_of, new_vm_record, orphaned_vm_ids, plan_restore, plan_start, plan_stop, restore_usage, undo_steps, CreateFailure,
    Step, Undo,
};
use ttstack::api::CreateVmReq;
use ttstack::model::{Engine, Resource, Vm, VmState};

fn res() -> Resource {
    Resource { cpu_total: 8, cpu_used: 0, mem_total: 8192, mem_used: 0, disk_total: 100_000, disk_used: 0, vm_count: 0 }
}

fn req() -> CreateVmReq {
    CreateVmReq {
        vm_id: "vm1".into(),
        env_id: "e1".into(),
        image: "ubuntu".into(),
        engine: Engine::Qemu,
        cpu: 2,
        mem: 1024,
        disk: 4096,
        ports: vec![80],
        deny_outgoing: false,
    }
}

fn vm(state: VmState, engine: Engine) -> Vm {
    Vm {
        id: "vm1".into(),
        env_id: "e1".into(),
        host_id: "h1".into(),
        image: "ubuntu".into(),
        engine,
        cpu: 2,
        mem: 1024,
        disk: 4096,
        ip: "10.10.0.2".into(),
        port_map: BTreeMap::new(),
        state,
        created_at: 1000,
    }
}

#[test]
fn resolve_host_id_generates_and_persists() {
    let (id1, save1) = choose_host_id(None, None);
    assert!(!id1.is_empty());
    assert!(id1.len() <= 8);
    assert!(save1);
    let (id2, save2) = choose_host_id(None, Some(id1.clone()));
    assert_eq!(id1, id2);
    assert!(!save2);
}

#[test]
fn resolve_host_id_cli_overrides() {
    let (id1, _) = choose_host_id(None, None);
    let (id2, save) = choose_host_id(Some("custom-id".into()), Some(id1.clone()));
    assert_eq!(id2, "custom-id");
    assert!(save);
    assert_ne!(id1, id2);
    let (id3, _) = choose_host_id(None, Some(id2.clone()));
    assert_eq!(id3, "custom-id");
}

#[test]
fn create_admission() {
    let r = res();
    assert!(check_create(&req(), "h1", &r).is_ok());
    let mut big = req();
    big.cpu = 9;
    assert_eq!(check_create(&big, "h1", &r).err().unwrap(), "insufficient resources on host h1");
    let mut zero = req();
    zero.mem = 0;
    assert_eq!(check_create(&zero, "h1", &r).err().unwrap(), "mem must be > 0");
    let mut bad = req();
    bad.vm_id = "a b".into();
    assert!(check_create(&bad, "h1", &r).err().unwrap().starts_with("vm_id contains invalid characters"));
}

#[test]
fn ip_allocation_skips_taken() {
    let mut next = 0u32;
    let taken = vec!["10.10.0.2".to_string(), "10.10.0.3".to_string()];
    let (idx, ip) = alloc_ip(&mut next, &taken).unwrap();
    assert_eq!((idx, ip.as_str()), (2, "10.10.0.4"));
    assert_eq!(next, 3);
}

#[test]
fn ip_allocation_exhausted() {
    let mut next = 65001u32;
    assert_eq!(alloc_ip(&mut next, &[]).err().unwrap(), "IP address space exhausted");
}

#[test]
fn port_map_includes_ssh() {
    let m = alloc_port_map(&[80, 443], 1);
    let mut expected = BTreeMap::new();
    expected.insert(22u16, 20100u16);
    expected.insert(80u16, 20101u16);
    expected.insert(443u16, 20102u16);
    assert_eq!(m, expected);
    let m2 = alloc_port_map(&[8080, 22], 0);
    let mut e2 = BTreeMap::new();
    e2.insert(8080u16, 20000u16);
    e2.insert(22u16, 20001u16);
    assert_eq!(m2, e2);
}

#[test]
fn port_map_stops_at_top_port() {
    let m = alloc_port_map(&[80, 81], 455);
    assert_eq!(m.len(), 3);
    assert_eq!(m.get(&22), Some(&65500u16));
    assert_eq!(m.get(&81), Some(&65502u16));
    assert!(alloc_port_map(&[80], 456).is_empty());
    let many: Vec<u16> = (1000..1040).collect();
    assert_eq!(alloc_port_map(&many, 455).len(), 36);
}

#[test]
fn stop_and_start_accounting() {
    let mut r = res();
    apply_create(2, 1024, 4096, &mut r);
    assert_eq!((r.cpu_used, r.mem_used, r.disk_used, r.vm_count), (2, 1024, 4096, 1));
    let running = vm(VmState::Running, Engine::Docker);
    assert!(matches!(plan_stop(running.state), Ok(Step::Proceed)));
    let s = apply_stop(&running, &mut r);
    assert_eq!(s, VmState::Stopped);
    assert_eq!((r.cpu_used, r.mem_used), (0, 0));
    let stopped = vm(VmState::Stopped, Engine::Docker);
    assert!(matches!(plan_start(&stopped, &r), Ok(Step::Proceed)));
    apply_start(VmState::Stopped, 2, 1024, &mut r);
    assert_eq!((r.cpu_used, r.mem_used), (2, 1024));
    let q = vm(VmState::Running, Engine::Qemu);
    assert_eq!(apply_stop(&q, &mut r), VmState::Paused);
    assert_eq!(r.cpu_used, 2);
    apply_destroy(&vm(VmState::Paused, Engine::Qemu), &mut r);
    assert_eq!(r, res());
}

#[test]
fn stop_and_start_refusals() {
    assert_eq!(plan_stop(VmState::Creating).err().unwrap(), "cannot stop VM in state creating");
    assert!(matches!(plan_stop(VmState::Paused), Ok(Step::Noop)));
    let failed = vm(VmState::Failed, Engine::Qemu);
    assert_eq!(plan_start(&failed, &res()).err().unwrap(), "cannot start VM in state failed");
    let mut full = res();
    full.cpu_used = 8;
    let stopped = vm(VmState::Stopped, Engine::Qemu);
    assert_eq!(plan_start(&stopped, &full).err().unwrap(), "insufficient resources to restart VM");
}

#[test]
fn restart_usage_and_addresses() {
    let vms = vec![vm(VmState::Running, Engine::Qemu), vm(VmState::Stopped, Engine::Qemu), vm(VmState::Paused, Engine::Docker)];
    let r = restore_usage(&vms, &res());
    assert_eq!((r.cpu_used, r.mem_used, r.disk_used, r.vm_count), (4, 2048, 8192, 2));
    let mut v2 = vm(VmState::Running, Engine::Qemu);
    v2.ip = "10.10.1.1".into();
    assert_eq!(max_ip_index_of(&[vm(VmState::Running, Engine::Qemu), v2]), 253);
    assert_eq!(max_ip_index_of(&[]), 0);
}

#[test]
fn host_capabilities_and_paths() {
    assert_eq!(detected_engines(true, false, false, false, true), vec![Engine::Qemu, Engine::Docker]);
    assert!(detected_engines(false, false, false, false, false).is_empty());
    assert!(!host_managed(Engine::Docker));
    assert!(host_managed(Engine::Firecracker));
    assert_eq!(clone_path("/rt", "v1"), "/rt/clone-v1");
    assert_eq!(base_image_path("/img", "ubuntu"), "/img/ubuntu");
    let mut pm = BTreeMap::new();
    pm.insert(22u16, 20000u16);
    let rec = new_vm_record(&req(), "h1", "10.10.0.2".into(), pm.clone(), 99);
    assert_eq!(rec.state, VmState::Creating);
    assert_eq!((rec.id.as_str(), rec.host_id.as_str(), rec.created_at), ("vm1", "h1", 99));
    assert_eq!(rec.port_map, pm);
}

#[test]
fn created_vm_ends_running_with_its_request() {
    let mut pm = BTreeMap::new();
    pm.insert(22u16, 20000u16);
    let mut rec = new_vm_record(&req(), "h1", "10.10.0.2".into(), pm.clone(), 99);
    let before = rec.clone();
    mark_running(&mut rec);
    assert_eq!(rec.state, VmState::Running);
    assert_eq!((rec.id.as_str(), rec.env_id.as_str(), rec.image.as_str()), (before.id.as_str(), before.env_id.as_str(), before.image.as_str()));
    assert_eq!((rec.cpu, rec.mem, rec.disk, rec.engine), (before.cpu, before.mem, before.disk, before.engine));
    assert_eq!((rec.ip.as_str(), rec.host_id.as_str(), rec.created_at), ("10.10.0.2", "h1", 99));
    assert_eq!(rec.port_map, pm);
}

#[test]
fn host_ports_of_neighbours_are_disjoint() {
    let ports: Vec<u16> = (1000..1099).collect();
    let a = alloc_port_map(&ports, 7);
    let b = alloc_port_map(&ports, 8);
    assert_eq!(a.len(), 100);
    assert_eq!(b.len(), 100);
    for ha in a.values() {
        assert!(!b.values().any(|hb| hb == ha));
    }
}

#[test]
fn failed_creations_are_undone() {
    assert!(undo_steps(CreateFailure::Clone, true).is_empty());
    assert!(undo_steps(CreateFailure::Tap, true).is_empty());
    assert!(undo_steps(CreateFailure::Record, true).is_empty());
    assert_eq!(undo_steps(CreateFailure::Engine, true), vec![Undo::RemoveClone, Undo::DestroyTap, Undo::DeleteRecord]);
    assert_eq!(undo_steps(CreateFailure::Engine, false), vec![Undo::DeleteRecord]);
    assert_eq!(
        undo_steps(CreateFailure::PostCreate, true),
        vec![Undo::RemoveForwards, Undo::AllowOutgoing, Undo::DestroyInstance, Undo::RemoveClone, Undo::DestroyTap, Undo::DeleteRecord]
    );
}

#[test]
fn orphans_of_interrupted_creations() {
    let mut a = vm(VmState::Creating, Engine::Qemu);
    a.id = "a".into();
    let mut b = vm(VmState::Running, Engine::Qemu);
    b.id = "b".into();
    let mut c = vm(VmState::Creating, Engine::Docker);
    c.id = "c".into();
    assert_eq!(orphaned_vm_ids(&[a.clone(), b.clone(), c.clone()]), vec!["a".to_string(), "c".to_string()]);
    assert!(orphaned_vm_ids(&[b]).is_empty());
}

#[test]
fn restart_plan_drops_orphans_and_restores_usage() {
    let mut a = vm(VmState::Creating, Engine::Qemu);
    a.id = "a".into();
    let mut b = vm(VmState::Running, Engine::Qemu);
    b.id = "b".into();
    let mut c = vm(VmState::Paused, Engine::Docker);
    c.id = "c".into();
    let d = vm(VmState::Stopped, Engine::Qemu);
    let plan = plan_restore(&[a, b, c, d], &res()).unwrap();
    assert_eq!(plan.orphans, vec!["a".to_string()]);
    let r = plan.resource;
    assert_eq!((r.cpu_total, r.mem_total, r.disk_total), (8, 8192, 100_000));
    assert_eq!((r.cpu_used, r.mem_used, r.disk_used, r.vm_count), (4, 2048, 8192, 2));
    let mut big = vm(VmState::Running, Engine::Qemu);
    big.cpu = u32::MAX;
    assert!(plan_restore(&[big, vm(VmState::Running, Engine::Qemu)], &res()).is_none());
}
