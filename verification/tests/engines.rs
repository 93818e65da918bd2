use std::collections::BTreeMap;
use ttstack::engines::{
    authorized_keys, bhyve_args, bhyveload_args, container_runtime, docker_run_args,
    docker_state, fc_config, fc_state, fc_state_request, instance_name, jail_create_args,
    monitor_command, port_entries, qemu_args, qemu_meta_data, qemu_network_config,
    qemu_state, qemu_user_data, run_path, seed_iso_command,
};
use ttstack::model::{Engine, Vm, VmState};
use ttstack::net::tap_name;

fn make_vm() -> Vm {
    Vm {
        id: "test-vm".into(),
        env_id: "e1".into(),
        host_id: "h1".into(),
        image: "img".into(),
        engine: Engine::Qemu,
        cpu: 2,
        mem: 1024,
        disk: 10240,
        ip: "10.10.0.2".into(),
        port_map: Default::default(),
        state: VmState::Creating,
        created_at: 0,
    }
}

#[test]
fn build_cmd_uses_disk_format() {
    let vm = make_vm();
    let args = qemu_args(&vm, "/dev/zvol/tank/clone-1", "raw", false);
    let drive_arg = args.iter().find(|a| a.starts_with("file=")).unwrap();
    assert!(drive_arg.contains("format=raw"));
    assert!(drive_arg.contains("/dev/zvol/tank/clone-1"));

    let args2 = qemu_args(&vm, "/tmp/disk.qcow2", "qcow2", false);
    let drive_arg2 = args2.iter().find(|a| a.starts_with("file=")).unwrap();
    assert!(drive_arg2.contains("format=qcow2"));
}

#[test]
fn qemu_args_full() {
    let vm = make_vm();
    let tap = tap_name("test-vm");
    let args = qemu_args(&vm, "/d", "raw", true);
    assert_eq!(
        args,
        vec![
            "-enable-kvm".to_string(),
            "-daemonize".into(),
            "-name".into(),
            "test-vm".into(),
            "-m".into(),
            "1024M".into(),
            "-smp".into(),
            "2".into(),
            "-drive".into(),
            "file=/d,format=raw,if=virtio".into(),
            "-netdev".into(),
            format!("tap,id=net0,ifname={tap},script=no,downscript=no"),
            "-device".into(),
            "virtio-net-pci,netdev=net0".into(),
            "-pidfile".into(),
            "/home/ttstack/run/qemu-test-vm.pid".into(),
            "-monitor".into(),
            "unix:/home/ttstack/run/qemu-test-vm.sock,server,nowait".into(),
            "-vnc".into(),
            "none".into(),
            "-drive".into(),
            "file=/home/ttstack/run/seed-test-vm.iso,format=raw,if=virtio,readonly=on".into(),
        ]
    );
    assert_eq!(qemu_args(&vm, "/d", "raw", false).len(), 20);
}

#[test]
fn cloud_init_files() {
    assert_eq!(qemu_meta_data("v1"), "instance-id: v1\nlocal-hostname: v1\n");
    let n = qemu_network_config("10.10.0.7");
    assert!(n.starts_with("version: 2\nethernets:\n"));
    assert!(n.contains("      - 10.10.0.7/16\n"));
    assert!(n.contains("        via: 10.10.0.1\n"));
    let u = qemu_user_data(&["ssh-ed25519 AAA a@b".to_string(), "ssh-rsa BBB".to_string()]);
    assert!(u.starts_with("#cloud-config\ndisable_root: false\nssh_pwauth: true\nchpasswd:\n  expire: false\n  list: |\n    root:ttstack\nssh_authorized_keys:\n  - ssh-ed25519 AAA a@b\n  - ssh-rsa BBB\nruncmd:\n"));
    let none = qemu_user_data(&[]);
    assert!(none.starts_with("#cloud-config\ndisable_root: false\nssh_pwauth: true\nchpasswd:\n  expire: false\n  list: |\n    root:ttstack\nruncmd:\n"));
    assert!(none.ends_with("|| true\n"));
}

#[test]
fn seed_iso_tools() {
    let (p, a) = seed_iso_command(true, "/s.iso", "m", "u", "n");
    assert_eq!(p, "genisoimage");
    assert_eq!(a, vec!["-output", "/s.iso", "-volid", "cidata", "-joliet", "-rock", "-quiet", "m", "u", "n"]);
    let (p2, a2) = seed_iso_command(false, "/s.iso", "m", "u", "n");
    assert_eq!(p2, "mkisofs");
    assert_eq!(a2, vec!["-o", "/s.iso", "-V", "cidata", "-J", "-R", "-quiet", "m", "u", "n"]);
}

#[test]
fn monitor_and_states() {
    assert_eq!(monitor_command("cont", "/s"), "echo \"cont\" | socat - UNIX-CONNECT:/s");
    assert_eq!(qemu_state(false, Some("paused")), VmState::Stopped);
    assert_eq!(qemu_state(true, Some("VM status: paused")), VmState::Paused);
    assert_eq!(qemu_state(true, Some("VM status: running")), VmState::Running);
    assert_eq!(qemu_state(true, None), VmState::Running);
    assert_eq!(fc_state(true, Some("{\"state\":\"Paused\"}")), VmState::Paused);
    assert_eq!(fc_state(true, Some("{\"state\":\"Running\"}")), VmState::Running);
    assert_eq!(fc_state(false, None), VmState::Stopped);
}

#[test]
fn firecracker_config_and_requests() {
    let vm = make_vm();
    let c = fc_config(&vm, "/img/fc-alpine");
    assert_eq!(c.kernel_image_path, "/img/fc-alpine/vmlinux");
    assert_eq!(c.rootfs_path, "/img/fc-alpine/rootfs.ext4");
    assert_eq!(c.boot_args, "console=ttyS0 reboot=k panic=1 pci=off");
    assert_eq!((c.vcpu_count, c.mem_size_mib), (2, 1024));
    assert_eq!(c.host_dev_name, tap_name("test-vm"));
    let r = fc_state_request("/s.sock", true);
    assert_eq!(r[1], "/s.sock");
    assert_eq!(r[9], "{\"state\": \"Paused\"}");
    assert_eq!(fc_state_request("/s", false)[9], "{\"state\": \"Resumed\"}");
    assert_eq!(run_path("fc-", "v", ".json"), "/home/ttstack/run/fc-v.json");
}

#[test]
fn docker_arguments() {
    let mut vm = make_vm();
    let mut m = BTreeMap::new();
    m.insert(80u16, 20001u16);
    m.insert(22u16, 20000u16);
    vm.port_map = m;
    vm.image = "nginx".into();
    assert_eq!(
        docker_run_args(&vm),
        vec![
            "run", "-d", "--name", "tt-test-vm", "--cpus", "2", "--memory", "1024m", "-p",
            "20000:22", "-p", "20001:80", "nginx"
        ]
    );
    assert_eq!(port_entries(&vm.port_map), vec![(22, 20000), (80, 20001)]);
    assert_eq!(instance_name("x"), "tt-x");
    assert_eq!(container_runtime(true), "podman");
    assert_eq!(container_runtime(false), "docker");
}

#[test]
fn docker_states() {
    assert_eq!(docker_state(false, "running"), VmState::Stopped);
    assert_eq!(docker_state(true, "running\n"), VmState::Running);
    assert_eq!(docker_state(true, "exited"), VmState::Stopped);
    assert_eq!(docker_state(true, "dead"), VmState::Stopped);
    assert_eq!(docker_state(true, "created"), VmState::Stopped);
    assert_eq!(docker_state(true, "restarting"), VmState::Failed);
}

#[test]
fn jail_and_bhyve_arguments() {
    assert_eq!(
        jail_create_args("tt-v", "/j/root", "10.10.0.5"),
        vec!["-c", "name=tt-v", "path=/j/root", "host.hostname=ttstack", "ip4.addr=10.10.0.5", "persist", "mount.devfs"]
    );
    assert_eq!(authorized_keys(&["a".to_string(), "b".to_string()]), "a\nb\n");
    let vm = make_vm();
    assert_eq!(bhyveload_args(&vm, "/dev/zvol/x"), vec!["-m", "1024M", "-d", "/dev/zvol/x", "test-vm"]);
    let a = bhyve_args(&vm, "/dev/zvol/x");
    assert_eq!(a.len(), 18);
    assert_eq!(a[10], "3:0,virtio-blk,/dev/zvol/x");
    assert_eq!(a[12], format!("4:0,virtio-net,{}", tap_name("test-vm")));
    assert_eq!(a[17], "test-vm");
}

#[test]
fn cloud_init_enables_root_password_login() {
    let u = qemu_user_data(&[]);
    assert!(u.contains("ssh_pwauth: true\n"));
    assert!(u.contains("    root:ttstack\n"));
    assert!(u.contains("PermitRootLogin yes"));
    assert!(u.contains("PasswordAuthentication yes"));
}
