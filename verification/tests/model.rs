use ttstack::model::{
    validate_name, Engine, Resource, Storage, VmState, MAX_HOSTS, MAX_LIFETIME, MAX_VMS,
    VM_CPU_DEFAULT, VM_DISK_DEFAULT, VM_MEM_DEFAULT,
};

// ── Engine ──────────────────────────────────────────────────────

#[test]
fn engine_display_roundtrip() {
    for e in [
        Engine::Qemu,
        Engine::Firecracker,
        Engine::Bhyve,
        Engine::Docker,
        Engine::Jail,
    ] {
        let s = e.to_string();
        let parsed: Engine = s.parse().unwrap();
        assert_eq!(e, parsed);
    }
}

#[test]
fn engine_aliases() {
    assert_eq!("kvm".parse::<Engine>().unwrap(), Engine::Qemu);
    assert_eq!("fc".parse::<Engine>().unwrap(), Engine::Firecracker);
    assert_eq!("podman".parse::<Engine>().unwrap(), Engine::Docker);
    assert_eq!("QEMU".parse::<Engine>().unwrap(), Engine::Qemu);
}

#[test]
fn engine_unknown() {
    assert!("foobar".parse::<Engine>().is_err());
}

#[test]
fn engine_unknown_message_names_input() {
    assert_eq!(Engine::parse("foobar").unwrap_err(), "unknown engine: foobar");
}

#[test]
fn engine_names_are_lowercase() {
    assert_eq!(Engine::Qemu.to_string(), "qemu");
    assert_eq!(Engine::Firecracker.to_string(), "firecracker");
    assert_eq!(Engine::Bhyve.to_string(), "bhyve");
    assert_eq!(Engine::Docker.to_string(), "docker");
    assert_eq!(Engine::Jail.to_string(), "jail");
    assert_eq!("JaIl".parse::<Engine>().unwrap(), Engine::Jail);
    assert_eq!("BHYVE".parse::<Engine>().unwrap(), Engine::Bhyve);
}

// ── Storage ─────────────────────────────────────────────────────

#[test]
fn storage_display_roundtrip() {
    for s in [Storage::Zfs, Storage::Btrfs, Storage::Raw] {
        let text = s.to_string();
        let parsed: Storage = text.parse().unwrap();
        assert_eq!(s, parsed);
    }
}

#[test]
fn storage_alias_file() {
    assert_eq!("file".parse::<Storage>().unwrap(), Storage::Raw);
}

#[test]
fn storage_unknown() {
    assert!("ntfs".parse::<Storage>().is_err());
}

#[test]
fn storage_unknown_message_names_input() {
    assert_eq!(Storage::parse("ntfs").unwrap_err(), "unknown storage backend: ntfs");
    assert_eq!(Storage::parse("ZFS").unwrap(), Storage::Zfs);
}

// ── VmState ─────────────────────────────────────────────────────

#[test]
fn vmstate_display() {
    assert_eq!(VmState::Running.to_string(), "running");
    assert_eq!(VmState::Stopped.to_string(), "stopped");
    assert_eq!(VmState::Paused.to_string(), "paused");
    assert_eq!(VmState::Creating.to_string(), "creating");
    assert_eq!(VmState::Failed.to_string(), "failed");
}

// ── Resource ────────────────────────────────────────────────────

#[test]
fn resource_free_values() {
    let r = Resource {
        cpu_total: 16,
        cpu_used: 6,
        mem_total: 32768,
        mem_used: 8192,
        disk_total: 500_000,
        disk_used: 100_000,
        vm_count: 3,
    };
    assert_eq!(r.cpu_free(), 10);
    assert_eq!(r.mem_free(), 24576);
    assert_eq!(r.disk_free(), 400_000);
}

#[test]
fn resource_free_saturates() {
    let r = Resource {
        cpu_total: 4,
        cpu_used: 10, // over-committed
        ..Default::default()
    };
    assert_eq!(r.cpu_free(), 0); // saturates, no panic
}

#[test]
fn resource_can_fit() {
    let r = Resource {
        cpu_total: 8,
        cpu_used: 4,
        mem_total: 16384,
        mem_used: 8192,
        disk_total: 200_000,
        disk_used: 100_000,
        vm_count: 2,
    };
    assert!(r.can_fit(4, 8192, 100_000)); // exact fit
    assert!(r.can_fit(1, 1, 1)); // plenty of room
    assert!(!r.can_fit(5, 1, 1)); // cpu insufficient
    assert!(!r.can_fit(1, 9000, 1)); // mem insufficient
    assert!(!r.can_fit(1, 1, 200_000)); // disk insufficient
}

#[test]
fn resource_default_is_zero() {
    let r = Resource::default();
    assert_eq!(r.cpu_total, 0);
    assert_eq!(r.vm_count, 0);
    assert!(!r.can_fit(1, 1, 1));
}

// ── Constants ───────────────────────────────────────────────────

#[test]
fn constants_sane() {
    assert!(VM_CPU_DEFAULT > 0);
    assert!(VM_MEM_DEFAULT > 0);
    assert!(VM_DISK_DEFAULT > 0);
    assert!(MAX_LIFETIME > 0);
    assert!(MAX_HOSTS > 0 && MAX_HOSTS <= 100);
    assert!(MAX_VMS > 0 && MAX_VMS <= 10_000);
}

#[test]
fn constants_exact_values() {
    assert_eq!(VM_CPU_DEFAULT, 2);
    assert_eq!(VM_MEM_DEFAULT, 1024);
    assert_eq!(VM_DISK_DEFAULT, 40 * 1024);
    assert_eq!(MAX_LIFETIME, 6 * 3600);
    assert_eq!(MAX_HOSTS, 50);
    assert_eq!(MAX_VMS, 1000);
}

// ── Validation ──────────────────────────────────────────────────

#[test]
fn validate_name_ok() {
    assert!(validate_name("ubuntu-22.04", "image").is_ok());
    assert!(validate_name("my-env", "env").is_ok());
    assert!(validate_name("a", "x").is_ok());
}

#[test]
fn validate_name_rejects_traversal() {
    assert!(validate_name("../etc/passwd", "image").is_err());
    assert!(validate_name("foo/../bar", "image").is_err());
    assert!(validate_name("foo/bar", "image").is_err());
}

#[test]
fn validate_name_rejects_empty_and_long() {
    assert!(validate_name("", "env").is_err());
    let long = "a".repeat(200);
    assert!(validate_name(&long, "env").is_err());
}

#[test]
fn validate_name_rejects_null() {
    assert!(validate_name("foo\0bar", "id").is_err());
}

#[test]
fn validate_name_rejects_spaces_and_special() {
    assert!(validate_name("bad name", "env").is_err());
    assert!(validate_name("bad!", "env").is_err());
    assert!(validate_name("bad@name", "env").is_err());
    assert!(validate_name(".hidden", "env").is_err());
}

#[test]
fn validate_name_messages() {
    assert_eq!(validate_name("", "env").unwrap_err(), "env cannot be empty");
    assert_eq!(
        validate_name(&"a".repeat(129), "env").unwrap_err(),
        "env too long (max 128 chars)"
    );
    assert!(validate_name(&"a".repeat(128), "env").is_ok());
    assert_eq!(
        validate_name("a b", "image").unwrap_err(),
        "image contains invalid characters (only a-z, A-Z, 0-9, '-', '_', '.' allowed)"
    );
    assert_eq!(
        validate_name("a..b", "env").unwrap_err(),
        "env must not start with '.' or contain '..'"
    );
    // multi-byte characters count by bytes for the length rule
    assert_eq!(
        validate_name(&"é".repeat(65), "env").unwrap_err(),
        "env too long (max 128 chars)"
    );
}
