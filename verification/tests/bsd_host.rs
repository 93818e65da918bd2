use ttstack::bsd_host::{
    bhyve_exec_args, bhyve_stop_script, host_clean_script, host_init_script, is_partition,
    nat_rule, offered_image, post_clean_script, pre_start_script, vm_kind, zfs_root, VmKind,
};

#[test]
fn partitions() {
    assert!(is_partition("CentOS7.5s3"));
    assert!(is_partition("FreeBSD12.1p2"));
    assert!(!is_partition("bhyve:ubuntu20"));
    assert!(is_partition("bhyve:centos7"));
    assert!(!is_partition("123"));
}

#[test]
fn kinds_and_offered_images() {
    assert!(matches!(vm_kind("BHYVE:FreeBSD"), Ok(VmKind::Bhyve)));
    assert_eq!(vm_kind("qemu:x").err().unwrap(), "Invalid OS name, it should starts with one of [ bhvye ].");
    assert_eq!(offered_image("bhyve:CentOS7").as_deref(), Some("bhyve:centos7"));
    assert_eq!(offered_image("bhyve:centos7@base"), None);
    assert_eq!(offered_image("bhyve:centos7s1"), None);
    assert_eq!(offered_image("clone_bhyve:x"), None);
    assert_eq!(offered_image("linux"), None);
}

#[test]
fn zfs_root_trimming() {
    assert_eq!(zfs_root("/dev/zvol/zroot/tt/"), "zroot/tt");
    assert_eq!(zfs_root("zroot/tt//"), "zroot/tt");
    assert_eq!(zfs_root("/dev/zvol//dev/zvol/x"), "/dev/zvol/x".trim_start_matches("/dev/zvol/"));
    assert_eq!(zfs_root("/dev/zvol/dev/zvol/x"), "dev/zvol/x");
}

#[test]
fn bhyve_arguments() {
    let a = bhyve_exec_args(300, 2, 1024, "zroot/tt");
    assert_eq!(a[12], "2,virtio-blk,/dev/zvol/zroot/tt/clone_300");
    assert_eq!(a[14], "3,virtio-net,tap300,mac=00:be:fa:76:01:2c");
    assert_eq!(a[17], "300");
    assert_eq!(a.len(), 18);
}

#[test]
fn nat_rules() {
    assert_eq!(nat_rule("1", "192.168.1.1", "10.0.0.5", &[]), None);
    let r = nat_rule("1", "192.168.1.1", "10.0.0.5", &[(22, 20005), (80, 20001)]).unwrap();
    assert_eq!(
        r,
        "\n            ipfw table 1 add 192.168.1.1,20005 20001 192.168.1.1,20001 20001 || exit 1;\n            ipfw -q nat 20001 config ip 192.168.1.1 redirect_port tcp 10.0.0.5:22 20005 redirect_port udp 10.0.0.5:22 20005 redirect_port tcp 10.0.0.5:80 20001 redirect_port udp 10.0.0.5:80 20001 || exit 1;\n            "
    );
}

#[test]
fn host_scripts() {
    assert!(host_init_script().starts_with("kldload vmm ipfw"));
    assert!(host_clean_script("zroot/tt").contains("grep -o 'zroot/tt/clone_[0-9]\\+'"));
    assert_eq!(
        pre_start_script("7", "zroot/tt", "bhyve:c7"),
        "ifconfig tap7 destroy 2>/dev/null; ifconfig tap7 create || exit 1; ifconfig bridge0 addm tap7 up || exit 1; bhyvectl --destroy --vm=7 2>/dev/null; zfs clone -o volmode=dev zroot/tt/bhyve:c7@base zroot/tt/clone_7"
    );
    assert!(post_clean_script("7", "zroot/tt").starts_with("bhyvectl --destroy --vm=7; (sleep 2; zfs destroy zroot/tt/clone_7) &"));
    assert_eq!(bhyve_stop_script("7"), "bhyvectl --destroy --vm=7");
}
