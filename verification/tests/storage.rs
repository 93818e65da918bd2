use ttstack::model::Storage;
use ttstack::storage::{
    dataset_of, raw_image_names, snapshot_name, snapshot_names, store_name, subvolume_paths,
    zfs_error, zfs_image_names, zvol_device, CLONE_DISK_FORMAT, ZVOL_DISK_FORMAT,
};

#[test]
fn create_store_names() {
    assert_eq!(store_name(Storage::Raw), "raw");
    assert_eq!(store_name(Storage::Zfs), "zfs");
    assert_eq!(store_name(Storage::Btrfs), "btrfs");
}

#[test]
fn name_is_raw() {
    assert_eq!(store_name(Storage::Raw), "raw");
}

#[test]
fn list_images_filters_clones_and_hidden() {
    let entries = vec!["ubuntu".to_string(), "alpine".into(), ".hidden".into(), "clone-abc".into()];
    assert_eq!(raw_image_names(entries), vec!["alpine", "ubuntu"]);
}

#[test]
fn list_images_empty_dir() {
    assert!(raw_image_names(vec![]).is_empty());
}

#[test]
fn raw_names_sorted_like_std() {
    let entries: Vec<String> = vec!["b", "a", "B", "ab", "a", "é", "z9", "clone", "clone-1"]
        .into_iter()
        .map(String::from)
        .collect();
    let mut expected: Vec<String> = entries
        .iter()
        .filter(|n| !n.starts_with('.') && !n.starts_with("clone-"))
        .cloned()
        .collect();
    expected.sort();
    assert_eq!(raw_image_names(entries), expected);
}

#[test]
fn zfs_names() {
    let listing = "tank/images\ntank/images/ubuntu\n\ntank/images/alpine\n";
    assert_eq!(zfs_image_names(listing, "tank/images"), vec!["ubuntu", "alpine"]);
    assert_eq!(dataset_of("/tank/images"), "tank/images");
    assert_eq!(dataset_of("tank/images"), "tank/images");
    assert_eq!(snapshot_name("tank/x", "ttsnap"), "tank/x@ttsnap");
    assert_eq!(snapshot_names("a@1\n\nb@2\n"), vec!["a@1", "b@2"]);
    assert_eq!(zfs_error("clone", "  boom \n"), "zfs clone failed: boom");
}

#[test]
fn btrfs_paths() {
    let listing = "ID 256 gen 7 top level 5 path images/ubuntu\nnothing here\nID 257 gen 8 top level 5 path images/alpine\n";
    assert_eq!(subvolume_paths(listing), vec!["images/ubuntu", "images/alpine"]);
}

#[test]
fn zvol_disks() {
    assert_eq!(zvol_device("tank/vm/clone-1"), "/dev/zvol/tank/vm/clone-1");
    assert_eq!(ZVOL_DISK_FORMAT, "raw");
    assert_eq!(CLONE_DISK_FORMAT, "qcow2");
}
