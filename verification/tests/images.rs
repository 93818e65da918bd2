use std::collections::HashSet;
use ttstack::images::{
    build_kind, builds_on_platform, docker_tag, fc_init_script, find_recipe, jail_base_url,
    needs_qcow2_conversion, qemu_cloud_url, recipes, recipes_for_engine, BuildKind,
};

#[test]
fn recipes_have_unique_names() {
    let mut seen = HashSet::new();
    for r in recipes() {
        assert!(seen.insert(r.name.clone()), "duplicate recipe: {}", r.name);
    }
}

#[test]
fn docker_tags_resolve() {
    assert_eq!(docker_tag("alpine"), "alpine:3.21");
    assert_eq!(docker_tag("debian"), "debian:trixie-slim");
    assert_eq!(docker_tag("unknown"), "unknown");
}

#[test]
fn qemu_urls_resolve() {
    assert!(qemu_cloud_url("alpine-cloud").is_some());
    assert!(qemu_cloud_url("debian-cloud").is_some());
    assert!(qemu_cloud_url("ubuntu-cloud").is_some());
    assert!(qemu_cloud_url("nonexistent").is_none());
}

#[test]
fn all_engines_covered() {
    let engines: HashSet<String> = recipes().into_iter().map(|r| r.engine).collect();
    assert!(engines.contains("docker"));
    assert!(engines.contains("firecracker"));
    assert!(engines.contains("qemu"));
    assert!(engines.contains("jail"));
}

#[test]
fn catalog_size_and_order() {
    let all = recipes();
    assert_eq!(all.len(), 12);
    assert_eq!(all[0].name, "alpine");
    assert_eq!(all[7].name, "fc-alpine");
    assert_eq!(all[11].name, "freebsd-base");
    assert_eq!(all[11].description, "FreeBSD 14.3 base (fetched from releases, ~180MB)");
}

#[test]
fn find_recipe_known_and_unknown() {
    let r = find_recipe("ubuntu-cloud").ok().unwrap();
    assert_eq!(r.engine, "qemu");
    let e = find_recipe("nope").err().unwrap();
    assert_eq!(e, "unknown image recipe 'nope' (run 'tt image recipes' to list)");
}

#[test]
fn recipes_for_engine_filters_in_order() {
    let q = recipes_for_engine("qemu").ok().unwrap();
    let names: Vec<String> = q.into_iter().map(|r| r.name).collect();
    assert_eq!(names, vec!["alpine-cloud", "debian-cloud", "ubuntu-cloud"]);
    assert_eq!(recipes_for_engine("docker").ok().unwrap().len(), 7);
    assert_eq!(recipes_for_engine("bhyve").err().unwrap(), "no recipes for engine 'bhyve'");
}

#[test]
fn platform_filter() {
    assert!(!builds_on_platform("jail", false));
    assert!(builds_on_platform("jail", true));
    assert!(builds_on_platform("firecracker", false));
    assert!(!builds_on_platform("firecracker", true));
    assert!(builds_on_platform("docker", true));
}

#[test]
fn build_kinds() {
    assert!(matches!(build_kind("docker"), Ok(BuildKind::Docker)));
    assert!(matches!(build_kind("jail"), Ok(BuildKind::Jail)));
    assert_eq!(build_kind("lxc").err().unwrap(), "unsupported engine: lxc");
}

#[test]
fn conversion_only_for_img() {
    let u = qemu_cloud_url("ubuntu-cloud").unwrap();
    assert!(needs_qcow2_conversion(&u));
    let a = qemu_cloud_url("alpine-cloud").unwrap();
    assert!(!needs_qcow2_conversion(&a));
    assert!(needs_qcow2_conversion("img"));
}

#[test]
fn jail_url_uses_major_version() {
    assert_eq!(
        jail_base_url("14.3-RELEASE"),
        "https://download.freebsd.org/releases/amd64/14.3-RELEASE/base.txz"
    );
    assert_eq!(
        jail_base_url("13"),
        "https://download.freebsd.org/releases/amd64/13.3-RELEASE/base.txz"
    );
}

#[test]
fn fc_init_names_recipe() {
    let s = fc_init_script("fc-alpine");
    assert!(s.starts_with("#!/bin/sh\nmount -t proc proc /proc\n"));
    assert!(s.contains("echo \"TTstack Firecracker guest [fc-alpine] booted OK\"\n"));
    assert!(s.ends_with("    while true; do sleep 3600; done\nfi\n"));
}
