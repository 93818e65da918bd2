use std::collections::HashSet;
use ttstack::net::{
    allow_outgoing_rule, deny_outgoing_rules, delete_forward_rule, forward_handles,
    ip_index_fits, ip_to_index, linux_tap_commands, nat_setup_rules, pf_deny_rule,
    pf_load_command, pf_rdr_rule, pf_remaining_rules, port_forward_rule, tap_name, vm_ip,
};

/// `ip_to_index` on an address whose arithmetic fits (the check the
/// agent makes first).
fn index_of(ip: &str) -> Option<u32> {
    assert!(ip_index_fits(ip));
    ip_to_index(ip)
}

#[test]
fn vm_ip_first() {
    assert_eq!(vm_ip(0), "10.10.0.2");
}

#[test]
fn vm_ip_sequential() {
    assert_eq!(vm_ip(1), "10.10.0.3");
    assert_eq!(vm_ip(252), "10.10.0.254");
}

#[test]
fn vm_ip_wraps_to_next_octet() {
    assert_eq!(vm_ip(253), "10.10.1.1");
}

#[test]
fn vm_ip_unique_and_valid() {
    let mut seen = HashSet::new();
    for i in 0..1000 {
        let ip = vm_ip(i);
        assert!(seen.insert(ip.clone()), "duplicate IP at index {i}: {ip}");
        let lo: u32 = ip.rsplit('.').next().unwrap().parse().unwrap();
        assert!(lo >= 1 && lo <= 254, "invalid lo octet {lo} at index {i}");
    }
}

#[test]
fn tap_name_fits_ifnamsiz() {
    assert!(tap_name("abc").len() <= 15);
    assert!(tap_name("a".repeat(200).as_str()).len() <= 15);
}

#[test]
fn tap_name_deterministic() {
    assert_eq!(tap_name("vm1"), tap_name("vm1"));
}

#[test]
fn tap_name_unique_for_different_ids() {
    assert_ne!(tap_name("vm1"), tap_name("vm2"));
    assert_ne!(tap_name("very_long_vm_name_1"), tap_name("very_long_vm_name_2"));
}

#[test]
fn tap_name_shape() {
    let t = tap_name("some-vm");
    assert_eq!(t.len(), 15);
    assert!(t.starts_with("tt-"));
    assert!(t[3..].chars().all(|c| c.is_ascii_hexdigit() && !c.is_ascii_uppercase()));
}

#[test]
fn ip_to_index_first() {
    let ip = vm_ip(0);
    assert_eq!(index_of(&ip), Some(0));
}

#[test]
fn ip_to_index_sequential() {
    for i in 0..100 {
        let ip = vm_ip(i);
        assert_eq!(index_of(&ip), Some(i), "mismatch at index {i}: ip={ip}");
    }
}

#[test]
fn ip_to_index_cross_octet() {
    let ip = vm_ip(253);
    let roundtrip = index_of(&ip);
    assert_eq!(roundtrip, Some(253), "ip={ip} roundtrip={roundtrip:?}");
}

#[test]
fn ip_to_index_invalid() {
    assert_eq!(index_of("not-an-ip"), None);
    assert_eq!(index_of("10.10.0"), None);
    assert_eq!(index_of("10.10.x.1"), None);
}

#[test]
fn ip_roundtrip_over_full_range() {
    for i in (0..=65022).step_by(97) {
        assert_eq!(index_of(&vm_ip(i)), Some(i));
    }
    assert_eq!(index_of(&vm_ip(65022)), Some(65022));
}

#[test]
fn ip_index_fits_rejects_huge_octets() {
    assert!(!ip_index_fits("10.10.4294967295.1"));
    assert!(ip_index_fits("10.10.3.4"));
}

#[test]
fn nft_rule_texts() {
    assert_eq!(
        port_forward_rule(20000, "10.10.0.2", 22),
        "add rule ip tt-nat prerouting tcp dport 20000 dnat to 10.10.0.2:22"
    );
    assert_eq!(allow_outgoing_rule("10.10.0.2"), "delete element ip tt-nat denylist { 10.10.0.2 }");
    assert_eq!(delete_forward_rule(17), "delete rule ip tt-nat prerouting handle 17");
    let deny = deny_outgoing_rules("10.10.0.9");
    assert_eq!(deny.len(), 4);
    assert_eq!(deny[3], ("add element ip tt-nat denylist { 10.10.0.9 }".to_string(), true));
    assert!(!deny[0].1 && !deny[1].1 && !deny[2].1);
    let nat = nat_setup_rules();
    assert_eq!(nat.len(), 6);
    assert_eq!(nat[0], ("add table ip tt-nat".to_string(), true));
    assert_eq!(nat[3], ("flush chain ip tt-nat postrouting".to_string(), false));
    assert_eq!(
        nat[5],
        ("add rule ip tt-nat postrouting ip saddr 10.10.0.0/16 masquerade".to_string(), true)
    );
}

#[test]
fn forward_handles_from_listing() {
    let listing = "table ip tt-nat {\n\tchain prerouting {\n\t\ttcp dport 20000 dnat to 10.10.0.2:22 # handle 5\n\t\ttcp dport 20100 dnat to 10.10.0.3:22 # handle 6\n\t\ttcp dport 20001 dnat to 10.10.0.2:80 # handle 7\n\t}\n}\n";
    assert_eq!(forward_handles(listing, "10.10.0.2"), vec![5, 7]);
    assert_eq!(forward_handles(listing, "10.10.0.3"), vec![6]);
    assert!(forward_handles(listing, "10.10.0.4").is_empty());
    assert!(forward_handles("10.10.0.2 without a handle\n", "10.10.0.2").is_empty());
}

#[test]
fn pf_texts() {
    assert_eq!(
        pf_rdr_rule(20000, "10.10.0.2", 22),
        "rdr pass on egress proto tcp from any to any port 20000 -> 10.10.0.2 port 22"
    );
    assert_eq!(pf_deny_rule("10.10.0.2"), "block out quick on egress from 10.10.0.2 to any");
    assert_eq!(pf_load_command("r1\nr2", "ttstack"), "echo 'r1\nr2' | pfctl -a ttstack -f -");
    let rules = "rdr a -> 10.10.0.2 port 22\nrdr b -> 10.10.0.3 port 22\nrdr c -> 10.10.0.4 port 80\n";
    assert_eq!(
        pf_remaining_rules(rules, "10.10.0.2").as_deref(),
        Some("rdr b -> 10.10.0.3 port 22\nrdr c -> 10.10.0.4 port 80")
    );
    assert_eq!(pf_remaining_rules("rdr a -> 10.10.0.2 port 22\n", "10.10.0.2"), None);
}

#[test]
fn tap_commands() {
    let cmds = linux_tap_commands("tt-0123456789ab");
    assert_eq!(cmds[0], vec!["ip", "tuntap", "add", "dev", "tt-0123456789ab", "mode", "tap"]);
    assert_eq!(cmds[1], vec!["ip", "link", "set", "tt-0123456789ab", "master", "tt0"]);
    assert_eq!(cmds[2], vec!["ip", "link", "set", "tt-0123456789ab", "up"]);
}
