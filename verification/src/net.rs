//! Addressing on the host bridge: VM IP addresses and TAP device names.

use vstd::prelude::*;
use vstd::string::StringExecFns;
use crate::num::{
    dec, digit_char, digit_char_exec, hex_fixed, hex_fixed_exec, lemma_dec, lemma_hex_fixed_len,
    lemma_parse_dec_u32, parse_u32, parse_u32_chars, parse_u64, parse_u64_chars, u32_to_dec,
    u64_to_dec,
};
use crate::text::{
    after_last, after_last_exec, chars_of, contains_chars, contains_text, join, join_strings, lines,
    lines_of, string_from_chars, trim, trim_ws, views,
};

verus! {

/// Default bridge name on each host.
pub const BRIDGE_NAME: &'static str = "tt0";
/// Bridge IP address (gateway for VMs).
pub const BRIDGE_ADDR: &'static str = "10.10.0.1";
/// Bridge subnet mask.
pub const BRIDGE_CIDR: &'static str = "10.10.0.1/16";
/// nftables table name (Linux).
pub const NFT_TABLE: &'static str = "tt-nat";

// ── Splitting text on a separator ───────────────────────────────────

/// The fields of `s` between occurrences of `sep`, as `str::split` gives
/// them (always at least one field).
pub open spec fn split_on(s: Seq<char>, sep: char) -> Seq<Seq<char>>
    decreases s.len(),
{
    if s.len() == 0 {
        seq![Seq::<char>::empty()]
    } else {
        let p = split_on(s.drop_last(), sep);
        if s.last() == sep {
            p.push(Seq::<char>::empty())
        } else {
            p.update(p.len() - 1, p.last().push(s.last()))
        }
    }
}

/// Splitting always yields at least one field.
pub proof fn lemma_split_nonempty(s: Seq<char>, sep: char)
    ensures
        split_on(s, sep).len() >= 1,
    decreases s.len(),
{
    if s.len() > 0 {
        lemma_split_nonempty(s.drop_last(), sep);
    }
}

/// Appending text without separators extends the last field.
pub proof fn lemma_split_append_plain(x: Seq<char>, y: Seq<char>, sep: char)
    requires
        forall|i: int| 0 <= i < y.len() ==> #[trigger] y[i] != sep,
    ensures
        split_on(x + y, sep) == split_on(x, sep).update(
            split_on(x, sep).len() - 1,
            split_on(x, sep).last() + y,
        ),
    decreases y.len(),
{
    lemma_split_nonempty(x, sep);
    if y.len() == 0 {
        assert(x + y =~= x);
        assert(split_on(x, sep).last() + y =~= split_on(x, sep).last());
        assert(split_on(x, sep).update(split_on(x, sep).len() - 1, split_on(x, sep).last())
            =~= split_on(x, sep));
    } else {
        let y2 = y.drop_last();
        assert forall|i: int| 0 <= i < y2.len() implies #[trigger] y2[i] != sep by {
            assert(y2[i] == y[i]);
        }
        lemma_split_append_plain(x, y2, sep);
        assert((x + y).drop_last() =~= x + y2);
        assert((x + y).last() == y.last());
        lemma_split_nonempty(x + y2, sep);
        let p = split_on(x, sep);
        assert(p.last() + y =~= (p.last() + y2).push(y.last()));
        assert(split_on(x + y, sep) =~= p.update(p.len() - 1, p.last() + y));
    }
}

/// Appending a separator starts a new, empty field.
pub proof fn lemma_split_append_sep(x: Seq<char>, sep: char)
    ensures
        split_on(x.push(sep), sep) == split_on(x, sep).push(Seq::<char>::empty()),
{
    assert(x.push(sep).drop_last() =~= x);
}

/// Split `s` on `sep`, as `str::split` does.
pub fn split_chars(s: &[char], sep: char) -> (r: Vec<Vec<char>>)
    ensures
        r@.len() == split_on(s@, sep).len(),
        forall|i: int| 0 <= i < r@.len() ==> #[trigger] r@[i]@ == split_on(s@, sep)[i],
{
    let mut parts: Vec<Vec<char>> = Vec::new();
    let mut cur: Vec<char> = Vec::new();
    let mut i: usize = 0;
    assert(s@.subrange(0, 0) =~= Seq::<char>::empty());
    while i < s.len()
        invariant
            i <= s@.len(),
            parts@.len() + 1 == split_on(s@.subrange(0, i as int), sep).len(),
            forall|k: int| 0 <= k < parts@.len() ==> #[trigger] parts@[k]@ == split_on(
                s@.subrange(0, i as int),
                sep,
            )[k],
            cur@ == split_on(s@.subrange(0, i as int), sep).last(),
        decreases s@.len() - i,
    {
        let c = s[i];
        let ghost pre = s@.subrange(0, i as int);
        let ghost nxt = s@.subrange(0, i as int + 1);
        assert(nxt.drop_last() =~= pre);
        proof {
            lemma_split_nonempty(pre, sep);
        }
        if c == sep {
            let done = cur;
            parts.push(done);
            cur = Vec::new();
            assert forall|k: int| 0 <= k < parts@.len() implies #[trigger] parts@[k]@
                == split_on(nxt, sep)[k] by {}
        } else {
            cur.push(c);
            assert forall|k: int| 0 <= k < parts@.len() implies #[trigger] parts@[k]@
                == split_on(nxt, sep)[k] by {}
        }
        i = i + 1;
    }
    assert(s@.subrange(0, s@.len() as int) =~= s@);
    parts.push(cur);
    parts
}

// ── VM IP addresses ─────────────────────────────────────────────────

/// Third octet of the IP of the VM with sequential index `index`.
pub open spec fn vm_ip_hi(index: u32) -> nat {
    (((index + 1) / 254) % 256) as nat
}

/// Last octet of the IP of the VM with sequential index `index`.
pub open spec fn vm_ip_lo(index: u32) -> nat {
    (((index + 1) % 254) + 1) as nat
}

/// `10.10.<hi>.<lo>` for the VM with sequential index `index`.
pub open spec fn vm_ip_text(index: u32) -> Seq<char> {
    seq!['1', '0', '.', '1', '0', '.'] + dec(vm_ip_hi(index)) + seq!['.'] + dec(vm_ip_lo(index))
}

/// Derive an IP address for a VM from a sequential index (0..65534).
///
/// Produces addresses in the 10.10.x.y range, skipping .0 and .255.
pub fn vm_ip(index: u32) -> (s: String)
    requires
        index < u32::MAX,
    ensures
        s@ == vm_ip_text(index),
{
    let internal = index + 1;
    let q = internal / 254;
    let hi = q & 0xFF;
    assert(hi == q % 256) by (bit_vector)
        requires
            hi == q & 0xFF,
    ;
    let lo = (internal % 254) + 1;
    let h = u32_to_dec(hi);
    let l = u32_to_dec(lo);
    let s = String::from_str("10.10.").concat(h.as_str()).concat(".").concat(l.as_str());
    proof {
        reveal_strlit("10.10.");
        reveal_strlit(".");
        assert(s@ =~= vm_ip_text(index));
    }
    s
}

/// The index that `ip` encodes: the inverse of [`vm_ip`] on addresses of
/// the form `a.b.<hi>.<lo>`.
pub open spec fn ip_index(ip: Seq<char>) -> Option<u32> {
    let p = split_on(ip, '.');
    if p.len() != 4 {
        None
    } else {
        match (parse_u32(p[2]), parse_u32(p[3])) {
            (Some(hi), Some(lo)) => {
                if lo == 0 {
                    None
                } else {
                    let internal = hi * 254 + lo - 1;
                    if internal == 0 {
                        None
                    } else {
                        Some((internal - 1) as u32)
                    }
                }
            },
            _ => None,
        }
    }
}

/// The arithmetic of [`ip_to_index`] stays within `u32` on `ip`.
pub open spec fn ip_index_in_range(ip: Seq<char>) -> bool {
    let p = split_on(ip, '.');
    p.len() == 4 ==> match (parse_u32(p[2]), parse_u32(p[3])) {
        (Some(hi), Some(lo)) => hi * 254 <= u32::MAX && (lo >= 1 ==> hi * 254 + lo - 1
            <= u32::MAX),
        _ => true,
    }
}

/// Whether the arithmetic of [`ip_to_index`] stays within `u32` on `ip`.
pub fn ip_index_fits(ip: &str) -> (r: bool)
    ensures
        r == ip_index_in_range(ip@),
{
    let cs = chars_of(ip);
    let parts = split_chars(&cs, '.');
    if parts.len() != 4 {
        return true;
    }
    match (parse_u32_chars(&parts[2]), parse_u32_chars(&parts[3])) {
        (Some(hi), Some(lo)) => {
            let h = hi as u64 * 254;
            h <= 0xFFFF_FFFF && (lo < 1 || h + lo as u64 - 1 <= 0xFFFF_FFFF)
        },
        _ => true,
    }
}

/// Recover the sequential index from a VM IP address.
pub fn ip_to_index(ip: &str) -> (r: Option<u32>)
    requires
        ip_index_in_range(ip@),
    ensures
        r == ip_index(ip@),
{
    let cs = chars_of(ip);
    let parts = split_chars(&cs, '.');
    if parts.len() != 4 {
        return None;
    }
    let hi = match parse_u32_chars(&parts[2]) {
        Some(v) => v,
        None => return None,
    };
    let lo = match parse_u32_chars(&parts[3]) {
        Some(v) => v,
        None => return None,
    };
    let h = hi * 254;
    let l = match lo.checked_sub(1) {
        Some(v) => v,
        None => return None,
    };
    let internal = h + l;
    internal.checked_sub(1)
}

/// For every index up to 65022, reading the index back from the VM's
/// address gives the index; the address stays in range; and its last
/// octet lies in 1..=254.
pub proof fn lemma_vm_ip_roundtrip(index: u32)
    requires
        index <= 65022,
    ensures
        ip_index_in_range(vm_ip_text(index)),
        ip_index(vm_ip_text(index)) == Some(index),
        1 <= vm_ip_lo(index) <= 254,
        vm_ip_hi(index) <= 255,
{
    let hi = vm_ip_hi(index);
    let lo = vm_ip_lo(index);
    let internal = index + 1;
    assert(internal / 254 <= 255);
    assert(hi == internal / 254);
    assert(hi * 254 + (lo - 1) == internal) by (nonlinear_arith)
        requires
            hi == internal / 254,
            lo == internal % 254 + 1,
    ;
    lemma_dec(hi);
    lemma_dec(lo);
    lemma_parse_dec_u32(hi as u32);
    lemma_parse_dec_u32(lo as u32);
    let pre = seq!['1', '0', '.', '1', '0', '.'];
    let ten = seq!['1', '0'];
    let e = Seq::<char>::empty();
    assert(split_on(e, '.') == seq![e]);
    lemma_split_append_plain(e, ten, '.');
    assert(e + ten =~= ten);
    assert(split_on(ten, '.') =~= seq![ten]);
    lemma_split_append_sep(ten, '.');
    let t1 = ten.push('.');
    lemma_split_append_plain(t1, ten, '.');
    let t2 = t1 + ten;
    assert(split_on(t2, '.') =~= seq![ten, ten]);
    lemma_split_append_sep(t2, '.');
    assert(pre =~= t2.push('.'));
    assert(split_on(pre, '.') =~= seq![ten, ten, e]);
    let a = pre + dec(hi);
    lemma_split_append_plain(pre, dec(hi), '.');
    let b = a.push('.');
    lemma_split_append_sep(a, '.');
    lemma_split_append_plain(b, dec(lo), '.');
    assert(vm_ip_text(index) =~= b + dec(lo));
    assert(Seq::<char>::empty() + dec(hi) =~= dec(hi));
    assert(Seq::<char>::empty() + dec(lo) =~= dec(lo));
    let p = split_on(vm_ip_text(index), '.');
    assert(p =~= seq![seq!['1', '0'], seq!['1', '0'], dec(hi), dec(lo)]);
}

/// Distinct indices up to 65022 give distinct VM addresses.
pub proof fn lemma_vm_ip_injective(i: u32, j: u32)
    requires
        i <= 65022,
        j <= 65022,
        vm_ip_text(i) == vm_ip_text(j),
    ensures
        i == j,
{
    lemma_vm_ip_roundtrip(i);
    lemma_vm_ip_roundtrip(j);
}

// ── TAP device names ────────────────────────────────────────────────

/// What std's `DefaultHasher` gives for a string, hashed as `Hash for str`
/// feeds it (the string's bytes, then a `0xff` byte).
pub uninterp spec fn default_hash_of_str(s: Seq<char>) -> u64;

/// `BuildHasher::hash_one` with the default-seeded `DefaultHasher`.
///
/// The contract names the result by the text alone: `DefaultHasher::new`
/// uses fixed keys, so equal strings give equal hashes. Nothing more of
/// the hash (such as its spread) is stated.
#[verifier::external_body]
fn default_hash_str(s: &str) -> (h: u64)
    ensures
        h == default_hash_of_str(s@),
{
    std::hash::BuildHasher::hash_one(
        &std::hash::BuildHasherDefault::<std::collections::hash_map::DefaultHasher>::default(),
        s,
    )
}

/// The TAP device name of a VM: `tt-` and the low 48 bits of the hash of
/// its id in 12 lowercase hex digits.
pub open spec fn tap_name_text(vm_id: Seq<char>) -> Seq<char> {
    seq!['t', 't', '-'] + hex_fixed((default_hash_of_str(vm_id) & 0xFFFF_FFFF_FFFFu64) as nat, 12)
}

/// TAP device name for a VM.
///
/// Uses a hash of the VM ID to guarantee uniqueness even for long IDs.
/// Result is always <= 15 chars (IFNAMSIZ).
pub fn tap_name(vm_id: &str) -> (s: String)
    ensures
        s@ == tap_name_text(vm_id@),
        s@.len() == 15,
{
    let h = default_hash_str(vm_id);
    let hex = hex_fixed_exec(h & 0xFFFF_FFFF_FFFF, 12);
    let s = String::from_str("tt-").concat(hex.as_str());
    proof {
        reveal_strlit("tt-");
        lemma_hex_fixed_len((h & 0xFFFF_FFFF_FFFFu64) as nat, 12);
        assert(s@ =~= tap_name_text(vm_id@));
    }
    s
}

/// Every TAP name fits the 15 characters an interface name may hold, and
/// equal VM ids get equal names.
pub proof fn lemma_tap_name_shape(a: Seq<char>, b: Seq<char>)
    ensures
        tap_name_text(a).len() == 15,
        a == b ==> tap_name_text(a) == tap_name_text(b),
{
    lemma_hex_fixed_len((default_hash_of_str(a) & 0xFFFF_FFFF_FFFFu64) as nat, 12);
}


// ── Firewall rules (nftables on Linux) ──────────────────────────────

/// The nftables rule that forwards a host port to a VM's guest port.
pub fn port_forward_rule(host_port: u16, ip: &str, guest_port: u16) -> (s: String)
    ensures
        s@ == "add rule ip tt-nat prerouting tcp dport "@ + dec(host_port as nat) + " dnat to "@
            + ip@ + ":"@ + dec(guest_port as nat),
{
    String::from_str("add rule ip tt-nat prerouting tcp dport ").concat(
        u32_to_dec(host_port as u32).as_str(),
    ).concat(" dnat to ").concat(ip).concat(":").concat(u32_to_dec(guest_port as u32).as_str())
}

/// The texts and success requirements of a list of firewall commands.
pub open spec fn rule_views(v: Seq<(String, bool)>) -> Seq<(Seq<char>, bool)> {
    Seq::new(v.len(), |i: int| (v[i].0@, v[i].1))
}

/// The nftables commands that set up NAT on a host, each with whether it
/// must succeed: the table, the two NAT chains, flushing both chains
/// (best effort) and masquerading the VM network.
pub fn nat_setup_rules() -> (v: Vec<(String, bool)>)
    ensures
        rule_views(v@) == seq![
            ("add table ip tt-nat"@, true),
            ("add chain ip tt-nat prerouting { type nat hook prerouting priority -100; policy accept; }"@, true),
            ("add chain ip tt-nat postrouting { type nat hook postrouting priority 100; policy accept; }"@, true),
            ("flush chain ip tt-nat postrouting"@, false),
            ("flush chain ip tt-nat prerouting"@, false),
            ("add rule ip tt-nat postrouting ip saddr 10.10.0.0/16 masquerade"@, true),
        ],
{
    let v = vec![
        (String::from_str("add table ip tt-nat"), true),
        (String::from_str("add chain ip tt-nat prerouting { type nat hook prerouting priority -100; policy accept; }"), true),
        (String::from_str("add chain ip tt-nat postrouting { type nat hook postrouting priority 100; policy accept; }"), true),
        (String::from_str("flush chain ip tt-nat postrouting"), false),
        (String::from_str("flush chain ip tt-nat prerouting"), false),
        (String::from_str("add rule ip tt-nat postrouting ip saddr 10.10.0.0/16 masquerade"), true),
    ];
    assert(rule_views(v@) =~= seq![
        ("add table ip tt-nat"@, true),
        ("add chain ip tt-nat prerouting { type nat hook prerouting priority -100; policy accept; }"@, true),
        ("add chain ip tt-nat postrouting { type nat hook postrouting priority 100; policy accept; }"@, true),
        ("flush chain ip tt-nat postrouting"@, false),
        ("flush chain ip tt-nat prerouting"@, false),
        ("add rule ip tt-nat postrouting ip saddr 10.10.0.0/16 masquerade"@, true),
    ]);
    v
}

/// The nftables commands that block a VM's outgoing traffic, each with
/// whether it must succeed: the deny set, the forward chain and its drop
/// rule (best effort), then the VM's address in the set.
pub fn deny_outgoing_rules(ip: &str) -> (v: Vec<(String, bool)>)
    ensures
        rule_views(v@) == seq![
            ("add set ip tt-nat denylist { type ipv4_addr; }"@, false),
            ("add chain ip tt-nat forward { type filter hook forward priority 0; policy accept; }"@, false),
            ("add rule ip tt-nat forward ip saddr @denylist drop"@, false),
            ("add element ip tt-nat denylist { "@ + ip@ + " }"@, true),
        ],
{
    let v = vec![
        (String::from_str("add set ip tt-nat denylist { type ipv4_addr; }"), false),
        (String::from_str("add chain ip tt-nat forward { type filter hook forward priority 0; policy accept; }"), false),
        (String::from_str("add rule ip tt-nat forward ip saddr @denylist drop"), false),
        (String::from_str("add element ip tt-nat denylist { ").concat(ip).concat(" }"), true),
    ];
    assert(rule_views(v@) =~= seq![
        ("add set ip tt-nat denylist { type ipv4_addr; }"@, false),
        ("add chain ip tt-nat forward { type filter hook forward priority 0; policy accept; }"@, false),
        ("add rule ip tt-nat forward ip saddr @denylist drop"@, false),
        ("add element ip tt-nat denylist { "@ + ip@ + " }"@, true),
    ]);
    v
}

/// The nftables command that lets a VM's outgoing traffic pass again.
pub fn allow_outgoing_rule(ip: &str) -> (s: String)
    ensures
        s@ == "delete element ip tt-nat denylist { "@ + ip@ + " }"@,
{
    String::from_str("delete element ip tt-nat denylist { ").concat(ip).concat(" }")
}

/// The nftables command that deletes a forwarding rule by its handle.
pub fn delete_forward_rule(handle: u64) -> (s: String)
    ensures
        s@ == "delete rule ip tt-nat prerouting handle "@ + dec(handle as nat),
{
    String::from_str("delete rule ip tt-nat prerouting handle ").concat(u64_to_dec(handle).as_str())
}

/// The handles of the forwarding rules for a VM in a chain listing: of
/// each line that mentions the VM's address, the number after its last
/// `handle `, when it reads as one.
pub open spec fn forward_handles_of(ls: Seq<Seq<char>>, ip: Seq<char>) -> Seq<u64>
    decreases ls.len(),
{
    if ls.len() == 0 {
        Seq::<u64>::empty()
    } else {
        let rest = forward_handles_of(ls.drop_last(), ip);
        let l = ls.last();
        if contains_text(l, ip) {
            match parse_u64(trim(after_last(l, "handle "@))) {
                Some(h) => rest.push(h),
                None => rest,
            }
        } else {
            rest
        }
    }
}

/// The handles of a VM's forwarding rules in the text of
/// `nft -a list chain ip tt-nat prerouting`.
pub fn forward_handles(listing: &str, ip: &str) -> (v: Vec<u64>)
    ensures
        v@ == forward_handles_of(lines(listing@), ip@),
{
    let cs = chars_of(listing);
    let ls = lines_of(&cs);
    let ipc = chars_of(ip);
    let marker = chars_of("handle ");
    let mut v: Vec<u64> = Vec::new();
    let mut i: usize = 0;
    let ghost all = lines(listing@);
    while i < ls.len()
        invariant
            cs@ == listing@,
            ipc@ == ip@,
            marker@ == "handle "@,
            ls@.len() == all.len(),
            all == lines(listing@),
            forall|k: int| 0 <= k < ls@.len() ==> #[trigger] ls@[k]@ == all[k],
            i <= ls@.len(),
            v@ == forward_handles_of(all.take(i as int), ip@),
        decreases ls@.len() - i,
    {
        proof {
            assert(all.take(i as int + 1).drop_last() =~= all.take(i as int));
            assert(all.take(i as int + 1).last() == all[i as int]);
        }
        let l = &ls[i];
        if contains_chars(l, &ipc) {
            let tail = after_last_exec(l, &marker);
            let t = trim_ws(&tail);
            match parse_u64_chars(&t) {
                Some(h) => v.push(h),
                None => {},
            }
        }
        i = i + 1;
    }
    assert(all.take(i as int) =~= all);
    v
}

// ── Firewall rules (pf on FreeBSD) ──────────────────────────────────

/// The pf rule that forwards a host port to a VM's guest port.
pub fn pf_rdr_rule(host_port: u16, ip: &str, guest_port: u16) -> (s: String)
    ensures
        s@ == "rdr pass on egress proto tcp from any to any port "@ + dec(host_port as nat)
            + " -> "@ + ip@ + " port "@ + dec(guest_port as nat),
{
    String::from_str("rdr pass on egress proto tcp from any to any port ").concat(
        u32_to_dec(host_port as u32).as_str(),
    ).concat(" -> ").concat(ip).concat(" port ").concat(u32_to_dec(guest_port as u32).as_str())
}

/// The pf rule that blocks a VM's outgoing traffic.
pub fn pf_deny_rule(ip: &str) -> (s: String)
    ensures
        s@ == "block out quick on egress from "@ + ip@ + " to any"@,
{
    String::from_str("block out quick on egress from ").concat(ip).concat(" to any")
}

/// The shell command that loads rules into a pf anchor.
pub fn pf_load_command(rules: &str, anchor: &str) -> (s: String)
    ensures
        s@ == "echo '"@ + rules@ + "' | pfctl -a "@ + anchor@ + " -f -"@,
{
    String::from_str("echo '").concat(rules).concat("' | pfctl -a ").concat(anchor).concat(" -f -")
}

/// The lines of a rule listing that do not mention `ip`, in order.
pub open spec fn rules_without(ls: Seq<Seq<char>>, ip: Seq<char>) -> Seq<Seq<char>>
    decreases ls.len(),
{
    if ls.len() == 0 {
        Seq::<Seq<char>>::empty()
    } else {
        let rest = rules_without(ls.drop_last(), ip);
        if contains_text(ls.last(), ip) {
            rest
        } else {
            rest.push(ls.last())
        }
    }
}

/// The rules of a pf anchor that remain once a VM's are removed, joined
/// by line breaks, or `None` when none remain (the anchor is flushed).
pub fn pf_remaining_rules(rules: &str, ip: &str) -> (r: Option<String>)
    ensures
        match r {
            Some(t) => rules_without(lines(rules@), ip@).len() > 0 && t@ == join(
                rules_without(lines(rules@), ip@),
                "\n"@,
            ),
            None => rules_without(lines(rules@), ip@).len() == 0,
        },
{
    let cs = chars_of(rules);
    let ls = lines_of(&cs);
    let ipc = chars_of(ip);
    let mut kept: Vec<String> = Vec::new();
    let mut i: usize = 0;
    let ghost all = lines(rules@);
    while i < ls.len()
        invariant
            cs@ == rules@,
            ipc@ == ip@,
            ls@.len() == all.len(),
            all == lines(rules@),
            forall|k: int| 0 <= k < ls@.len() ==> #[trigger] ls@[k]@ == all[k],
            i <= ls@.len(),
            views(kept@) == rules_without(all.take(i as int), ip@),
        decreases ls@.len() - i,
    {
        proof {
            assert(all.take(i as int + 1).drop_last() =~= all.take(i as int));
            assert(all.take(i as int + 1).last() == all[i as int]);
        }
        let ghost before = kept@;
        if !contains_chars(&ls[i], &ipc) {
            let line = string_from_chars(&ls[i]);
            kept.push(line);
            assert(views(kept@) =~= views(before).push(all[i as int]));
        }
        i = i + 1;
    }
    assert(all.take(i as int) =~= all);
    if kept.len() == 0 {
        None
    } else {
        Some(join_strings(&kept, "\n"))
    }
}

// ── TAP devices ─────────────────────────────────────────────────────

/// The `ip` commands that create a VM's TAP device on Linux and attach it
/// to the bridge.
pub fn linux_tap_commands(tap: &str) -> (v: Vec<Vec<String>>)
    ensures
        v@.len() == 3,
        views(v@[0]@) == seq!["ip"@, "tuntap"@, "add"@, "dev"@, tap@, "mode"@, "tap"@],
        views(v@[1]@) == seq!["ip"@, "link"@, "set"@, tap@, "master"@, "tt0"@],
        views(v@[2]@) == seq!["ip"@, "link"@, "set"@, tap@, "up"@],
{
    let a = vec![
        String::from_str("ip"),
        String::from_str("tuntap"),
        String::from_str("add"),
        String::from_str("dev"),
        String::from_str(tap),
        String::from_str("mode"),
        String::from_str("tap"),
    ];
    let b = vec![
        String::from_str("ip"),
        String::from_str("link"),
        String::from_str("set"),
        String::from_str(tap),
        String::from_str("master"),
        String::from_str(BRIDGE_NAME),
    ];
    let c = vec![
        String::from_str("ip"),
        String::from_str("link"),
        String::from_str("set"),
        String::from_str(tap),
        String::from_str("up"),
    ];
    proof {
        reveal_strlit("tt0");
        assert(views(a@) =~= seq!["ip"@, "tuntap"@, "add"@, "dev"@, tap@, "mode"@, "tap"@]);
        assert(views(b@) =~= seq!["ip"@, "link"@, "set"@, tap@, "master"@, "tt0"@]);
        assert(views(c@) =~= seq!["ip"@, "link"@, "set"@, tap@, "up"@]);
    }
    vec![a, b, c]
}

/// The `ifconfig` commands that create a VM's TAP device on FreeBSD and
/// add it to the bridge.
pub fn freebsd_tap_commands(tap: &str) -> (v: Vec<Vec<String>>)
    ensures
        v@.len() == 3,
        views(v@[0]@) == seq!["ifconfig"@, "tap"@, "create"@, "name"@, tap@],
        views(v@[1]@) == seq!["ifconfig"@, "tt0"@, "addm"@, tap@],
        views(v@[2]@) == seq!["ifconfig"@, tap@, "up"@],
{
    let a = vec![
        String::from_str("ifconfig"),
        String::from_str("tap"),
        String::from_str("create"),
        String::from_str("name"),
        String::from_str(tap),
    ];
    let b = vec![
        String::from_str("ifconfig"),
        String::from_str(BRIDGE_NAME),
        String::from_str("addm"),
        String::from_str(tap),
    ];
    let c = vec![String::from_str("ifconfig"), String::from_str(tap), String::from_str("up")];
    proof {
        reveal_strlit("tt0");
        assert(views(a@) =~= seq!["ifconfig"@, "tap"@, "create"@, "name"@, tap@]);
        assert(views(b@) =~= seq!["ifconfig"@, "tt0"@, "addm"@, tap@]);
        assert(views(c@) =~= seq!["ifconfig"@, tap@, "up"@]);
    }
    vec![a, b, c]
}

} // verus!
