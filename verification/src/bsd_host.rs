//! A FreeBSD server that runs VMs under bhyve on ZFS volumes behind
//! ipfw NAT: which images it offers, and the commands it runs.

use vstd::prelude::*;
use vstd::string::StringExecFns;
use crate::num::{dec, hex_pad, hex_pad_exec, u32_to_dec};
use crate::text::{
    chars_of, contains_text, join, join_strings, starts_with, starts_with_exec, std_is_numeric,
    std_lowercase, string_from_chars, trim_end_by, views,
};

verus! {

/// Prefix of the ZFS clones made for VMs.
pub const CLONE_MARK: &'static str = "clone_";

/// The engine an image runs under.
#[derive(PartialEq, Eq, Structural)]
pub enum VmKind {
    Bhyve,
}

/// The engine of an image, from the prefix of its lowercase name; only
/// `bhyve:` is known.
pub fn vm_kind(os: &str) -> (r: Result<VmKind, String>)
    ensures
        match r {
            Ok(VmKind::Bhyve) => starts_with(std_lowercase(os@), "bhyve:"@),
            Err(m) => !starts_with(std_lowercase(os@), "bhyve:"@) && m@
                == "Invalid OS name, it should starts with one of [ bhvye ]."@,
        },
{
    let l = chars_of(crate::text::to_lowercase(os).as_str());
    if starts_with_exec(&l, &chars_of("bhyve:")) {
        Ok(VmKind::Bhyve)
    } else {
        Err(String::from_str("Invalid OS name, it should starts with one of [ bhvye ]."))
    }
}

/// Whether a volume name is a partition inside an image: once trailing
/// digits are dropped, it ends in `s` (e.g. `CentOS7.5s3`) or `p` (e.g.
/// `FreeBSD12.1p2`).
/// Whether a character is numeric, as a predicate.
pub open spec fn numeric_pred() -> spec_fn(char) -> bool {
    |c: char| std_is_numeric(c)
}

/// Whether a character is `/`, as a predicate.
pub open spec fn slash_pred() -> spec_fn(char) -> bool {
    |c: char| c == '/'
}

pub open spec fn is_partition_text(obj: Seq<char>) -> bool {
    let s = trim_end_by(obj, numeric_pred());
    s.len() > 0 && (s.last() == 's' || s.last() == 'p')
}

/// Whether a volume name is a partition inside an image.
pub fn is_partition(obj: &str) -> (r: bool)
    ensures
        r == is_partition_text(obj@),
{
    let cs = chars_of(obj);
    let mut j: usize = cs.len();
    while j > 0 && crate::text::is_numeric(cs[j - 1])
        invariant
            j <= cs@.len(),
            cs@ == obj@,
            forall|k: int| j <= k < cs@.len() ==> (numeric_pred())(#[trigger] cs@[k]),
        decreases j,
    {
        j = j - 1;
    }
    proof {
        crate::text::lemma_trim_end_at(cs@, numeric_pred(), j as int);
        let t = cs@.subrange(0, j as int);
        if j > 0 {
            assert(t.last() == cs@[j - 1]);
        }
    }
    j > 0 && (cs[j - 1] == 's' || cs[j - 1] == 'p')
}

/// The name under which an image volume is offered, in lowercase, or
/// `None` when it is not offered: its name must name an engine, and it
/// must be neither a snapshot (holding `@`), a partition, nor a VM clone.
pub open spec fn offered_name(os: Seq<char>) -> Option<Seq<char>> {
    if starts_with(std_lowercase(os), "bhyve:"@) && !(contains_text(os, "@"@) || is_partition_text(
        os,
    ) || starts_with(os, "clone_"@)) {
        Some(std_lowercase(os))
    } else {
        None
    }
}

/// The name under which an image volume is offered.
pub fn offered_image(os: &str) -> (r: Option<String>)
    ensures
        match r {
            Some(n) => offered_name(os@) == Some(n@),
            None => offered_name(os@) is None,
        },
{
    let kind_ok = vm_kind(os).is_ok();
    let cs = chars_of(os);
    if kind_ok && !(crate::text::contains_text_exec(os, "@") || is_partition(os) || starts_with_exec(
        &cs,
        &chars_of("clone_"),
    )) {
        Some(crate::text::to_lowercase(os))
    } else {
        None
    }
}

/// `s` with every leading copy of `p` removed (`p` not empty).
pub open spec fn trim_start_text(s: Seq<char>, p: Seq<char>) -> Seq<char>
    decreases s.len(),
{
    if p.len() > 0 && starts_with(s, p) {
        trim_start_text(s.skip(p.len() as int), p)
    } else {
        s
    }
}

/// The ZFS dataset that holds the images, from the image path: without
/// leading `/dev/zvol/` and trailing `/`.
pub open spec fn zfs_root_text(path: Seq<char>) -> Seq<char> {
    trim_end_by(trim_start_text(path, "/dev/zvol/"@), slash_pred())
}

/// The ZFS dataset that holds the images.
pub fn zfs_root(path: &str) -> (s: String)
    ensures
        s@ == zfs_root_text(path@),
{
    let mut cs = chars_of(path);
    let p = chars_of("/dev/zvol/");
    proof {
        reveal_strlit("/dev/zvol/");
    }
    while starts_with_exec(&cs, &p)
        invariant
            p@ == "/dev/zvol/"@,
            p@.len() == 10,
            trim_start_text(cs@, p@) == trim_start_text(path@, p@),
        decreases cs@.len(),
    {
        let n = cs.len();
        cs = crate::text::slice_chars(&cs, 10, n);
    }
    let ghost t = cs@;
    let mut j: usize = cs.len();
    while j > 0 && cs[j - 1] == '/'
        invariant
            j <= cs@.len(),
            cs@ == t,
            forall|k: int| j <= k < cs@.len() ==> (slash_pred())(#[trigger] cs@[k]),
        decreases j,
    {
        j = j - 1;
    }
    proof {
        crate::text::lemma_trim_end_at(t, slash_pred(), j as int);
    }
    string_from_chars(&crate::text::slice_chars(&cs, 0, j))
}

/// The arguments of `bhyve` for a VM with numeric id `id`: its CPUs and
/// memory, its ZFS clone on virtio-blk, its TAP device on virtio-net
/// with a MAC address made from the id, and UEFI firmware.
pub open spec fn bhyve_exec_args_text(id: u32, cpu: u32, mem: u32, root: Seq<char>) -> Seq<Seq<char>> {
    seq![
        "-A"@,
        "-H"@,
        "-P"@,
        "-c"@,
        dec(cpu as nat),
        "-m"@,
        dec(mem as nat) + "M"@,
        "-s"@,
        "0,hostbridge"@,
        "-s"@,
        "1,lpc"@,
        "-s"@,
        "2,virtio-blk,/dev/zvol/"@ + root + "/"@ + "clone_"@ + dec(id as nat),
        "-s"@,
        "3,virtio-net,tap"@ + dec(id as nat) + ",mac=00:be:fa:76:"@ + hex_pad(
            (id / 256) as nat,
            2,
        ) + ":"@ + hex_pad((id % 256) as nat, 2),
        "-l"@,
        "bootrom,/usr/local/share/uefi-firmware/BHYVE_UEFI.fd"@,
        dec(id as nat),
    ]
}

/// The arguments of `bhyve` for a VM.
pub fn bhyve_exec_args(id: u32, cpu: u32, mem: u32, root: &str) -> (v: Vec<String>)
    ensures
        views(v@) == bhyve_exec_args_text(id, cpu, mem, root@),
{
    let ids = u32_to_dec(id);
    let v = vec![
        String::from_str("-A"),
        String::from_str("-H"),
        String::from_str("-P"),
        String::from_str("-c"),
        u32_to_dec(cpu),
        String::from_str("-m"),
        u32_to_dec(mem).concat("M"),
        String::from_str("-s"),
        String::from_str("0,hostbridge"),
        String::from_str("-s"),
        String::from_str("1,lpc"),
        String::from_str("-s"),
        String::from_str("2,virtio-blk,/dev/zvol/").concat(root).concat("/").concat(CLONE_MARK).concat(
            ids.as_str(),
        ),
        String::from_str("-s"),
        String::from_str("3,virtio-net,tap").concat(ids.as_str()).concat(",mac=00:be:fa:76:").concat(
            hex_pad_exec((id / 256) as u128, 2).as_str(),
        ).concat(":").concat(hex_pad_exec((id % 256) as u128, 2).as_str()),
        String::from_str("-l"),
        String::from_str("bootrom,/usr/local/share/uefi-firmware/BHYVE_UEFI.fd"),
        ids.clone(),
    ];
    proof {
        reveal_strlit("clone_");
    }
    assert(views(v@) =~= bhyve_exec_args_text(id, cpu, mem, root@));
    v
}

/// The ipfw commands that publish a VM's ports: `ports` lists (VM port,
/// public port) pairs, the NAT instance is numbered by the smallest
/// public port, and `table` is the DNAT lookup table. `None` when the VM
/// has no ports.
pub open spec fn nat_rule_text(table: Seq<char>, serv_ip: Seq<char>, vm_ip: Seq<char>, ports: Seq<(u16, u16)>, nat_id: u16) -> Seq<char> {
    let kv = join(Seq::new(ports.len(), |i: int| serv_ip + ","@ + dec(ports[i].1 as nat) + " "@ + dec(nat_id as nat)), " "@);
    let rdr = join(Seq::new(ports.len(), |i: int| "redirect_port tcp "@ + vm_ip + ":"@ + dec(ports[i].0 as nat) + " "@ + dec(ports[i].1 as nat) + " redirect_port udp "@ + vm_ip + ":"@ + dec(ports[i].0 as nat) + " "@ + dec(ports[i].1 as nat)), " "@);
    "\n            ipfw table "@ + table + " add "@ + kv + " || exit 1;\n            ipfw -q nat "@ + dec(nat_id as nat) + " config ip "@ + serv_ip + " "@ + rdr + " || exit 1;\n            "@
}

/// The smallest public port of a VM.
pub open spec fn min_public(ports: Seq<(u16, u16)>) -> u16
    decreases ports.len(),
{
    if ports.len() <= 1 {
        ports[0].1
    } else {
        let m = min_public(ports.drop_last());
        if ports.last().1 < m {
            ports.last().1
        } else {
            m
        }
    }
}

/// The ipfw commands that publish a VM's ports, or `None` when it has
/// none.
pub fn nat_rule(table: &str, serv_ip: &str, vm_ip: &str, ports: &[(u16, u16)]) -> (r: Option<String>)
    ensures
        match r {
            Some(s) => ports@.len() > 0 && s@ == nat_rule_text(table@, serv_ip@, vm_ip@, ports@, min_public(ports@)),
            None => ports@.len() == 0,
        },
{
    if ports.len() == 0 {
        return None;
    }
    let mut nat_id: u16 = ports[0].1;
    let mut i: usize = 1;
    assert(ports@.take(1).drop_last().len() == 0);
    while i < ports.len()
        invariant
            1 <= i <= ports@.len(),
            nat_id == min_public(ports@.take(i as int)),
        decreases ports@.len() - i,
    {
        proof {
            assert(ports@.take(i as int + 1).drop_last() =~= ports@.take(i as int));
            assert(ports@.take(i as int + 1).last() == ports@[i as int]);
        }
        if ports[i].1 < nat_id {
            nat_id = ports[i].1;
        }
        i = i + 1;
    }
    assert(ports@.take(i as int) =~= ports@);
    let id_text = u32_to_dec(nat_id as u32);
    let mut kv: Vec<String> = Vec::new();
    let mut rdr: Vec<String> = Vec::new();
    let mut k: usize = 0;
    while k < ports.len()
        invariant
            k <= ports@.len(),
            id_text@ == dec(nat_id as nat),
            views(kv@) == Seq::new(k as nat, |i: int| serv_ip@ + ","@ + dec(ports@[i].1 as nat) + " "@ + dec(nat_id as nat)),
            views(rdr@) == Seq::new(k as nat, |i: int| "redirect_port tcp "@ + vm_ip@ + ":"@ + dec(ports@[i].0 as nat) + " "@ + dec(ports@[i].1 as nat) + " redirect_port udp "@ + vm_ip@ + ":"@ + dec(ports@[i].0 as nat) + " "@ + dec(ports@[i].1 as nat)),
        decreases ports@.len() - k,
    {
        let (vp, pp) = ports[k];
        let vps = u32_to_dec(vp as u32);
        let pps = u32_to_dec(pp as u32);
        let ghost kv0 = views(kv@);
        let ghost rdr0 = views(rdr@);
        let a = String::from_str(serv_ip).concat(",").concat(pps.as_str()).concat(" ").concat(id_text.as_str());
        let b = String::from_str("redirect_port tcp ").concat(vm_ip).concat(":").concat(vps.as_str()).concat(" ").concat(pps.as_str()).concat(" redirect_port udp ").concat(vm_ip).concat(":").concat(vps.as_str()).concat(" ").concat(pps.as_str());
        proof {
            assert(ports@[k as int] == (vp, pp));
            assert(a@ == serv_ip@ + ","@ + dec(ports@[k as int].1 as nat) + " "@ + dec(nat_id as nat));
        }
        let ghost av = a@;
        let ghost bv = b@;
        kv.push(a);
        rdr.push(b);
        assert(views(kv@) =~= kv0.push(av));
        assert(views(rdr@) =~= rdr0.push(bv));
        k = k + 1;
        assert(views(kv@) =~= Seq::new(k as nat, |i: int| serv_ip@ + ","@ + dec(ports@[i].1 as nat) + " "@ + dec(nat_id as nat)));
        assert(views(rdr@) =~= Seq::new(k as nat, |i: int| "redirect_port tcp "@ + vm_ip@ + ":"@ + dec(ports@[i].0 as nat) + " "@ + dec(ports@[i].1 as nat) + " redirect_port udp "@ + vm_ip@ + ":"@ + dec(ports@[i].0 as nat) + " "@ + dec(ports@[i].1 as nat)));
    }
    let kvs = join_strings(&kv, " ");
    let rdrs = join_strings(&rdr, " ");
    let s = String::from_str("\n            ipfw table ").concat(table).concat(" add ").concat(kvs.as_str()).concat(" || exit 1;\n            ipfw -q nat ").concat(id_text.as_str()).concat(" config ip ").concat(serv_ip).concat(" ").concat(rdrs.as_str()).concat(" || exit 1;\n            ");
    Some(s)
}

/// The shell command that prepares the host for VMs: kernel modules,
/// TAP devices that come up when opened, and a fresh bridge at
/// 10.0.0.1/8.
pub fn host_init_script() -> (s: String)
    ensures
        s@ == "kldload vmm ipfw ipfw_nat if_bridge if_tap 2>/dev/null; sysctl net.link.tap.up_on_open=1 || exit 1; ifconfig bridge0 destroy 2>/dev/null; ifconfig bridge0 create up || exit 1; ifconfig bridge0 inet 10.0.0.1/8 -alias 2>/dev/null; ifconfig bridge0 inet 10.0.0.1/8 alias || exit 1;"@,
{
    String::from_str("kldload vmm ipfw ipfw_nat if_bridge if_tap 2>/dev/null; sysctl net.link.tap.up_on_open=1 || exit 1; ifconfig bridge0 destroy 2>/dev/null; ifconfig bridge0 create up || exit 1; ifconfig bridge0 inet 10.0.0.1/8 -alias 2>/dev/null; ifconfig bridge0 inet 10.0.0.1/8 alias || exit 1;")
}

/// The shell command that destroys every VM and every VM clone under `root`.
pub open spec fn host_clean_script_text(root: Seq<char>) -> Seq<char> {
    "for i in `ls /dev/vmm | grep -o '^[0-9]\\+'`; do bhyvectl --destroy --vm=$i || exit 1; done; for i in `zfs list -t all | grep -o '"@
        + root
        + "/"@
        + "clone_"@
        + "[0-9]\\+'`; do zfs destroy $i || exit 1; done;"@
}

/// The shell command that destroys every VM and every VM clone under `root`.
pub fn host_clean_script(root: &str) -> (s: String)
    ensures
        s@ == host_clean_script_text(root@),
{
    let mut s = String::from_str("for i in `ls /dev/vmm | grep -o '^[0-9]\\+'`; do bhyvectl --destroy --vm=$i || exit 1; done; for i in `zfs list -t all | grep -o '");
    s.append(root);
    s.append("/");
    s.append(CLONE_MARK);
    s.append("[0-9]\\+'`; do zfs destroy $i || exit 1; done;");
    s
}

/// The shell command that prepares a VM: its TAP device on the bridge, and its clone of the image `os` under `root`.
pub open spec fn pre_start_script_text(id: Seq<char>, root: Seq<char>, os: Seq<char>) -> Seq<char> {
    "ifconfig tap"@
        + id
        + " destroy 2>/dev/null; ifconfig tap"@
        + id
        + " create || exit 1; ifconfig bridge0 addm tap"@
        + id
        + " up || exit 1; bhyvectl --destroy --vm="@
        + id
        + " 2>/dev/null; zfs clone -o volmode=dev "@
        + root
        + "/"@
        + os
        + "@base "@
        + root
        + "/"@
        + "clone_"@
        + id
}

/// The shell command that prepares a VM: its TAP device on the bridge, and its clone of the image `os` under `root`.
pub fn pre_start_script(id: &str, root: &str, os: &str) -> (s: String)
    ensures
        s@ == pre_start_script_text(id@, root@, os@),
{
    let mut s = String::from_str("ifconfig tap");
    s.append(id);
    s.append(" destroy 2>/dev/null; ifconfig tap");
    s.append(id);
    s.append(" create || exit 1; ifconfig bridge0 addm tap");
    s.append(id);
    s.append(" up || exit 1; bhyvectl --destroy --vm=");
    s.append(id);
    s.append(" 2>/dev/null; zfs clone -o volmode=dev ");
    s.append(root);
    s.append("/");
    s.append(os);
    s.append("@base ");
    s.append(root);
    s.append("/");
    s.append(CLONE_MARK);
    s.append(id);
    s
}

/// The shell command that cleans up after a VM: its bhyve instance, its clone and its TAP device.
pub open spec fn post_clean_script_text(id: Seq<char>, root: Seq<char>) -> Seq<char> {
    "bhyvectl --destroy --vm="@
        + id
        + "; (sleep 2; zfs destroy "@
        + root
        + "/"@
        + "clone_"@
        + id
        + ") & ifconfig bridge0 deletem tap"@
        + id
        + "; ifconfig tap"@
        + id
        + " destroy &"@
}

/// The shell command that cleans up after a VM: its bhyve instance, its clone and its TAP device.
pub fn post_clean_script(id: &str, root: &str) -> (s: String)
    ensures
        s@ == post_clean_script_text(id@, root@),
{
    let mut s = String::from_str("bhyvectl --destroy --vm=");
    s.append(id);
    s.append("; (sleep 2; zfs destroy ");
    s.append(root);
    s.append("/");
    s.append(CLONE_MARK);
    s.append(id);
    s.append(") & ifconfig bridge0 deletem tap");
    s.append(id);
    s.append("; ifconfig tap");
    s.append(id);
    s.append(" destroy &");
    s
}

/// The shell command that stops a VM.
pub fn bhyve_stop_script(id: &str) -> (s: String)
    ensures
        s@ == "bhyvectl --destroy --vm="@ + id@,
{
    String::from_str("bhyvectl --destroy --vm=").concat(id)
}

} // verus!
