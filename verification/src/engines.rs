//! Command lines, configuration and guest files of the VM engines, and
//! how each engine's answers are read.
//!
//! The agent runs the commands and writes the files; what they contain
//! is decided here.

use vstd::prelude::*;
use vstd::string::StringExecFns;
use vstd::std_specs::cmp::OrdSpec;
use vstd::std_specs::iter::IteratorSpec;
use std::collections::BTreeMap;
use crate::model::{Vm, VmState, RUN_DIR};
use crate::num::{dec, u32_to_dec};
use crate::text::views;

verus! {

broadcast use vstd::std_specs::btree::group_btree_axioms, vstd::laws_cmp::group_laws_cmp;

// ── Port maps ───────────────────────────────────────────────────────

/// `s` lists the entries of `m` (guest port, host port) by increasing
/// guest port.
pub open spec fn sorted_entries(m: Map<u16, u16>, s: Seq<(u16, u16)>) -> bool {
    &&& forall|i: int, j: int| 0 <= i < j < s.len() ==> #[trigger] s[i].0 < #[trigger] s[j].0
    &&& forall|i: int| 0 <= i < s.len() ==> m.contains_key(#[trigger] s[i].0) && m[s[i].0] == s[i].1
    &&& forall|k: u16| #[trigger] m.contains_key(k) ==> exists|i: int| 0 <= i < s.len() && s[i].0 == k
}

/// The entries of a port map, by increasing guest port.
pub fn port_entries(m: &BTreeMap<u16, u16>) -> (v: Vec<(u16, u16)>)
    ensures
        sorted_entries(m@, v@),
{
    let mut v: Vec<(u16, u16)> = Vec::new();
    let iter = m.iter();
    let ghost r = iter.remaining();
    proof {
        assert(vstd::std_specs::btree::key_obeys_cmp_spec::<u16>());
        assert(iter == vstd::std_specs::btree::spec_btree_map_iter(m));
    }
    for e in it: iter
        invariant
            it.seq() == r,
            v@.len() == it.index(),
            forall|i: int| 0 <= i < v@.len() ==> #[trigger] v@[i] == (*it.seq()[i].0, *it.seq()[i].1),
    {
        let (g, h) = e;
        v.push((*g, *h));
    }
    proof {
        let keys = r.map_values(|kv: (&u16, &u16)| *kv.0);
        assert(vstd::laws_cmp::obeys_cmp::<u16>());
        assert(vstd::std_specs::btree::increasing_seq(keys));
        assert forall|i: int, j: int| 0 <= i < j < v@.len() implies #[trigger] v@[i].0
            < #[trigger] v@[j].0 by {
            assert(keys[i] == v@[i].0);
            assert(keys[j] == v@[j].0);
            assert(keys[i].cmp_spec(&keys[j]) is Less);
        }
        assert forall|i: int| 0 <= i < v@.len() implies m@.contains_key(#[trigger] v@[i].0)
            && m@[v@[i].0] == v@[i].1 by {
            assert(m@.contains_key(*r[i].0));
        }
        assert forall|k: u16| #[trigger] m@.contains_key(k) implies exists|i: int|
            0 <= i < v@.len() && v@[i].0 == k by {
            assert(r.contains((&k, &m@[k])));
            let i = choose|i: int| 0 <= i < r.len() && r[i] == (&k, &m@[k]);
            assert(v@[i].0 == k);
        }
    }
    v
}

// ── Runtime files ───────────────────────────────────────────────────

/// The path of a per-VM runtime file: `<RUN_DIR>/<prefix><vm_id><suffix>`.
pub open spec fn run_path_text(prefix: Seq<char>, vm_id: Seq<char>, suffix: Seq<char>) -> Seq<char> {
    RUN_DIR@ + "/"@ + prefix + vm_id + suffix
}

/// The path of a per-VM runtime file, such as `qemu-<id>.pid`.
pub fn run_path(prefix: &str, vm_id: &str, suffix: &str) -> (s: String)
    ensures
        s@ == run_path_text(prefix@, vm_id@, suffix@),
{
    String::from_str(RUN_DIR).concat("/").concat(prefix).concat(vm_id).concat(suffix)
}

// ── QEMU ────────────────────────────────────────────────────────────

/// The arguments that launch a VM under QEMU/KVM: daemonized, with its
/// disk, its TAP device on virtio-net, its pid file and monitor socket,
/// and the cloud-init seed disk when there is one.
pub open spec fn qemu_args_text(
    vm: Vm,
    disk_path: Seq<char>,
    disk_format: Seq<char>,
    tap: Seq<char>,
    seed_exists: bool,
) -> Seq<Seq<char>> {
    seq![
        "-enable-kvm"@,
        "-daemonize"@,
        "-name"@,
        vm.id@,
        "-m"@,
        dec(vm.mem as nat) + "M"@,
        "-smp"@,
        dec(vm.cpu as nat),
        "-drive"@,
        "file="@ + disk_path + ",format="@ + disk_format + ",if=virtio"@,
        "-netdev"@,
        "tap,id=net0,ifname="@ + tap + ",script=no,downscript=no"@,
        "-device"@,
        "virtio-net-pci,netdev=net0"@,
        "-pidfile"@,
        run_path_text("qemu-"@, vm.id@, ".pid"@),
        "-monitor"@,
        "unix:"@ + run_path_text("qemu-"@, vm.id@, ".sock"@) + ",server,nowait"@,
        "-vnc"@,
        "none"@,
    ] + if seed_exists {
        seq![
            "-drive"@,
            "file="@ + run_path_text("seed-"@, vm.id@, ".iso"@) + ",format=raw,if=virtio,readonly=on"@,
        ]
    } else {
        Seq::<Seq<char>>::empty()
    }
}

/// The arguments of `qemu-system-x86_64` for a VM.
pub fn qemu_args(vm: &Vm, disk_path: &str, disk_format: &str, seed_exists: bool) -> (v: Vec<String>)
    ensures
        views(v@) == qemu_args_text(
            *vm,
            disk_path@,
            disk_format@,
            crate::net::tap_name_text(vm.id@),
            seed_exists,
        ),
{
    let id = vm.id.as_str();
    let tap = crate::net::tap_name(id);
    let mut v: Vec<String> = vec![
        String::from_str("-enable-kvm"),
        String::from_str("-daemonize"),
        String::from_str("-name"),
        String::from_str(id),
        String::from_str("-m"),
        u32_to_dec(vm.mem).concat("M"),
        String::from_str("-smp"),
        u32_to_dec(vm.cpu),
        String::from_str("-drive"),
        String::from_str("file=").concat(disk_path).concat(",format=").concat(disk_format).concat(
            ",if=virtio",
        ),
        String::from_str("-netdev"),
        String::from_str("tap,id=net0,ifname=").concat(tap.as_str()).concat(
            ",script=no,downscript=no",
        ),
        String::from_str("-device"),
        String::from_str("virtio-net-pci,netdev=net0"),
        String::from_str("-pidfile"),
        run_path("qemu-", id, ".pid"),
        String::from_str("-monitor"),
        String::from_str("unix:").concat(run_path("qemu-", id, ".sock").as_str()).concat(
            ",server,nowait",
        ),
        String::from_str("-vnc"),
        String::from_str("none"),
    ];
    let ghost base = views(v@);
    if seed_exists {
        v.push(String::from_str("-drive"));
        v.push(
            String::from_str("file=").concat(run_path("seed-", id, ".iso").as_str()).concat(
                ",format=raw,if=virtio,readonly=on",
            ),
        );
    }
    assert(views(v@) =~= qemu_args_text(
        *vm,
        disk_path@,
        disk_format@,
        crate::net::tap_name_text(vm.id@),
        seed_exists,
    ));
    v
}

/// The cloud-init `meta-data` of a VM.
pub fn qemu_meta_data(vm_id: &str) -> (s: String)
    ensures
        s@ == "instance-id: "@ + vm_id@ + "\nlocal-hostname: "@ + vm_id@ + "\n"@,
{
    String::from_str("instance-id: ").concat(vm_id).concat("\nlocal-hostname: ").concat(vm_id).concat(
        "\n",
    )
}

/// The cloud-init `network-config` (version 2) of a VM: its static
/// address on the virtio NIC, the bridge as gateway, public resolvers.
pub open spec fn network_config_text(ip: Seq<char>) -> Seq<char> {
    "version: 2\nethernets:\n  id0:\n    match:\n      driver: virtio_net\n    addresses:\n      - "@
        + ip
        + "/16\n    routes:\n      - to: 0.0.0.0/0\n        via: 10.10.0.1\n    nameservers:\n      addresses:\n        - 8.8.8.8\n        - 1.1.1.1\n"@
}

/// The cloud-init `network-config` of a VM with address `ip`.
pub fn qemu_network_config(ip: &str) -> (s: String)
    ensures
        s@ == network_config_text(ip@),
{
    let mut s = String::from_str("version: 2\nethernets:\n  id0:\n    match:\n      driver: virtio_net\n    addresses:\n      - ");
    s.append(ip);
    s.append("/16\n    routes:\n      - to: 0.0.0.0/0\n        via: 10.10.0.1\n    nameservers:\n      addresses:\n        - 8.8.8.8\n        - 1.1.1.1\n");
    s
}

/// The `ssh_authorized_keys` lines of cloud-init `user-data`.
pub open spec fn key_lines(keys: Seq<Seq<char>>) -> Seq<char>
    decreases keys.len(),
{
    if keys.len() == 0 {
        Seq::<char>::empty()
    } else {
        key_lines(keys.drop_last()) + "  - "@ + keys.last() + "\n"@
    }
}

/// The cloud-init `user-data` of a VM: root logs in with the password
/// `ttstack` (password authentication on), the given SSH keys are
/// authorized too, and commands that let sshd accept both.
pub open spec fn user_data_text(keys: Seq<Seq<char>>) -> Seq<char> {
    "#cloud-config\ndisable_root: false\nssh_pwauth: true\nchpasswd:\n  expire: false\n  list: |\n    root:ttstack\n"@ + if keys.len() == 0 {
        Seq::<char>::empty()
    } else {
        "ssh_authorized_keys:\n"@ + key_lines(keys)
    } + "runcmd:\n  - sed -i 's/^#*PermitRootLogin.*/PermitRootLogin yes/' /etc/ssh/sshd_config\n  - sed -i 's/^#*PasswordAuthentication.*/PasswordAuthentication yes/' /etc/ssh/sshd_config\n  - systemctl restart sshd 2>/dev/null || service sshd restart 2>/dev/null || rc-service sshd restart 2>/dev/null || true\n"@
}

/// The cloud-init `user-data` of a VM that trusts `ssh_keys`.
pub fn qemu_user_data(ssh_keys: &[String]) -> (s: String)
    ensures
        s@ == user_data_text(views(ssh_keys@)),
{
    let mut s = String::from_str("#cloud-config\ndisable_root: false\nssh_pwauth: true\nchpasswd:\n  expire: false\n  list: |\n    root:ttstack\n");
    let ghost head = s@;
    if ssh_keys.len() > 0 {
        s.append("ssh_authorized_keys:\n");
        let ghost mid = s@;
        let mut i: usize = 0;
        while i < ssh_keys.len()
            invariant
                i <= ssh_keys@.len(),
                s@ == mid + key_lines(views(ssh_keys@).take(i as int)),
            decreases ssh_keys@.len() - i,
        {
            s.append("  - ");
            s.append(ssh_keys[i].as_str());
            s.append("\n");
            i = i + 1;
            assert(views(ssh_keys@).take(i as int).drop_last() =~= views(ssh_keys@).take(
                i as int - 1,
            ));
        }
        assert(views(ssh_keys@).take(i as int) =~= views(ssh_keys@));
    } else {
        assert(s@ =~= head + Seq::<char>::empty());
    }
    s.append("runcmd:\n  - sed -i 's/^#*PermitRootLogin.*/PermitRootLogin yes/' /etc/ssh/sshd_config\n  - sed -i 's/^#*PasswordAuthentication.*/PasswordAuthentication yes/' /etc/ssh/sshd_config\n  - systemctl restart sshd 2>/dev/null || service sshd restart 2>/dev/null || rc-service sshd restart 2>/dev/null || true\n");
    s
}

/// The program and arguments that build the seed ISO from the three
/// cloud-init files: `genisoimage` when installed, else `mkisofs`.
pub fn seed_iso_command(genisoimage: bool, iso: &str, meta: &str, user: &str, netcfg: &str) -> (r: (
    String,
    Vec<String>,
))
    ensures
        genisoimage ==> r.0@ == "genisoimage"@ && views(r.1@) == seq![
            "-output"@,
            iso@,
            "-volid"@,
            "cidata"@,
            "-joliet"@,
            "-rock"@,
            "-quiet"@,
            meta@,
            user@,
            netcfg@,
        ],
        !genisoimage ==> r.0@ == "mkisofs"@ && views(r.1@) == seq![
            "-o"@,
            iso@,
            "-V"@,
            "cidata"@,
            "-J"@,
            "-R"@,
            "-quiet"@,
            meta@,
            user@,
            netcfg@,
        ],
{
    if genisoimage {
        let v = vec![
            String::from_str("-output"),
            String::from_str(iso),
            String::from_str("-volid"),
            String::from_str("cidata"),
            String::from_str("-joliet"),
            String::from_str("-rock"),
            String::from_str("-quiet"),
            String::from_str(meta),
            String::from_str(user),
            String::from_str(netcfg),
        ];
        assert(views(v@) =~= seq![
            "-output"@,
            iso@,
            "-volid"@,
            "cidata"@,
            "-joliet"@,
            "-rock"@,
            "-quiet"@,
            meta@,
            user@,
            netcfg@,
        ]);
        (String::from_str("genisoimage"), v)
    } else {
        let v = vec![
            String::from_str("-o"),
            String::from_str(iso),
            String::from_str("-V"),
            String::from_str("cidata"),
            String::from_str("-J"),
            String::from_str("-R"),
            String::from_str("-quiet"),
            String::from_str(meta),
            String::from_str(user),
            String::from_str(netcfg),
        ];
        assert(views(v@) =~= seq![
            "-o"@,
            iso@,
            "-V"@,
            "cidata"@,
            "-J"@,
            "-R"@,
            "-quiet"@,
            meta@,
            user@,
            netcfg@,
        ]);
        (String::from_str("mkisofs"), v)
    }
}

/// The shell command that sends one word to a QEMU monitor socket.
pub fn monitor_command(word: &str, sock: &str) -> (s: String)
    ensures
        s@ == "echo \""@ + word@ + "\" | socat - UNIX-CONNECT:"@ + sock@,
{
    String::from_str("echo \"").concat(word).concat("\" | socat - UNIX-CONNECT:").concat(sock)
}

/// The state of a QEMU VM: stopped when its process is gone, else paused
/// when the monitor's status answer says `paused`, else running.
pub fn qemu_state(alive: bool, monitor_status: Option<&str>) -> (s: VmState)
    ensures
        s == if !alive {
            VmState::Stopped
        } else if monitor_status matches Some(m) && crate::text::contains_text(m@, "paused"@) {
            VmState::Paused
        } else {
            VmState::Running
        },
{
    if !alive {
        return VmState::Stopped;
    }
    match monitor_status {
        Some(m) => if crate::text::contains_text_exec(m, "paused") {
            VmState::Paused
        } else {
            VmState::Running
        },
        None => VmState::Running,
    }
}

// ── Firecracker ─────────────────────────────────────────────────────

/// The machine description handed to Firecracker.
pub struct FcConfig {
    pub kernel_image_path: String,
    pub boot_args: String,
    pub rootfs_path: String,
    pub vcpu_count: u32,
    pub mem_size_mib: u32,
    pub host_dev_name: String,
}

/// The Firecracker machine of a VM whose kernel and root filesystem lie
/// in `image_path`.
pub fn fc_config(vm: &Vm, image_path: &str) -> (c: FcConfig)
    ensures
        c.kernel_image_path@ == image_path@ + "/vmlinux"@,
        c.boot_args@ == "console=ttyS0 reboot=k panic=1 pci=off"@,
        c.rootfs_path@ == image_path@ + "/rootfs.ext4"@,
        c.vcpu_count == vm.cpu,
        c.mem_size_mib == vm.mem,
        c.host_dev_name@ == crate::net::tap_name_text(vm.id@),
{
    FcConfig {
        kernel_image_path: String::from_str(image_path).concat("/vmlinux"),
        boot_args: String::from_str("console=ttyS0 reboot=k panic=1 pci=off"),
        rootfs_path: String::from_str(image_path).concat("/rootfs.ext4"),
        vcpu_count: vm.cpu,
        mem_size_mib: vm.mem,
        host_dev_name: crate::net::tap_name(vm.id.as_str()),
    }
}

/// The `curl` arguments that pause or resume a Firecracker VM through
/// its API socket.
pub fn fc_state_request(sock: &str, pause: bool) -> (v: Vec<String>)
    ensures
        views(v@) == seq![
            "--unix-socket"@,
            sock@,
            "-s"@,
            "-X"@,
            "PATCH"@,
            "http://localhost/vm"@,
            "-H"@,
            "Content-Type: application/json"@,
            "-d"@,
            if pause {
                "{\"state\": \"Paused\"}"@
            } else {
                "{\"state\": \"Resumed\"}"@
            },
        ],
{
    let body = if pause {
        String::from_str("{\"state\": \"Paused\"}")
    } else {
        String::from_str("{\"state\": \"Resumed\"}")
    };
    let v = vec![
        String::from_str("--unix-socket"),
        String::from_str(sock),
        String::from_str("-s"),
        String::from_str("-X"),
        String::from_str("PATCH"),
        String::from_str("http://localhost/vm"),
        String::from_str("-H"),
        String::from_str("Content-Type: application/json"),
        String::from_str("-d"),
        body,
    ];
    assert(views(v@) =~= seq![
        "--unix-socket"@,
        sock@,
        "-s"@,
        "-X"@,
        "PATCH"@,
        "http://localhost/vm"@,
        "-H"@,
        "Content-Type: application/json"@,
        "-d"@,
        if pause {
            "{\"state\": \"Paused\"}"@
        } else {
            "{\"state\": \"Resumed\"}"@
        },
    ]);
    v
}

/// The state of a Firecracker VM: stopped when its process is gone, else
/// paused when the API describes it as `"Paused"`, else running.
pub fn fc_state(alive: bool, api_answer: Option<&str>) -> (s: VmState)
    ensures
        s == if !alive {
            VmState::Stopped
        } else if api_answer matches Some(m) && crate::text::contains_text(m@, "\"Paused\""@) {
            VmState::Paused
        } else {
            VmState::Running
        },
{
    if !alive {
        return VmState::Stopped;
    }
    match api_answer {
        Some(m) => if crate::text::contains_text_exec(m, "\"Paused\"") {
            VmState::Paused
        } else {
            VmState::Running
        },
        None => VmState::Running,
    }
}

// ── Docker / Podman ─────────────────────────────────────────────────

/// The container (or jail) name of a VM.
pub fn instance_name(vm_id: &str) -> (s: String)
    ensures
        s@ == "tt-"@ + vm_id@,
{
    String::from_str("tt-").concat(vm_id)
}

/// The container runtime to use: Podman when it answers, else Docker.
pub fn container_runtime(podman_found: bool) -> (s: String)
    ensures
        s@ == if podman_found {
            "podman"@
        } else {
            "docker"@
        },
{
    if podman_found {
        String::from_str("podman")
    } else {
        String::from_str("docker")
    }
}

/// The `-p` arguments that publish a VM's port map.
pub open spec fn publish_args(entries: Seq<(u16, u16)>) -> Seq<Seq<char>>
    decreases entries.len(),
{
    if entries.len() == 0 {
        Seq::<Seq<char>>::empty()
    } else {
        publish_args(entries.drop_last()) + seq![
            "-p"@,
            dec(entries.last().1 as nat) + ":"@ + dec(entries.last().0 as nat),
        ]
    }
}

/// The arguments that run a VM as a detached container.
pub open spec fn docker_run_text(vm: Vm, entries: Seq<(u16, u16)>) -> Seq<Seq<char>> {
    seq![
        "run"@,
        "-d"@,
        "--name"@,
        "tt-"@ + vm.id@,
        "--cpus"@,
        dec(vm.cpu as nat),
        "--memory"@,
        dec(vm.mem as nat) + "m"@,
    ] + publish_args(entries) + seq![vm.image@]
}

/// The arguments of `docker run` (or `podman run`) for a VM: its name,
/// CPU and memory limits, its port map by increasing guest port, and its
/// image.
pub fn docker_run_args(vm: &Vm) -> (v: Vec<String>)
    ensures
        exists|entries: Seq<(u16, u16)>|
            sorted_entries(vm.port_map@, entries) && views(v@) == docker_run_text(*vm, entries),
{
    let entries = port_entries(&vm.port_map);
    let mut v: Vec<String> = vec![
        String::from_str("run"),
        String::from_str("-d"),
        String::from_str("--name"),
        instance_name(vm.id.as_str()),
        String::from_str("--cpus"),
        u32_to_dec(vm.cpu),
        String::from_str("--memory"),
        u32_to_dec(vm.mem).concat("m"),
    ];
    let ghost head = views(v@);
    let mut i: usize = 0;
    while i < entries.len()
        invariant
            i <= entries@.len(),
            views(v@) == head + publish_args(entries@.take(i as int)),
        decreases entries@.len() - i,
    {
        let (g, h) = entries[i];
        let ghost before = views(v@);
        v.push(String::from_str("-p"));
        v.push(u32_to_dec(h as u32).concat(":").concat(u32_to_dec(g as u32).as_str()));
        i = i + 1;
        proof {
            let t = entries@.take(i as int);
            assert(t.drop_last() =~= entries@.take(i as int - 1));
            assert(t.last() == (g, h));
            assert(views(v@) =~= before + seq![
                "-p"@,
                dec(h as nat) + ":"@ + dec(g as nat),
            ]);
        }
    }
    assert(entries@.take(i as int) =~= entries@);
    let ghost mid = views(v@);
    v.push(vm.image.clone());
    assert(views(v@) =~= mid + seq![vm.image@]);
    assert(views(v@) =~= docker_run_text(*vm, entries@));
    v
}

/// The state of a container from `inspect`: stopped when the query
/// fails; else by its status word, trimmed: `running` is running;
/// `exited`, `dead` and `created` are stopped; anything else failed.
pub fn docker_state(query_ok: bool, status: &str) -> (s: VmState)
    ensures
        s == if !query_ok {
            VmState::Stopped
        } else if crate::text::trim(status@) == "running"@ {
            VmState::Running
        } else if crate::text::trim(status@) == "exited"@ || crate::text::trim(status@) == "dead"@
            || crate::text::trim(status@) == "created"@ {
            VmState::Stopped
        } else {
            VmState::Failed
        },
{
    if !query_ok {
        return VmState::Stopped;
    }
    let cs = crate::text::chars_of(status);
    let t = crate::text::trim_ws(&cs);
    if crate::text::chars_eq(&t, &crate::text::chars_of("running")) {
        VmState::Running
    } else if crate::text::chars_eq(&t, &crate::text::chars_of("exited")) || crate::text::chars_eq(
        &t,
        &crate::text::chars_of("dead"),
    ) || crate::text::chars_eq(&t, &crate::text::chars_of("created")) {
        VmState::Stopped
    } else {
        VmState::Failed
    }
}

// ── FreeBSD jails ───────────────────────────────────────────────────

/// The arguments of `jail` that create a VM's jail on its root
/// filesystem, with its address.
pub fn jail_create_args(name: &str, root: &str, ip: &str) -> (v: Vec<String>)
    ensures
        views(v@) == seq![
            "-c"@,
            "name="@ + name@,
            "path="@ + root@,
            "host.hostname=ttstack"@,
            "ip4.addr="@ + ip@,
            "persist"@,
            "mount.devfs"@,
        ],
{
    let v = vec![
        String::from_str("-c"),
        String::from_str("name=").concat(name),
        String::from_str("path=").concat(root),
        String::from_str("host.hostname=ttstack"),
        String::from_str("ip4.addr=").concat(ip),
        String::from_str("persist"),
        String::from_str("mount.devfs"),
    ];
    assert(views(v@) =~= seq![
        "-c"@,
        "name="@ + name@,
        "path="@ + root@,
        "host.hostname=ttstack"@,
        "ip4.addr="@ + ip@,
        "persist"@,
        "mount.devfs"@,
    ]);
    v
}

/// The `authorized_keys` file for a jail: the keys, one per line.
pub fn authorized_keys(keys: &[String]) -> (s: String)
    ensures
        s@ == crate::text::join(views(keys@), "\n"@) + "\n"@,
{
    crate::text::join_strings(keys, "\n").concat("\n")
}

// ── bhyve ───────────────────────────────────────────────────────────

/// The arguments of `bhyveload` for a VM.
pub fn bhyveload_args(vm: &Vm, image_path: &str) -> (v: Vec<String>)
    ensures
        views(v@) == seq!["-m"@, dec(vm.mem as nat) + "M"@, "-d"@, image_path@, vm.id@],
{
    let v = vec![
        String::from_str("-m"),
        u32_to_dec(vm.mem).concat("M"),
        String::from_str("-d"),
        String::from_str(image_path),
        vm.id.clone(),
    ];
    assert(views(v@) =~= seq!["-m"@, dec(vm.mem as nat) + "M"@, "-d"@, image_path@, vm.id@]);
    v
}

/// The arguments of `bhyve` that run a VM: its CPUs and memory, the host
/// bridge, its disk on virtio-blk, its TAP device on virtio-net, the LPC
/// bus and a console on `/dev/null`.
pub open spec fn bhyve_args_text(vm: Vm, image_path: Seq<char>, tap: Seq<char>) -> Seq<Seq<char>> {
    seq![
        "-A"@,
        "-H"@,
        "-P"@,
        "-c"@,
        dec(vm.cpu as nat),
        "-m"@,
        dec(vm.mem as nat) + "M"@,
        "-s"@,
        "0:0,hostbridge"@,
        "-s"@,
        "3:0,virtio-blk,"@ + image_path,
        "-s"@,
        "4:0,virtio-net,"@ + tap,
        "-s"@,
        "31,lpc"@,
        "-l"@,
        "com1,/dev/null"@,
        vm.id@,
    ]
}

/// The arguments of `bhyve` for a VM.
pub fn bhyve_args(vm: &Vm, image_path: &str) -> (v: Vec<String>)
    ensures
        views(v@) == bhyve_args_text(*vm, image_path@, crate::net::tap_name_text(vm.id@)),
{
    let tap = crate::net::tap_name(vm.id.as_str());
    let v = vec![
        String::from_str("-A"),
        String::from_str("-H"),
        String::from_str("-P"),
        String::from_str("-c"),
        u32_to_dec(vm.cpu),
        String::from_str("-m"),
        u32_to_dec(vm.mem).concat("M"),
        String::from_str("-s"),
        String::from_str("0:0,hostbridge"),
        String::from_str("-s"),
        String::from_str("3:0,virtio-blk,").concat(image_path),
        String::from_str("-s"),
        String::from_str("4:0,virtio-net,").concat(tap.as_str()),
        String::from_str("-s"),
        String::from_str("31,lpc"),
        String::from_str("-l"),
        String::from_str("com1,/dev/null"),
        vm.id.clone(),
    ];
    assert(views(v@) =~= bhyve_args_text(*vm, image_path@, crate::net::tap_name_text(vm.id@)));
    v
}

} // verus!
