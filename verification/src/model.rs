//! Data model: engines, storage backends, states, resources and the
//! entities managed by the fleet, plus input validation.

use vstd::prelude::*;
use vstd::string::StringExecFns;
use vstd::string::StringSliceAdditionalSpecFns;
use std::collections::BTreeMap;
use crate::text::{ascii_lower, ascii_lower_exec, chars_eq};

verus! {

// ── Engine & Backend Enums ──────────────────────────────────────────

/// Supported hypervisor / container engines.
///
/// Platform availability:
/// - **Linux**: Qemu, Firecracker, Docker
/// - **FreeBSD**: Bhyve, Jail
#[derive(Debug, Clone, Copy, PartialEq, Eq, Structural, Hash)]
pub enum Engine {
    Qemu,
    Firecracker,
    Bhyve,
    Docker,
    Jail,
}

/// The canonical (lowercase) name of an engine.
pub open spec fn engine_name(e: Engine) -> Seq<char> {
    match e {
        Engine::Qemu => "qemu"@,
        Engine::Firecracker => "firecracker"@,
        Engine::Bhyve => "bhyve"@,
        Engine::Docker => "docker"@,
        Engine::Jail => "jail"@,
    }
}

/// Engine named by `s`, compared case-insensitively (ASCII), with the
/// aliases `kvm`, `fc` and `podman`.
pub open spec fn parse_engine(s: Seq<char>) -> Option<Engine> {
    let l = ascii_lower(s);
    if l == "qemu"@ || l == "kvm"@ {
        Some(Engine::Qemu)
    } else if l == "firecracker"@ || l == "fc"@ {
        Some(Engine::Firecracker)
    } else if l == "bhyve"@ {
        Some(Engine::Bhyve)
    } else if l == "docker"@ || l == "podman"@ {
        Some(Engine::Docker)
    } else if l == "jail"@ {
        Some(Engine::Jail)
    } else {
        None
    }
}

impl Engine {
    /// The canonical lowercase name, e.g. `"qemu"`.
    pub fn to_string(&self) -> (s: String)
        ensures
            s@ == engine_name(*self),
    {
        match self {
            Engine::Qemu => String::from_str("qemu"),
            Engine::Firecracker => String::from_str("firecracker"),
            Engine::Bhyve => String::from_str("bhyve"),
            Engine::Docker => String::from_str("docker"),
            Engine::Jail => String::from_str("jail"),
        }
    }

    /// Parse an engine name; the error names the rejected input.
    pub fn parse(s: &str) -> (r: Result<Engine, String>)
        ensures
            match r {
                Ok(e) => parse_engine(s@) == Some(e),
                Err(msg) => parse_engine(s@) is None && msg@ == "unknown engine: "@ + s@,
            },
    {
        let l = ascii_lower_exec(s);
        let q = crate::text::chars_of("qemu");
        let k = crate::text::chars_of("kvm");
        let f = crate::text::chars_of("firecracker");
        let fc = crate::text::chars_of("fc");
        let b = crate::text::chars_of("bhyve");
        let d = crate::text::chars_of("docker");
        let p = crate::text::chars_of("podman");
        let j = crate::text::chars_of("jail");
        if chars_eq(&l, &q) || chars_eq(&l, &k) {
            Ok(Engine::Qemu)
        } else if chars_eq(&l, &f) || chars_eq(&l, &fc) {
            Ok(Engine::Firecracker)
        } else if chars_eq(&l, &b) {
            Ok(Engine::Bhyve)
        } else if chars_eq(&l, &d) || chars_eq(&l, &p) {
            Ok(Engine::Docker)
        } else if chars_eq(&l, &j) {
            Ok(Engine::Jail)
        } else {
            Err(String::from_str("unknown engine: ").concat(s))
        }
    }
}

impl std::str::FromStr for Engine {
    type Err = String;

    fn from_str(s: &str) -> (r: Result<Engine, String>)
        ensures
            match r {
                Ok(e) => parse_engine(s@) == Some(e),
                Err(msg) => parse_engine(s@) is None && msg@ == "unknown engine: "@ + s@,
            },
    {
        Engine::parse(s)
    }
}

/// Storage backend for VM / container images.
#[derive(Debug, Clone, Copy, PartialEq, Eq, Structural, Hash)]
pub enum Storage {
    Zfs,
    Btrfs,
    Raw,
}

/// The canonical (lowercase) name of a storage backend.
pub open spec fn storage_name(s: Storage) -> Seq<char> {
    match s {
        Storage::Zfs => "zfs"@,
        Storage::Btrfs => "btrfs"@,
        Storage::Raw => "raw"@,
    }
}

/// Storage backend named by `s` (ASCII case-insensitive; `file` means raw).
pub open spec fn parse_storage(s: Seq<char>) -> Option<Storage> {
    let l = ascii_lower(s);
    if l == "zfs"@ {
        Some(Storage::Zfs)
    } else if l == "btrfs"@ {
        Some(Storage::Btrfs)
    } else if l == "raw"@ || l == "file"@ {
        Some(Storage::Raw)
    } else {
        None
    }
}

impl Storage {
    /// The canonical lowercase name, e.g. `"zfs"`.
    pub fn to_string(&self) -> (s: String)
        ensures
            s@ == storage_name(*self),
    {
        match self {
            Storage::Zfs => String::from_str("zfs"),
            Storage::Btrfs => String::from_str("btrfs"),
            Storage::Raw => String::from_str("raw"),
        }
    }

    /// Parse a storage backend name; the error names the rejected input.
    pub fn parse(s: &str) -> (r: Result<Storage, String>)
        ensures
            match r {
                Ok(st) => parse_storage(s@) == Some(st),
                Err(msg) => parse_storage(s@) is None
                    && msg@ == "unknown storage backend: "@ + s@,
            },
    {
        let l = ascii_lower_exec(s);
        let z = crate::text::chars_of("zfs");
        let b = crate::text::chars_of("btrfs");
        let r = crate::text::chars_of("raw");
        let f = crate::text::chars_of("file");
        if chars_eq(&l, &z) {
            Ok(Storage::Zfs)
        } else if chars_eq(&l, &b) {
            Ok(Storage::Btrfs)
        } else if chars_eq(&l, &r) || chars_eq(&l, &f) {
            Ok(Storage::Raw)
        } else {
            Err(String::from_str("unknown storage backend: ").concat(s))
        }
    }
}

impl std::str::FromStr for Storage {
    type Err = String;

    fn from_str(s: &str) -> (r: Result<Storage, String>)
        ensures
            match r {
                Ok(st) => parse_storage(s@) == Some(st),
                Err(msg) => parse_storage(s@) is None
                    && msg@ == "unknown storage backend: "@ + s@,
            },
    {
        Storage::parse(s)
    }
}

// ── State Enums ─────────────────────────────────────────────────────

/// Runtime state of a VM or container.
#[derive(Debug, Clone, Copy, PartialEq, Eq, Structural)]
pub enum VmState {
    Running,
    Stopped,
    Paused,
    Creating,
    Failed,
}

/// The lowercase name of a VM state.
pub open spec fn vm_state_name(s: VmState) -> Seq<char> {
    match s {
        VmState::Running => "running"@,
        VmState::Stopped => "stopped"@,
        VmState::Paused => "paused"@,
        VmState::Creating => "creating"@,
        VmState::Failed => "failed"@,
    }
}

impl VmState {
    /// The lowercase name, e.g. `"running"`.
    pub fn to_string(&self) -> (s: String)
        ensures
            s@ == vm_state_name(*self),
    {
        match self {
            VmState::Running => String::from_str("running"),
            VmState::Stopped => String::from_str("stopped"),
            VmState::Paused => String::from_str("paused"),
            VmState::Creating => String::from_str("creating"),
            VmState::Failed => String::from_str("failed"),
        }
    }
}

/// State of an environment (group of VMs).
#[derive(Debug, Clone, Copy, PartialEq, Eq, Structural)]
pub enum EnvState {
    Active,
    Stopped,
}

/// Online status of a physical host.
#[derive(Debug, Clone, Copy, PartialEq, Eq, Structural)]
pub enum HostState {
    Online,
    Offline,
}

// ── Resource Tracking ───────────────────────────────────────────────

/// Aggregated resource information for a host.
#[derive(Debug, Clone, Copy, PartialEq, Eq, Structural)]
pub struct Resource {
    pub cpu_total: u32,
    pub cpu_used: u32,
    /// Total memory in MiB.
    pub mem_total: u32,
    /// Used memory in MiB.
    pub mem_used: u32,
    /// Total disk in MiB.
    pub disk_total: u32,
    /// Used disk in MiB.
    pub disk_used: u32,
    /// Number of active VMs / containers.
    pub vm_count: u32,
}

/// `total - used`, or zero when the host is over-committed.
pub open spec fn sat_sub(total: u32, used: u32) -> u32 {
    if used <= total { (total - used) as u32 } else { 0 }
}

/// Whether a resource snapshot can take `cpu`, `mem` and `disk` more.
pub open spec fn fits(r: Resource, cpu: u32, mem: u32, disk: u32) -> bool {
    &&& sat_sub(r.cpu_total, r.cpu_used) >= cpu
    &&& sat_sub(r.mem_total, r.mem_used) >= mem
    &&& sat_sub(r.disk_total, r.disk_used) >= disk
}

impl Default for Resource {
    fn default() -> (r: Resource)
        ensures
            r == (Resource {
                cpu_total: 0,
                cpu_used: 0,
                mem_total: 0,
                mem_used: 0,
                disk_total: 0,
                disk_used: 0,
                vm_count: 0,
            }),
    {
        Resource {
            cpu_total: 0,
            cpu_used: 0,
            mem_total: 0,
            mem_used: 0,
            disk_total: 0,
            disk_used: 0,
            vm_count: 0,
        }
    }
}

impl Resource {
    /// Free CPU cores (saturating at zero).
    pub fn cpu_free(&self) -> (r: u32)
        ensures
            r == sat_sub(self.cpu_total, self.cpu_used),
    {
        self.cpu_total.saturating_sub(self.cpu_used)
    }

    /// Free memory in MiB (saturating at zero).
    pub fn mem_free(&self) -> (r: u32)
        ensures
            r == sat_sub(self.mem_total, self.mem_used),
    {
        self.mem_total.saturating_sub(self.mem_used)
    }

    /// Free disk in MiB (saturating at zero).
    pub fn disk_free(&self) -> (r: u32)
        ensures
            r == sat_sub(self.disk_total, self.disk_used),
    {
        self.disk_total.saturating_sub(self.disk_used)
    }

    /// Check whether the host can accommodate the given requirement.
    pub fn can_fit(&self, cpu: u32, mem: u32, disk: u32) -> (r: bool)
        ensures
            r == fits(*self, cpu, mem, disk),
    {
        self.cpu_free() >= cpu && self.mem_free() >= mem && self.disk_free() >= disk
    }
}

// ── Core Entities ───────────────────────────────────────────────────

/// A physical host in the fleet.
#[derive(Debug, Clone)]
pub struct Host {
    pub id: String,
    /// Agent listen address, e.g. "10.0.0.1:9100".
    pub addr: String,
    pub resource: Resource,
    pub state: HostState,
    /// Engines available on this host.
    pub engines: Vec<Engine>,
    /// Storage backend used on this host.
    pub storage: Storage,
    pub registered_at: u64,
}

/// A VM or container instance managed by an agent.
#[derive(Debug, Clone)]
pub struct Vm {
    pub id: String,
    pub env_id: String,
    pub host_id: String,
    pub image: String,
    pub engine: Engine,
    /// Number of vCPUs.
    pub cpu: u32,
    /// Memory in MiB.
    pub mem: u32,
    /// Disk in MiB.
    pub disk: u32,
    /// Internal IP (on the host bridge).
    pub ip: String,
    /// guest_port → host_port mapping.
    pub port_map: BTreeMap<u16, u16>,
    pub state: VmState,
    pub created_at: u64,
}

/// An environment — a logical group of related VMs.
#[derive(Debug, Clone)]
pub struct Env {
    pub id: String,
    pub owner: String,
    pub vm_ids: Vec<String>,
    pub created_at: u64,
    /// Unix timestamp after which the env auto-expires (0 = never).
    pub expires_at: u64,
    pub state: EnvState,
}

// ── Default VM Sizing ───────────────────────────────────────────────

/// Default number of vCPUs per VM.
pub const VM_CPU_DEFAULT: u32 = 2;
/// Default memory per VM in MiB (1 GiB).
pub const VM_MEM_DEFAULT: u32 = 1024;
/// Default disk per VM in MiB (40 GiB).
pub const VM_DISK_DEFAULT: u32 = 40960;
/// Maximum environment lifetime in seconds (6 hours).
pub const MAX_LIFETIME: u64 = 21600;
/// Maximum hosts in the fleet.
pub const MAX_HOSTS: usize = 50;
/// Maximum total VM instances across the fleet.
pub const MAX_VMS: usize = 1000;

/// Directory for engine PID files, sockets, and other runtime state.
pub const RUN_DIR: &'static str = "/home/ttstack/run";

// ── Input Validation ────────────────────────────────────────────────

/// Characters allowed in names: ASCII letters, digits, `-`, `_` and `.`.
pub open spec fn name_char_ok(c: char) -> bool {
    ('a' <= c <= 'z') || ('A' <= c <= 'Z') || ('0' <= c <= '9') || c == '-' || c == '_'
        || c == '.'
}

/// Whether `s` holds two consecutive dots.
pub open spec fn has_double_dot(s: Seq<char>) -> bool {
    exists|i: int| 0 <= i < s.len() - 1 && #[trigger] s[i] == '.' && s[i + 1] == '.'
}

/// The verdict on a name: `Ok` or the message naming the first rule broken.
///
/// `byte_len` is the length of the name in UTF-8 bytes.
pub open spec fn name_verdict(name: Seq<char>, byte_len: int, label: Seq<char>) -> Result<
    (),
    Seq<char>,
> {
    if name.len() == 0 {
        Err(label + " cannot be empty"@)
    } else if byte_len > 128 {
        Err(label + " too long (max 128 chars)"@)
    } else if !(forall|i: int| 0 <= i < name.len() ==> name_char_ok(#[trigger] name[i])) {
        Err(
            label
                + " contains invalid characters (only a-z, A-Z, 0-9, '-', '_', '.' allowed)"@,
        )
    } else if name[0] == '.' || has_double_dot(name) {
        Err(label + " must not start with '.' or contain '..'"@)
    } else {
        Ok(())
    }
}

/// Which names are valid: exactly the non-empty names of at most 128 bytes
/// made only of ASCII letters, digits, `-`, `_` and `.`, that neither start
/// with `.` nor hold `..`.
pub proof fn lemma_valid_names(name: Seq<char>, byte_len: int, label: Seq<char>)
    ensures
        name_verdict(name, byte_len, label) is Ok <==> {
            &&& name.len() > 0
            &&& byte_len <= 128
            &&& forall|i: int|
                0 <= i < name.len() ==> {
                    let c = #[trigger] name[i];
                    ||| 'a' <= c <= 'z'
                    ||| 'A' <= c <= 'Z'
                    ||| '0' <= c <= '9'
                    ||| c == '-'
                    ||| c == '_'
                    ||| c == '.'
                }
            &&& name[0] != '.'
            &&& forall|i: int| 0 <= i < name.len() - 1 ==> !(#[trigger] name[i] == '.' && name[i + 1] == '.')
        },
{
}

/// The length in UTF-8 bytes of a text, as `str::len` reports it.
pub open spec fn utf8_len(s: Seq<char>) -> usize {
    vstd::utf8::encode_utf8(s).len() as usize
}

/// Validate that a name (env, host, image) is safe.
///
/// Rejects path traversal (`..`), shell metacharacters, and excessive length.
pub fn validate_name(name: &str, label: &str) -> (r: Result<(), String>)
    ensures
        match r {
            Ok(()) => name_verdict(name@, utf8_len(name@) as int, label@) is Ok,
            Err(msg) => name_verdict(name@, utf8_len(name@) as int, label@) == Err::<
                (),
                Seq<char>,
            >(msg@),
        },
{
    if name.is_empty() {
        return Err(String::from_str(label).concat(" cannot be empty"));
    }
    if name.len() > 128 {
        return Err(String::from_str(label).concat(" too long (max 128 chars)"));
    }
    let cs = crate::text::chars_of(name);
    let mut i: usize = 0;
    while i < cs.len()
        invariant
            cs@ == name@,
            name@.len() > 0,
            utf8_len(name@) <= 128,
            i <= cs@.len(),
            forall|k: int| 0 <= k < i ==> name_char_ok(#[trigger] cs@[k]),
        decreases cs@.len() - i,
    {
        let c = cs[i];
        let ok = ('a' <= c && c <= 'z') || ('A' <= c && c <= 'Z') || ('0' <= c && c <= '9')
            || c == '-' || c == '_' || c == '.';
        if !ok {
            assert(!name_char_ok(name@[i as int]));
            let m = String::from_str(label).concat(
                " contains invalid characters (only a-z, A-Z, 0-9, '-', '_', '.' allowed)",
            );
            return Err(m);
        }
        i = i + 1;
    }
    let mut dd = false;
    let mut j: usize = 0;
    while j < cs.len()
        invariant
            cs@ == name@,
            cs@.len() > 0,
            j <= cs@.len(),
            !dd ==> forall|k: int| 0 <= k < j && k + 1 < cs@.len() ==> !(#[trigger] cs@[k] == '.' && cs@[k + 1] == '.'),
            dd ==> has_double_dot(name@),
        decreases cs@.len() - j,
    {
        if j + 1 < cs.len() && cs[j] == '.' && cs[j + 1] == '.' {
            dd = true;
        }
        j = j + 1;
    }
    if cs[0] == '.' || dd {
        return Err(String::from_str(label).concat(" must not start with '.' or contain '..'"));
    }
    Ok(())
}

} // verus!

verus! {

proof fn lemma_lower_fixed(s: Seq<char>)
    requires
        forall|i: int| 0 <= i < s.len() ==> 'a' <= #[trigger] s[i] <= 'z',
    ensures
        ascii_lower(s) == s,
{
    assert(ascii_lower(s) =~= s);
}

/// Printing an engine and parsing the text gives the same engine back.
pub proof fn lemma_engine_name_roundtrip(e: Engine)
    ensures
        parse_engine(engine_name(e)) == Some(e),
{
    reveal_strlit("qemu");
    reveal_strlit("kvm");
    reveal_strlit("firecracker");
    reveal_strlit("fc");
    reveal_strlit("bhyve");
    reveal_strlit("docker");
    reveal_strlit("podman");
    reveal_strlit("jail");
    lemma_lower_fixed(engine_name(e));
    match e {
        Engine::Qemu => {},
        Engine::Firecracker => {
            assert("firecracker"@ != "qemu"@);
        },
        Engine::Bhyve => {
            assert("bhyve"@ != "qemu"@);
            assert("bhyve"@ != "kvm"@);
            assert("bhyve"@ != "fc"@);
            assert("bhyve"@ != "firecracker"@);
        },
        Engine::Docker => {
            assert("docker"@ != "qemu"@);
            assert("docker"@ != "kvm"@);
            assert("docker"@ != "fc"@);
            assert("docker"@ != "firecracker"@);
            assert("docker"@ != "bhyve"@);
        },
        Engine::Jail => {
            assert("jail"@[0] != "qemu"@[0]);
            assert("jail"@ != "kvm"@);
            assert("jail"@ != "fc"@);
            assert("jail"@ != "firecracker"@);
            assert("jail"@ != "bhyve"@);
            assert("jail"@ != "docker"@);
            assert("jail"@ != "podman"@);
        },
    }
}

/// Printing a storage backend and parsing the text gives it back.
pub proof fn lemma_storage_name_roundtrip(s: Storage)
    ensures
        parse_storage(storage_name(s)) == Some(s),
{
    reveal_strlit("zfs");
    reveal_strlit("btrfs");
    reveal_strlit("raw");
    reveal_strlit("file");
    lemma_lower_fixed(storage_name(s));
    match s {
        Storage::Zfs => {},
        Storage::Btrfs => {
            assert("btrfs"@ != "zfs"@);
        },
        Storage::Raw => {
            assert("raw"@[0] != "zfs"@[0]);
            assert("raw"@ != "btrfs"@);
        },
    }
}

/// A host fits a requirement exactly when each free amount covers it;
/// a host that fits a larger requirement fits every smaller one.
pub proof fn lemma_fits_monotone(r: Resource, cpu: u32, mem: u32, disk: u32, cpu2: u32, mem2: u32, disk2: u32)
    requires
        fits(r, cpu, mem, disk),
        cpu2 <= cpu,
        mem2 <= mem,
        disk2 <= disk,
    ensures
        fits(r, cpu2, mem2, disk2),
{
}

} // verus!
