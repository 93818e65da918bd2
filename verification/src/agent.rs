//! Decisions of the host agent: admission of new VMs, IP and port
//! allocation, and the resource accounting of the VM lifecycle.
//!
//! The agent's runtime performs the engine, storage, network and database
//! work; every choice it makes along the way is taken here.

use vstd::prelude::*;
use vstd::string::StringExecFns;
use std::collections::BTreeMap;
use crate::api::CreateVmReq;
use crate::model::{fits, name_verdict, sat_sub, utf8_len, validate_name, vm_state_name, Engine, Resource, Vm, VmState, MAX_VMS};
use crate::net::{ip_index, ip_index_in_range, ip_to_index, vm_ip, vm_ip_text};

verus! {

broadcast use vstd::laws_cmp::group_laws_cmp;

// ── Admission ───────────────────────────────────────────────────────

/// Highest VM IP index the agent hands out.
pub const MAX_IP_INDEX: u32 = 65000;

/// The verdict on a VM creation request against the host's resources:
/// `Ok` or the message of the first check that fails.
pub open spec fn create_verdict(req: CreateVmReq, host_id: Seq<char>, res: Resource) -> Result<
    (),
    Seq<char>,
> {
    if !(name_verdict(req.vm_id@, utf8_len(req.vm_id@) as int, "vm_id"@) is Ok) {
        name_verdict(req.vm_id@, utf8_len(req.vm_id@) as int, "vm_id"@)
    } else if !(name_verdict(req.image@, utf8_len(req.image@) as int, "image"@) is Ok) {
        name_verdict(req.image@, utf8_len(req.image@) as int, "image"@)
    } else if req.cpu == 0 {
        Err("cpu must be > 0"@)
    } else if req.mem == 0 {
        Err("mem must be > 0"@)
    } else if req.disk == 0 {
        Err("disk must be > 0"@)
    } else if !fits(res, req.cpu, req.mem, req.disk) {
        Err("insufficient resources on host "@ + host_id)
    } else if res.vm_count >= MAX_VMS {
        Err("VM limit reached"@)
    } else {
        Ok(())
    }
}

/// An admitted VM fits its host: a request that `check_create` accepts asks
/// for some CPU, memory and disk, each no more than the host has left
/// (`used + asked <= total`), on a host below its VM limit. A request with
/// valid names that asks for more than the host has left of any of them is
/// refused as insufficient resources on that host.
pub proof fn lemma_admitted_fits(req: CreateVmReq, host_id: Seq<char>, res: Resource)
    ensures
        create_verdict(req, host_id, res) is Ok ==> {
            &&& 0 < req.cpu && res.cpu_used + req.cpu <= res.cpu_total
            &&& 0 < req.mem && res.mem_used + req.mem <= res.mem_total
            &&& 0 < req.disk && res.disk_used + req.disk <= res.disk_total
            &&& res.vm_count < MAX_VMS
        },
        name_verdict(req.vm_id@, utf8_len(req.vm_id@) as int, "vm_id"@) is Ok && name_verdict(
            req.image@,
            utf8_len(req.image@) as int,
            "image"@,
        ) is Ok && 0 < req.cpu && 0 < req.mem && 0 < req.disk && (res.cpu_used + req.cpu
            > res.cpu_total || res.mem_used + req.mem > res.mem_total || res.disk_used + req.disk
            > res.disk_total) ==> create_verdict(req, host_id, res) == Err::<(), Seq<char>>(
            "insufficient resources on host "@ + host_id,
        ),
{
}

/// Check a VM creation request against this host before any work starts.
pub fn check_create(req: &CreateVmReq, host_id: &str, res: &Resource) -> (r: Result<(), String>)
    ensures
        match r {
            Ok(()) => create_verdict(*req, host_id@, *res) is Ok,
            Err(m) => create_verdict(*req, host_id@, *res) == Err::<(), Seq<char>>(m@),
        },
{
    match validate_name(req.vm_id.as_str(), "vm_id") {
        Ok(()) => {},
        Err(e) => {
            return Err(e);
        },
    }
    match validate_name(req.image.as_str(), "image") {
        Ok(()) => {},
        Err(e) => {
            return Err(e);
        },
    }
    if req.cpu == 0 {
        return Err(String::from_str("cpu must be > 0"));
    }
    if req.mem == 0 {
        return Err(String::from_str("mem must be > 0"));
    }
    if req.disk == 0 {
        return Err(String::from_str("disk must be > 0"));
    }
    if !res.can_fit(req.cpu, req.mem, req.disk) {
        return Err(String::from_str("insufficient resources on host ").concat(host_id));
    }
    if res.vm_count as usize >= MAX_VMS {
        return Err(String::from_str("VM limit reached"));
    }
    Ok(())
}

// ── IP allocation ───────────────────────────────────────────────────

/// Whether the address of index `i` is among `existing`.
pub open spec fn ip_taken(existing: Seq<String>, i: u32) -> bool {
    exists|k: int| 0 <= k < existing.len() && #[trigger] existing[k]@ == vm_ip_text(i)
}

/// The index the allocator stops at when it starts from `next`: the first
/// index `j >= next` that is past the address space or free.
pub open spec fn ip_stop(existing: Seq<String>, next: u32, j: u32) -> bool {
    &&& next <= j
    &&& (j > MAX_IP_INDEX || !ip_taken(existing, j))
    &&& forall|k: u32| next <= k < j ==> k <= MAX_IP_INDEX && #[trigger] ip_taken(existing, k)
}

/// An address the allocator hands out is none of the addresses in use:
/// after a restart, passing the restored VMs' addresses keeps every new
/// VM off them.
pub proof fn lemma_alloc_avoids_existing(existing: Seq<String>, next: u32, j: u32, k: int)
    requires
        ip_stop(existing, next, j),
        j <= MAX_IP_INDEX,
        0 <= k < existing.len(),
    ensures
        existing[k]@ != vm_ip_text(j),
{
    if existing[k]@ == vm_ip_text(j) {
        assert(ip_taken(existing, j));
    }
}

fn ip_in(existing: &[String], ip: &String) -> (r: bool)
    ensures
        r == exists|k: int| 0 <= k < existing@.len() && #[trigger] existing@[k]@ == ip@,
{
    let mut k: usize = 0;
    while k < existing.len()
        invariant
            k <= existing@.len(),
            forall|m: int| 0 <= m < k ==> #[trigger] existing@[m]@ != ip@,
        decreases existing@.len() - k,
    {
        if existing[k] == *ip {
            return true;
        }
        k = k + 1;
    }
    false
}

/// Allocate a VM IP, skipping indices whose address is already in use.
///
/// `next` is the allocator's cursor; it moves past every index tried (and
/// wraps around at `u32::MAX`, as an atomic fetch-add does).
pub fn alloc_ip(next: &mut u32, existing: &[String]) -> (r: Result<(u32, String), String>)
    ensures
        exists|j: u32|
            #[trigger] ip_stop(existing@, *old(next), j) && *final(next) == (if j == u32::MAX {
                0
            } else {
                (j + 1) as u32
            }) && match r {
                Ok((idx, ip)) => idx == j && j <= MAX_IP_INDEX && ip@ == vm_ip_text(j),
                Err(m) => j > MAX_IP_INDEX && m@ == "IP address space exhausted"@,
            },
{
    let ghost start = *next;
    loop
        invariant
            start <= *next <= MAX_IP_INDEX + 1 || *next == start,
            forall|k: u32| start <= k < *next ==> k <= MAX_IP_INDEX && #[trigger] ip_taken(
                existing@,
                k,
            ),
            start == *old(next),
        decreases u32::MAX - *next,
    {
        let idx = *next;
        *next = idx.wrapping_add(1);
        if idx > MAX_IP_INDEX {
            assert(ip_stop(existing@, start, idx));
            return Err(String::from_str("IP address space exhausted"));
        }
        let candidate = vm_ip(idx);
        if !ip_in(existing, &candidate) {
            assert(ip_stop(existing@, start, idx));
            return Ok((idx, candidate));
        }
        assert(ip_taken(existing@, idx));
    }
}

/// The highest sequential index among the VMs' addresses (0 when none
/// parses).
pub open spec fn max_ip_index(ips: Seq<Seq<char>>) -> u32
    decreases ips.len(),
{
    if ips.len() == 0 {
        0
    } else {
        let m = max_ip_index(ips.drop_last());
        match ip_index(ips.last()) {
            Some(i) => if i > m {
                i
            } else {
                m
            },
            None => m,
        }
    }
}

/// The addresses of the VMs, in order.
pub open spec fn vm_ips(vms: Seq<Vm>) -> Seq<Seq<char>> {
    vms.map_values(|v: Vm| v.ip@)
}

/// The highest sequential index in use by the given VMs' addresses.
pub fn max_ip_index_of(vms: &[Vm]) -> (r: u32)
    requires
        forall|k: int| 0 <= k < vms@.len() ==> ip_index_in_range(#[trigger] vms@[k].ip@),
    ensures
        r == max_ip_index(vm_ips(vms@)),
{
    let mut m: u32 = 0;
    let mut i: usize = 0;
    while i < vms.len()
        invariant
            i <= vms@.len(),
            forall|k: int| 0 <= k < vms@.len() ==> ip_index_in_range(#[trigger] vms@[k].ip@),
            m == max_ip_index(vm_ips(vms@).subrange(0, i as int)),
        decreases vms@.len() - i,
    {
        let ghost pre = vm_ips(vms@).subrange(0, i as int);
        let ghost nxt = vm_ips(vms@).subrange(0, i as int + 1);
        assert(nxt.drop_last() =~= pre);
        assert(nxt.last() == vms@[i as int].ip@);
        match ip_to_index(vms[i].ip.as_str()) {
            Some(x) => {
                if x > m {
                    m = x;
                }
            },
            None => {},
        }
        i = i + 1;
    }
    assert(vm_ips(vms@).subrange(0, vms@.len() as int) =~= vm_ips(vms@));
    m
}

// ── Port mapping ────────────────────────────────────────────────────

/// Guest port always exposed.
pub const SSH_PORT: u16 = 22;

/// The guest ports to expose: the requested ones, with 22 put first when
/// it is not among them.
pub open spec fn exposed_ports(ports: Seq<u16>) -> Seq<u16> {
    if ports.contains(SSH_PORT) {
        ports
    } else {
        seq![SSH_PORT] + ports
    }
}

/// `a + b` saturating at `u32::MAX`.
pub open spec fn sat_add(a: int, b: int) -> int {
    if a + b > u32::MAX {
        u32::MAX as int
    } else {
        a + b
    }
}

/// First host port of the VM with IP index `ip_idx`.
pub open spec fn base_port(ip_idx: u32) -> int {
    sat_add(20000, if ip_idx * 100 > u32::MAX { u32::MAX as int } else { ip_idx * 100 })
}

/// Host port of the `k`-th exposed guest port.
pub open spec fn host_port(ip_idx: u32, k: int) -> int {
    sat_add(base_port(ip_idx), (k as u32) as int)
}

/// The mapping after the first `n` exposed ports (later entries for the
/// same guest port win).
pub open spec fn port_map_prefix(ports: Seq<u16>, ip_idx: u32, n: int) -> Map<u16, u16>
    decreases n,
{
    if n <= 0 {
        Map::empty()
    } else {
        port_map_prefix(ports, ip_idx, n - 1).insert(ports[n - 1], host_port(ip_idx, n - 1) as u16)
    }
}

/// How many exposed ports get a host port: those before the first whose
/// host port would pass 65535.
pub open spec fn mapped_count(ports: Seq<u16>, ip_idx: u32, n: int) -> bool {
    &&& 0 <= n <= ports.len()
    &&& forall|k: int| 0 <= k < n ==> #[trigger] host_port(ip_idx, k) <= 65535
    &&& (n == ports.len() || host_port(ip_idx, n) > 65535)
}

/// Guest → host port mapping for a new VM.
///
/// Port 22 is always exposed (first, unless requested); host ports count
/// up from `20000 + 100 * ip_idx`, and ports that would pass 65535 are
/// left out.
pub fn alloc_port_map(ports: &[u16], ip_idx: u32) -> (m: BTreeMap<u16, u16>)
    ensures
        exists|n: int|
            mapped_count(exposed_ports(ports@), ip_idx, n) && #[trigger] port_map_prefix(
                exposed_ports(ports@),
                ip_idx,
                n,
            ) == m@,
{
    let mut eff: Vec<u16> = Vec::new();
    let mut has22 = false;
    let mut i: usize = 0;
    while i < ports.len()
        invariant
            i <= ports@.len(),
            has22 == ports@.subrange(0, i as int).contains(SSH_PORT),
            eff@ == ports@.subrange(0, i as int),
        decreases ports@.len() - i,
    {
        let ghost pre = ports@.subrange(0, i as int);
        if ports[i] == SSH_PORT {
            assert(ports@.subrange(0, i as int + 1)[i as int] == SSH_PORT);
            has22 = true;
        } else {
            proof {
                if ports@.subrange(0, i as int + 1).contains(SSH_PORT) {
                    let w = choose|w: int| 0 <= w < i + 1 && #[trigger] ports@.subrange(0, i as int + 1)[w] == SSH_PORT;
                    assert(pre[w] == SSH_PORT);
                }
            }
        }
        eff.push(ports[i]);
        i = i + 1;
        assert(eff@ =~= ports@.subrange(0, i as int));
    }
    assert(ports@.subrange(0, ports@.len() as int) =~= ports@);
    if !has22 {
        eff.insert(0, SSH_PORT);
        assert(eff@ =~= seq![SSH_PORT] + ports@);
    }
    let ghost ex = exposed_ports(ports@);
    assert(eff@ == ex);
    let scaled: u32 = match ip_idx.checked_mul(100) {
        Some(v) => v,
        None => u32::MAX,
    };
    let base: u32 = 20000u32.saturating_add(scaled);
    assert(base == base_port(ip_idx));
    let mut map: BTreeMap<u16, u16> = BTreeMap::new();
    let mut k: usize = 0;
    while k < eff.len()
        invariant
            eff@ == ex,
            ex == exposed_ports(ports@),
            base == base_port(ip_idx),
            k <= eff@.len(),
            forall|j: int| 0 <= j < k ==> #[trigger] host_port(ip_idx, j) <= 65535,
            map@ == port_map_prefix(ex, ip_idx, k as int),
        decreases eff@.len() - k,
    {
        let hp: u32 = base.saturating_add(k as u32);
        assert(hp == host_port(ip_idx, k as int));
        if hp > 65535 {
            assert(mapped_count(ex, ip_idx, k as int));
            assert(port_map_prefix(exposed_ports(ports@), ip_idx, k as int) == map@);
            return map;
        }
        map.insert(eff[k], hp as u16);
        k = k + 1;
    }
    assert(mapped_count(ex, ip_idx, k as int));
    assert(port_map_prefix(exposed_ports(ports@), ip_idx, k as int) == map@);
    map
}

/// Every host port of a VM's map is the host port of one of the first `n`
/// exposed ports.
proof fn lemma_prefix_value(ps: Seq<u16>, ip_idx: u32, n: int, g: u16) -> (k: int)
    requires
        0 <= n <= ps.len(),
        port_map_prefix(ps, ip_idx, n).contains_key(g),
    ensures
        0 <= k < n,
        port_map_prefix(ps, ip_idx, n)[g] == host_port(ip_idx, k) as u16,
    decreases n,
{
    if ps[n - 1] == g {
        n - 1
    } else {
        lemma_prefix_value(ps, ip_idx, n - 1, g)
    }
}

/// A host port that fits a `u16` is `20000 + 100 * ip_idx + k`.
proof fn lemma_host_port_value(ip_idx: u32, k: int)
    requires
        0 <= k < 100,
        host_port(ip_idx, k) <= 65535,
    ensures
        host_port(ip_idx, k) == 20000 + 100 * ip_idx + k,
{
    assert((k as u32) as int == k);
    if ip_idx * 100 > u32::MAX {
        assert(base_port(ip_idx) == u32::MAX);
    }
}

/// VMs at different address indices that each expose at most 100 ports
/// never share a host port: each index owns its own block of 100 ports.
pub proof fn lemma_host_ports_disjoint(
    p1: Seq<u16>,
    i: u32,
    n1: int,
    g1: u16,
    p2: Seq<u16>,
    j: u32,
    n2: int,
    g2: u16,
)
    requires
        i != j,
        mapped_count(exposed_ports(p1), i, n1),
        mapped_count(exposed_ports(p2), j, n2),
        exposed_ports(p1).len() <= 100,
        exposed_ports(p2).len() <= 100,
        port_map_prefix(exposed_ports(p1), i, n1).contains_key(g1),
        port_map_prefix(exposed_ports(p2), j, n2).contains_key(g2),
    ensures
        port_map_prefix(exposed_ports(p1), i, n1)[g1] != port_map_prefix(exposed_ports(p2), j, n2)[g2],
{
    let k1 = lemma_prefix_value(exposed_ports(p1), i, n1, g1);
    let k2 = lemma_prefix_value(exposed_ports(p2), j, n2, g2);
    lemma_host_port_value(i, k1);
    lemma_host_port_value(j, k2);
    let a = 100 * i + k1;
    let b = 100 * j + k2;
    assert(a != b) by (nonlinear_arith)
        requires
            a == 100 * i + k1,
            b == 100 * j + k2,
            0 <= k1 < 100,
            0 <= k2 < 100,
            i != j,
    ;
}

// ── Undoing a failed creation ───────────────────────────────────────

/// The step of a VM's creation that failed.
#[derive(Debug, Clone, Copy, PartialEq, Eq, Structural)]
pub enum CreateFailure {
    /// Cloning the base image.
    Clone,
    /// Setting up the TAP device.
    Tap,
    /// Saving the VM's record.
    Record,
    /// Launching the VM on its engine.
    Engine,
    /// Setting up port forwards and the outgoing-traffic rule.
    PostCreate,
}

/// A step that undoes part of a failed creation.
#[derive(Debug, Clone, Copy, PartialEq, Eq, Structural)]
pub enum Undo {
    RemoveForwards,
    AllowOutgoing,
    DestroyInstance,
    RemoveClone,
    DestroyTap,
    DeleteRecord,
}

/// What is undone, in order, when creation fails at `stage` (`managed`:
/// whether the host manages the VM's clone and network). A failure before
/// the engine ran leaves everything as it is; a failed launch removes the
/// clone and TAP device of a host-managed VM and the record; a failed
/// network setup removes every rule, the instance, the clone, the TAP
/// device and the record. The host's resources are charged only after a
/// creation succeeds, so no failure changes them.
pub open spec fn undo_plan(stage: CreateFailure, managed: bool) -> Seq<Undo> {
    match stage {
        CreateFailure::Engine => if managed {
            seq![Undo::RemoveClone, Undo::DestroyTap, Undo::DeleteRecord]
        } else {
            seq![Undo::DeleteRecord]
        },
        CreateFailure::PostCreate => seq![
            Undo::RemoveForwards,
            Undo::AllowOutgoing,
            Undo::DestroyInstance,
            Undo::RemoveClone,
            Undo::DestroyTap,
            Undo::DeleteRecord,
        ],
        _ => Seq::<Undo>::empty(),
    }
}

/// The steps that undo a creation that failed at `stage`.
pub fn undo_steps(stage: CreateFailure, managed: bool) -> (v: Vec<Undo>)
    ensures
        v@ == undo_plan(stage, managed),
{
    match stage {
        CreateFailure::Engine => if managed {
            vec![Undo::RemoveClone, Undo::DestroyTap, Undo::DeleteRecord]
        } else {
            vec![Undo::DeleteRecord]
        },
        CreateFailure::PostCreate => vec![
            Undo::RemoveForwards,
            Undo::AllowOutgoing,
            Undo::DestroyInstance,
            Undo::RemoveClone,
            Undo::DestroyTap,
            Undo::DeleteRecord,
        ],
        _ => Vec::new(),
    }
}

// ── Lifecycle accounting ────────────────────────────────────────────

/// What a lifecycle request asks of the engine.
#[derive(Debug, Clone, Copy, PartialEq, Eq, Structural)]
pub enum Step {
    /// Nothing to do: the VM is already in the requested state.
    Noop,
    /// Ask the engine, then record the new state.
    Proceed,
}

/// Whether an engine pauses a VM on stop (keeping its process) rather
/// than stopping it fully.
pub open spec fn pauses(e: Engine) -> bool {
    e == Engine::Qemu || e == Engine::Firecracker
}

/// The step a stop request takes from `state`.
pub open spec fn stop_step(state: VmState) -> Result<Step, Seq<char>> {
    match state {
        VmState::Running => Ok(Step::Proceed),
        VmState::Paused | VmState::Stopped => Ok(Step::Noop),
        _ => Err("cannot stop VM in state "@ + vm_state_name(state)),
    }
}

/// Decide how to handle a stop request for a VM in `state`.
pub fn plan_stop(state: VmState) -> (r: Result<Step, String>)
    ensures
        match r {
            Ok(s) => stop_step(state) == Ok::<Step, Seq<char>>(s),
            Err(m) => stop_step(state) == Err::<Step, Seq<char>>(m@),
        },
{
    match state {
        VmState::Running => Ok(Step::Proceed),
        VmState::Paused | VmState::Stopped => Ok(Step::Noop),
        _ => Err(String::from_str("cannot stop VM in state ").concat(state.to_string().as_str())),
    }
}

/// A resource snapshot with `cpu` and `mem` given back (saturating).
pub open spec fn release_cpu_mem(r: Resource, cpu: u32, mem: u32) -> Resource {
    Resource { cpu_used: sat_sub(r.cpu_used, cpu), mem_used: sat_sub(r.mem_used, mem), ..r }
}

/// State and resources after the engine stopped a running VM: engines
/// that pause keep the VM's resources, the others give CPU and memory back.
pub open spec fn after_stop(engine: Engine, cpu: u32, mem: u32, r: Resource) -> (VmState, Resource) {
    if pauses(engine) {
        (VmState::Paused, r)
    } else {
        (VmState::Stopped, release_cpu_mem(r, cpu, mem))
    }
}

/// Record that the engine stopped `vm`; returns its new state.
pub fn apply_stop(vm: &Vm, res: &mut Resource) -> (s: VmState)
    ensures
        (s, *final(res)) == after_stop(vm.engine, vm.cpu, vm.mem, *old(res)),
{
    let pause = match vm.engine {
        Engine::Qemu | Engine::Firecracker => true,
        _ => false,
    };
    if pause {
        VmState::Paused
    } else {
        res.cpu_used = res.cpu_used.saturating_sub(vm.cpu);
        res.mem_used = res.mem_used.saturating_sub(vm.mem);
        VmState::Stopped
    }
}

/// The step a start request takes from `state`; a fully stopped VM must
/// fit the host's free CPU and memory again.
pub open spec fn start_step(state: VmState, cpu: u32, mem: u32, r: Resource) -> Result<
    Step,
    Seq<char>,
> {
    match state {
        VmState::Stopped => if fits(r, cpu, mem, 0) {
            Ok(Step::Proceed)
        } else {
            Err("insufficient resources to restart VM"@)
        },
        VmState::Paused => Ok(Step::Proceed),
        VmState::Running => Ok(Step::Noop),
        _ => Err("cannot start VM in state "@ + vm_state_name(state)),
    }
}

/// Decide how to handle a start request for `vm` on a host with `res`.
pub fn plan_start(vm: &Vm, res: &Resource) -> (r: Result<Step, String>)
    ensures
        match r {
            Ok(s) => start_step(vm.state, vm.cpu, vm.mem, *res) == Ok::<Step, Seq<char>>(s),
            Err(m) => start_step(vm.state, vm.cpu, vm.mem, *res) == Err::<Step, Seq<char>>(m@),
        },
{
    match vm.state {
        VmState::Stopped | VmState::Paused => {},
        VmState::Running => {
            return Ok(Step::Noop);
        },
        _ => {
            return Err(
                String::from_str("cannot start VM in state ").concat(vm.state.to_string().as_str()),
            );
        },
    }
    if vm.state == VmState::Stopped && !res.can_fit(vm.cpu, vm.mem, 0) {
        return Err(String::from_str("insufficient resources to restart VM"));
    }
    Ok(Step::Proceed)
}

/// Resources after the engine started a VM that was in `prev`: a fully
/// stopped VM takes its CPU and memory again.
pub open spec fn after_start(prev: VmState, cpu: u32, mem: u32, r: Resource) -> Resource {
    if prev == VmState::Stopped {
        Resource { cpu_used: (r.cpu_used + cpu) as u32, mem_used: (r.mem_used + mem) as u32, ..r }
    } else {
        r
    }
}

/// Record that the engine started a VM that was in `prev`.
pub fn apply_start(prev: VmState, cpu: u32, mem: u32, res: &mut Resource)
    requires
        prev == VmState::Stopped ==> fits(*old(res), cpu, mem, 0),
    ensures
        *final(res) == after_start(prev, cpu, mem, *old(res)),
{
    if prev == VmState::Stopped {
        res.cpu_used = res.cpu_used + cpu;
        res.mem_used = res.mem_used + mem;
    }
}

/// Resources after a new VM of `cpu`, `mem` and `disk` started running.
pub open spec fn after_create(cpu: u32, mem: u32, disk: u32, r: Resource) -> Resource {
    Resource {
        cpu_used: (r.cpu_used + cpu) as u32,
        mem_used: (r.mem_used + mem) as u32,
        disk_used: (r.disk_used + disk) as u32,
        vm_count: (r.vm_count + 1) as u32,
        ..r
    }
}

/// Record that a new VM of `cpu`, `mem` and `disk` is running; the
/// request passed [`check_create`] first.
pub fn apply_create(cpu: u32, mem: u32, disk: u32, res: &mut Resource)
    requires
        fits(*old(res), cpu, mem, disk),
        old(res).vm_count < MAX_VMS,
    ensures
        *final(res) == after_create(cpu, mem, disk, *old(res)),
{
    res.cpu_used = res.cpu_used + cpu;
    res.mem_used = res.mem_used + mem;
    res.disk_used = res.disk_used + disk;
    res.vm_count = res.vm_count + 1;
}

/// Whether a VM in `state` holds CPU and memory on its host.
pub open spec fn holds_cpu_mem(state: VmState) -> bool {
    state == VmState::Running || state == VmState::Paused || state == VmState::Creating
}

/// Resources after a VM in `state` is destroyed: its CPU and memory (if it
/// held them), its disk and its slot are given back, saturating at zero.
pub open spec fn after_destroy(state: VmState, cpu: u32, mem: u32, disk: u32, r: Resource) -> Resource {
    let r1 = if holds_cpu_mem(state) {
        release_cpu_mem(r, cpu, mem)
    } else {
        r
    };
    Resource { disk_used: sat_sub(r1.disk_used, disk), vm_count: sat_sub(r1.vm_count, 1), ..r1 }
}

/// Record that `vm` was destroyed.
pub fn apply_destroy(vm: &Vm, res: &mut Resource)
    ensures
        *final(res) == after_destroy(vm.state, vm.cpu, vm.mem, vm.disk, *old(res)),
{
    if vm.state == VmState::Running || vm.state == VmState::Paused || vm.state
        == VmState::Creating {
        res.cpu_used = res.cpu_used.saturating_sub(vm.cpu);
        res.mem_used = res.mem_used.saturating_sub(vm.mem);
    }
    res.disk_used = res.disk_used.saturating_sub(vm.disk);
    res.vm_count = res.vm_count.saturating_sub(1);
}

// ── Restoring the ledger from persisted VMs ─────────────────────────

/// Whether a persisted VM counts against the host when the agent starts.
pub open spec fn is_active(v: Vm) -> bool {
    v.state == VmState::Running || v.state == VmState::Paused
}

pub open spec fn active_cpu(vms: Seq<Vm>) -> int
    decreases vms.len(),
{
    if vms.len() == 0 {
        0
    } else {
        active_cpu(vms.drop_last()) + if is_active(vms.last()) { vms.last().cpu as int } else { 0 }
    }
}

pub open spec fn active_mem(vms: Seq<Vm>) -> int
    decreases vms.len(),
{
    if vms.len() == 0 {
        0
    } else {
        active_mem(vms.drop_last()) + if is_active(vms.last()) { vms.last().mem as int } else { 0 }
    }
}

pub open spec fn active_disk(vms: Seq<Vm>) -> int
    decreases vms.len(),
{
    if vms.len() == 0 {
        0
    } else {
        active_disk(vms.drop_last()) + if is_active(vms.last()) { vms.last().disk as int } else { 0 }
    }
}

pub open spec fn active_count(vms: Seq<Vm>) -> int
    decreases vms.len(),
{
    if vms.len() == 0 {
        0
    } else {
        active_count(vms.drop_last()) + if is_active(vms.last()) { 1int } else { 0 }
    }
}

/// The persisted VMs that survive a restart: all but those left in the
/// `Creating` state by an interrupted creation, in order.
pub open spec fn survivors(vms: Seq<Vm>) -> Seq<Vm>
    decreases vms.len(),
{
    if vms.len() == 0 {
        Seq::<Vm>::empty()
    } else if vms.last().state == VmState::Creating {
        survivors(vms.drop_last())
    } else {
        survivors(vms.drop_last()).push(vms.last())
    }
}

/// The ids of the VMs an interrupted creation left behind, in order.
pub open spec fn orphan_ids(vms: Seq<Vm>) -> Seq<Seq<char>>
    decreases vms.len(),
{
    if vms.len() == 0 {
        Seq::<Seq<char>>::empty()
    } else if vms.last().state == VmState::Creating {
        orphan_ids(vms.drop_last()).push(vms.last().id@)
    } else {
        orphan_ids(vms.drop_last())
    }
}

/// The ids of the persisted VMs that a restart destroys: those left in the
/// `Creating` state.
pub fn orphaned_vm_ids(vms: &[Vm]) -> (v: Vec<String>)
    ensures
        v@.len() == orphan_ids(vms@).len(),
        forall|k: int| 0 <= k < v@.len() ==> #[trigger] v@[k]@ == orphan_ids(vms@)[k],
{
    let mut v: Vec<String> = Vec::new();
    let mut i: usize = 0;
    while i < vms.len()
        invariant
            i <= vms@.len(),
            v@.len() == orphan_ids(vms@.subrange(0, i as int)).len(),
            forall|k: int|
                0 <= k < v@.len() ==> #[trigger] v@[k]@ == orphan_ids(vms@.subrange(0, i as int))[k],
        decreases vms@.len() - i,
    {
        let ghost pre = vms@.subrange(0, i as int);
        let ghost nxt = vms@.subrange(0, i as int + 1);
        assert(nxt.drop_last() =~= pre);
        assert(nxt.last() == vms@[i as int]);
        if vms[i].state == VmState::Creating {
            v.push(vms[i].id.clone());
        }
        i = i + 1;
    }
    assert(vms@.subrange(0, vms@.len() as int) =~= vms@);
    v
}

/// Removing the VMs an interrupted creation left behind changes nothing in
/// the usage a restart restores: they hold no resources. Every VM that was
/// not being created survives the restart, and every one that was is among
/// the orphans.
pub proof fn lemma_restore_ignores_orphans(vms: Seq<Vm>)
    ensures
        active_cpu(survivors(vms)) == active_cpu(vms),
        active_mem(survivors(vms)) == active_mem(vms),
        active_disk(survivors(vms)) == active_disk(vms),
        active_count(survivors(vms)) == active_count(vms),
        forall|k: int| 0 <= k < survivors(vms).len() ==> #[trigger] survivors(vms)[k].state
            != VmState::Creating,
        forall|k: int|
            0 <= k < vms.len() && #[trigger] vms[k].state != VmState::Creating ==> survivors(
                vms,
            ).contains(vms[k]),
        forall|k: int|
            0 <= k < vms.len() && #[trigger] vms[k].state == VmState::Creating ==> orphan_ids(
                vms,
            ).contains(vms[k].id@),
    decreases vms.len(),
{
    if vms.len() > 0 {
        let pre = vms.drop_last();
        lemma_restore_ignores_orphans(pre);
        let r = survivors(pre);
        let o = orphan_ids(pre);
        assert forall|k: int| 0 <= k < vms.len() && #[trigger] vms[k].state != VmState::Creating
            implies survivors(vms).contains(vms[k]) by {
            if k < pre.len() {
                assert(pre[k] == vms[k]);
                let j = choose|j: int| 0 <= j < r.len() && r[j] == pre[k];
                if vms.last().state != VmState::Creating {
                    assert(survivors(vms)[j] == r[j]);
                }
            } else {
                assert(survivors(vms)[r.len() as int] == vms[k]);
            }
        }
        assert forall|k: int| 0 <= k < vms.len() && #[trigger] vms[k].state == VmState::Creating
            implies orphan_ids(vms).contains(vms[k].id@) by {
            if k < pre.len() {
                assert(pre[k] == vms[k]);
                let j = choose|j: int| 0 <= j < o.len() && o[j] == pre[k].id@;
                if vms.last().state == VmState::Creating {
                    assert(orphan_ids(vms)[j] == o[j]);
                }
            } else {
                assert(orphan_ids(vms)[o.len() as int] == vms[k].id@);
            }
        }
        if vms.last().state != VmState::Creating {
            let t = r.push(vms.last());
            assert(t.drop_last() =~= r);
            assert(t.last() == vms.last());
            assert forall|k: int| 0 <= k < t.len() implies #[trigger] t[k].state
                != VmState::Creating by {
                if k < r.len() {
                    assert(t[k] == r[k]);
                }
            }
        }
    }
}

proof fn lemma_active_monotone(vms: Seq<Vm>, i: int)
    requires
        0 <= i <= vms.len(),
    ensures
        active_cpu(vms.subrange(0, i)) <= active_cpu(vms),
        active_mem(vms.subrange(0, i)) <= active_mem(vms),
        active_disk(vms.subrange(0, i)) <= active_disk(vms),
        active_count(vms.subrange(0, i)) <= active_count(vms),
    decreases vms.len() - i,
{
    if i < vms.len() {
        lemma_active_monotone(vms, i + 1);
        assert(vms.subrange(0, i + 1).drop_last() =~= vms.subrange(0, i));
    } else {
        assert(vms.subrange(0, i) =~= vms);
    }
}

/// Whether the usage of the running and paused VMs fits the counters
/// (`restore_usage` requires it).
pub fn restored_usage_fits(vms: &[Vm]) -> (r: bool)
    ensures
        r == (active_cpu(vms@) <= u32::MAX && active_mem(vms@) <= u32::MAX && active_disk(vms@)
            <= u32::MAX && active_count(vms@) <= u32::MAX),
{
    let (mut cpu, mut mem, mut disk, mut count) = (0u64, 0u64, 0u64, 0u64);
    let mut i: usize = 0;
    while i < vms.len()
        invariant
            i <= vms@.len(),
            cpu == active_cpu(vms@.subrange(0, i as int)),
            mem == active_mem(vms@.subrange(0, i as int)),
            disk == active_disk(vms@.subrange(0, i as int)),
            count == active_count(vms@.subrange(0, i as int)),
            cpu <= u32::MAX && mem <= u32::MAX && disk <= u32::MAX && count <= u32::MAX,
        decreases vms@.len() - i,
    {
        let v = &vms[i];
        proof {
            assert(vms@.subrange(0, i as int + 1).drop_last() =~= vms@.subrange(0, i as int));
        }
        if v.state == VmState::Running || v.state == VmState::Paused {
            cpu = cpu + v.cpu as u64;
            mem = mem + v.mem as u64;
            disk = disk + v.disk as u64;
            count = count + 1;
        }
        i = i + 1;
        if cpu > 0xffff_ffff || mem > 0xffff_ffff || disk > 0xffff_ffff || count > 0xffff_ffff {
            proof {
                lemma_active_monotone(vms@, i as int);
            }
            return false;
        }
    }
    assert(vms@.subrange(0, vms@.len() as int) =~= vms@);
    true
}

/// The host's resources when the agent starts: the configured totals, with
/// usage summed over the running and paused VMs.
pub fn restore_usage(vms: &[Vm], base: &Resource) -> (r: Resource)
    requires
        active_cpu(vms@) <= u32::MAX,
        active_mem(vms@) <= u32::MAX,
        active_disk(vms@) <= u32::MAX,
        active_count(vms@) <= u32::MAX,
    ensures
        r == (Resource {
            cpu_used: active_cpu(vms@) as u32,
            mem_used: active_mem(vms@) as u32,
            disk_used: active_disk(vms@) as u32,
            vm_count: active_count(vms@) as u32,
            ..*base
        }),
{
    let mut cpu: u32 = 0;
    let mut mem: u32 = 0;
    let mut disk: u32 = 0;
    let mut count: u32 = 0;
    let mut i: usize = 0;
    while i < vms.len()
        invariant
            i <= vms@.len(),
            active_cpu(vms@) <= u32::MAX,
            active_mem(vms@) <= u32::MAX,
            active_disk(vms@) <= u32::MAX,
            active_count(vms@) <= u32::MAX,
            cpu == active_cpu(vms@.subrange(0, i as int)),
            mem == active_mem(vms@.subrange(0, i as int)),
            disk == active_disk(vms@.subrange(0, i as int)),
            count == active_count(vms@.subrange(0, i as int)),
        decreases vms@.len() - i,
    {
        let v = &vms[i];
        proof {
            lemma_active_monotone(vms@, i as int + 1);
            assert(vms@.subrange(0, i as int + 1).drop_last() =~= vms@.subrange(0, i as int));
        }
        if v.state == VmState::Running || v.state == VmState::Paused {
            cpu = cpu + v.cpu;
            mem = mem + v.mem;
            disk = disk + v.disk;
            count = count + 1;
        }
        i = i + 1;
    }
    assert(vms@.subrange(0, vms@.len() as int) =~= vms@);
    Resource { cpu_used: cpu, mem_used: mem, disk_used: disk, vm_count: count, ..*base }
}

/// What the agent restores from its persisted VMs when it starts.
pub struct Restored {
    /// The ids of the VMs an interrupted creation left behind, to destroy.
    pub orphans: Vec<String>,
    /// The host's resources once they are gone.
    pub resource: Resource,
}

/// The restart plan for the persisted VMs `vms` on a host configured with
/// `base`: the orphans of interrupted creations, and the configured totals
/// with usage summed over the running and paused VMs that survive them;
/// `None` when those sums overflow the counters.
pub fn plan_restore(vms: &[Vm], base: &Resource) -> (r: Option<Restored>)
    ensures
        r is None <==> !(active_cpu(survivors(vms@)) <= u32::MAX && active_mem(survivors(vms@))
            <= u32::MAX && active_disk(survivors(vms@)) <= u32::MAX && active_count(
            survivors(vms@),
        ) <= u32::MAX),
        r matches Some(p) ==> {
            &&& p.orphans@.len() == orphan_ids(vms@).len()
            &&& forall|k: int|
                0 <= k < p.orphans@.len() ==> #[trigger] p.orphans@[k]@ == orphan_ids(vms@)[k]
            &&& p.resource == (Resource {
                cpu_used: active_cpu(survivors(vms@)) as u32,
                mem_used: active_mem(survivors(vms@)) as u32,
                disk_used: active_disk(survivors(vms@)) as u32,
                vm_count: active_count(survivors(vms@)) as u32,
                ..*base
            })
        },
{
    proof {
        lemma_restore_ignores_orphans(vms@);
    }
    if !restored_usage_fits(vms) {
        return None;
    }
    let orphans = orphaned_vm_ids(vms);
    let resource = restore_usage(vms, base);
    Some(Restored { orphans, resource })
}

// ── Laws ────────────────────────────────────────────────────────────

/// Usage within capacity: no counter is over-committed.
pub open spec fn within_capacity(r: Resource) -> bool {
    &&& r.cpu_used <= r.cpu_total
    &&& r.mem_used <= r.mem_total
    &&& r.disk_used <= r.disk_total
}

/// Creating a VM that passed the checks and destroying it again leaves
/// the host's resources as they were.
pub proof fn lemma_create_destroy_roundtrip(cpu: u32, mem: u32, disk: u32, r: Resource)
    requires
        within_capacity(r),
        fits(r, cpu, mem, disk),
        r.vm_count < MAX_VMS,
    ensures
        after_destroy(VmState::Running, cpu, mem, disk, after_create(cpu, mem, disk, r)) == r,
{
}

/// Stopping a running VM on an engine that does not pause, then starting
/// it again, leaves the host's resources as they were.
pub proof fn lemma_stop_start_roundtrip(engine: Engine, cpu: u32, mem: u32, r: Resource)
    requires
        !pauses(engine),
        cpu <= r.cpu_used <= r.cpu_total,
        mem <= r.mem_used <= r.mem_total,
    ensures
        after_stop(engine, cpu, mem, r).0 == VmState::Stopped,
        start_step(VmState::Stopped, cpu, mem, after_stop(engine, cpu, mem, r).1) == Ok::<
            Step,
            Seq<char>,
        >(Step::Proceed),
        after_start(VmState::Stopped, cpu, mem, after_stop(engine, cpu, mem, r).1) == r,
{
}

/// Every accounting step keeps usage within capacity: creation and
/// restart only after their fit checks, stop and destroy by giving back.
pub proof fn lemma_accounting_within_capacity(
    state: VmState,
    engine: Engine,
    cpu: u32,
    mem: u32,
    disk: u32,
    r: Resource,
)
    requires
        within_capacity(r),
    ensures
        fits(r, cpu, mem, disk) && r.vm_count < MAX_VMS ==> within_capacity(
            after_create(cpu, mem, disk, r),
        ),
        start_step(state, cpu, mem, r) is Ok ==> within_capacity(after_start(state, cpu, mem, r)),
        within_capacity(after_stop(engine, cpu, mem, r).1),
        within_capacity(after_destroy(state, cpu, mem, disk, r)),
{
}


// ── Host identity and capabilities ──────────────────────────────────

/// The text of an optional string.
pub open spec fn opt_text(o: Option<String>) -> Option<Seq<char>> {
    match o {
        Some(x) => Some(x@),
        None => None,
    }
}

/// Whether `id` (and `save`: whether it must be saved) is a choice of
/// host id for a command-line id `cli` and a saved id `stored`: the
/// command line wins and is saved; else a saved id is kept; else a fresh
/// id of 8 lowercase hex digits is made and saved.
pub open spec fn host_id_choice(
    cli: Option<Seq<char>>,
    stored: Option<Seq<char>>,
    id: Seq<char>,
    save: bool,
) -> bool {
    match cli {
        Some(c) => id == c && save,
        None => match stored {
            Some(s) => id == s && !save,
            None => save && id.len() == 8 && forall|i: int|
                0 <= i < 8 ==> crate::ids::is_lower_hex(#[trigger] id[i]),
        },
    }
}

/// The saved id after a choice: the chosen id when it must be saved.
pub open spec fn stored_after(stored: Option<Seq<char>>, id: Seq<char>, save: bool) -> Option<
    Seq<char>,
> {
    if save {
        Some(id)
    } else {
        stored
    }
}

/// The host id an agent runs under, and whether it must be saved: an id
/// given on the command line wins and is saved; else a saved id is kept;
/// else a fresh random id (8 lowercase hex digits) is made and saved.
pub fn choose_host_id(cli_id: Option<String>, stored: Option<String>) -> (r: (String, bool))
    ensures
        host_id_choice(opt_text(cli_id), opt_text(stored), r.0@, r.1),
{
    match cli_id {
        Some(c) => (c, true),
        None => match stored {
            Some(s) => (s, false),
            None => (crate::ids::new_host_id(), true),
        },
    }
}

/// Once an id is chosen and saved as asked, every later start without a
/// command-line id gets the same id and saves nothing: a generated id is
/// kept, and an id given on the command line overrides the saved one for
/// good. A generated id is never empty.
pub proof fn lemma_host_id_persists(
    cli: Option<Seq<char>>,
    stored: Option<Seq<char>>,
    id: Seq<char>,
    save: bool,
    id2: Seq<char>,
    save2: bool,
)
    requires
        host_id_choice(cli, stored, id, save),
        host_id_choice(None, stored_after(stored, id, save), id2, save2),
    ensures
        id2 == id,
        !save2,
        cli matches Some(c) ==> id == c,
        cli is None && stored is None ==> id.len() == 8,
{
}

/// The engines a host offers, from which of their tools it has: QEMU,
/// Firecracker, bhyve, jails, then Docker or Podman.
pub fn detected_engines(qemu: bool, firecracker: bool, bhyve: bool, jail: bool, container: bool) -> (v:
    Vec<Engine>)
    ensures
        v@ == Seq::<Engine>::empty() + (if qemu {
            seq![Engine::Qemu]
        } else {
            Seq::<Engine>::empty()
        }) + (if firecracker {
            seq![Engine::Firecracker]
        } else {
            Seq::<Engine>::empty()
        }) + (if bhyve {
            seq![Engine::Bhyve]
        } else {
            Seq::<Engine>::empty()
        }) + (if jail {
            seq![Engine::Jail]
        } else {
            Seq::<Engine>::empty()
        }) + (if container {
            seq![Engine::Docker]
        } else {
            Seq::<Engine>::empty()
        }),
{
    let mut v: Vec<Engine> = Vec::new();
    let ghost e = Seq::<Engine>::empty();
    if qemu {
        v.push(Engine::Qemu);
    }
    assert(v@ =~= e + (if qemu { seq![Engine::Qemu] } else { e }));
    let ghost a = v@;
    if firecracker {
        v.push(Engine::Firecracker);
    }
    assert(v@ =~= a + (if firecracker { seq![Engine::Firecracker] } else { e }));
    let ghost b = v@;
    if bhyve {
        v.push(Engine::Bhyve);
    }
    assert(v@ =~= b + (if bhyve { seq![Engine::Bhyve] } else { e }));
    let ghost c = v@;
    if jail {
        v.push(Engine::Jail);
    }
    assert(v@ =~= c + (if jail { seq![Engine::Jail] } else { e }));
    let ghost d = v@;
    if container {
        v.push(Engine::Docker);
    }
    assert(v@ =~= d + (if container { seq![Engine::Docker] } else { e }));
    v
}

// ── VM records and paths ────────────────────────────────────────────

/// Whether the host manages a VM's image clone, TAP device and firewall
/// rules: every engine but Docker, which manages its own.
pub fn host_managed(engine: Engine) -> (r: bool)
    ensures
        r == (engine != Engine::Docker),
{
    match engine {
        Engine::Docker => false,
        _ => true,
    }
}

/// The path of a VM's image clone under the runtime directory.
pub fn clone_path(runtime_dir: &str, vm_id: &str) -> (s: String)
    ensures
        s@ == runtime_dir@ + "/clone-"@ + vm_id@,
{
    String::from_str(runtime_dir).concat("/clone-").concat(vm_id)
}

/// The path of a base image under the image directory.
pub fn base_image_path(image_dir: &str, image: &str) -> (s: String)
    ensures
        s@ == image_dir@ + "/"@ + image@,
{
    String::from_str(image_dir).concat("/").concat(image)
}

/// Marks `vm` as running once its engine instance is up; every other field
/// of the record stays as it was.
pub fn mark_running(vm: &mut Vm)
    ensures
        *final(vm) == (Vm { state: VmState::Running, ..*old(vm) }),
{
    vm.state = VmState::Running;
}

/// The record of a VM being created from `req` on this host, with its
/// address and port map; it starts in the `Creating` state.
pub fn new_vm_record(
    req: &CreateVmReq,
    host_id: &str,
    ip: String,
    port_map: BTreeMap<u16, u16>,
    now: u64,
) -> (vm: Vm)
    ensures
        vm.id@ == req.vm_id@,
        vm.env_id@ == req.env_id@,
        vm.host_id@ == host_id@,
        vm.image@ == req.image@,
        vm.engine == req.engine,
        vm.cpu == req.cpu,
        vm.mem == req.mem,
        vm.disk == req.disk,
        vm.ip == ip,
        vm.port_map == port_map,
        vm.state == VmState::Creating,
        vm.created_at == now,
{
    Vm {
        id: req.vm_id.clone(),
        env_id: req.env_id.clone(),
        host_id: String::from_str(host_id),
        image: req.image.clone(),
        engine: req.engine,
        cpu: req.cpu,
        mem: req.mem,
        disk: req.disk,
        ip,
        port_map,
        state: VmState::Creating,
        created_at: now,
    }
}

} // verus!
