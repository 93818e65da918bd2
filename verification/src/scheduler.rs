//! VM placement scheduler.
//!
//! Decides which host should run each VM based on available resources,
//! supported engines, and a simple best-fit strategy.

use vstd::prelude::*;
use vstd::string::StringExecFns;
use crate::api::VmSpec;
use crate::model::{engine_name, fits, sat_sub, Engine, Host, HostState, Resource};
use crate::num::{dec, u32_to_dec};

verus! {

/// Result of scheduling: the chosen host.
pub struct Placement {
    pub host_id: String,
    pub host_addr: String,
}

/// Whether host `h`, with resources `r`, can take the VM `s`.
pub open spec fn candidate(h: Host, r: Resource, s: VmSpec) -> bool {
    &&& h.state == HostState::Online
    &&& h.engines@.contains(s.engine)
    &&& fits(r, s.spec_cpu(), s.spec_mem(), s.spec_disk())
}

/// Free memory of a resource snapshot.
pub open spec fn mem_free(r: Resource) -> u32 {
    sat_sub(r.mem_total, r.mem_used)
}

/// Host `i` is the best fit for `s`: a candidate with the least free
/// memory, and the first such one.
pub open spec fn is_best_fit(hosts: Seq<Host>, res: Seq<Resource>, s: VmSpec, i: int) -> bool {
    &&& 0 <= i < hosts.len()
    &&& candidate(hosts[i], res[i], s)
    &&& forall|j: int|
        0 <= j < hosts.len() && #[trigger] candidate(hosts[j], res[j], s) ==> mem_free(res[i])
            <= mem_free(res[j]) && (j < i ==> mem_free(res[i]) < mem_free(res[j]))
}

/// Whether some host can take `s`.
pub open spec fn has_candidate(hosts: Seq<Host>, res: Seq<Resource>, s: VmSpec) -> bool {
    exists|j: int| 0 <= j < hosts.len() && #[trigger] candidate(hosts[j], res[j], s)
}

/// The best-fit host for `s`, if any host can take it.
pub open spec fn best_fit(hosts: Seq<Host>, res: Seq<Resource>, s: VmSpec) -> Option<int> {
    if has_candidate(hosts, res, s) {
        Some(choose|i: int| is_best_fit(hosts, res, s, i))
    } else {
        None
    }
}

/// The resources each host reports.
pub open spec fn resources_of(hosts: Seq<Host>) -> Seq<Resource> {
    hosts.map_values(|h: Host| h.resource)
}

/// The message of a placement that finds no host.
pub open spec fn no_host_msg(s: VmSpec) -> Seq<char> {
    "no host available for engine="@ + engine_name(s.engine) + ", cpu="@ + dec(s.spec_cpu() as nat)
        + ", mem="@ + dec(s.spec_mem() as nat) + "MB, disk="@ + dec(s.spec_disk() as nat)
        + "MB"@
}

/// At most one host is the best fit.
pub proof fn lemma_best_fit_unique(hosts: Seq<Host>, res: Seq<Resource>, s: VmSpec, i: int, k: int)
    requires
        is_best_fit(hosts, res, s, i),
        is_best_fit(hosts, res, s, k),
    ensures
        i == k,
{
    assert(candidate(hosts[k], res[k], s));
    assert(candidate(hosts[i], res[i], s));
}

/// Whether `engines` lists `e`.
fn engines_contain(engines: &Vec<Engine>, e: Engine) -> (r: bool)
    ensures
        r == engines@.contains(e),
{
    let mut i: usize = 0;
    while i < engines.len()
        invariant
            i <= engines@.len(),
            forall|k: int| 0 <= k < i ==> engines@[k] != e,
        decreases engines@.len() - i,
    {
        if engines[i] == e {
            assert(engines@[i as int] == e);
            return true;
        }
        i = i + 1;
    }
    false
}

/// The best-fit host index, reading host resources from `res`.
fn best_fit_index(hosts: &[Host], res: &[Resource], s: &VmSpec) -> (r: Option<usize>)
    requires
        hosts@.len() == res@.len(),
    ensures
        match r {
            Some(i) => best_fit(hosts@, res@, *s) == Some(i as int) && is_best_fit(
                hosts@,
                res@,
                *s,
                i as int,
            ),
            None => best_fit(hosts@, res@, *s) is None,
        },
{
    let cpu = s.cpu_or_default();
    let mem = s.mem_or_default();
    let disk = s.disk_or_default();
    let mut best: Option<usize> = None;
    let mut i: usize = 0;
    while i < hosts.len()
        invariant
            hosts@.len() == res@.len(),
            i <= hosts@.len(),
            cpu == s.spec_cpu(),
            mem == s.spec_mem(),
            disk == s.spec_disk(),
            match best {
                Some(b) => b < i && candidate(hosts@[b as int], res@[b as int], *s) && forall|j: int|
                    0 <= j < i && #[trigger] candidate(hosts@[j], res@[j], *s) ==> mem_free(
                        res@[b as int],
                    ) <= mem_free(res@[j]) && (j < b ==> mem_free(res@[b as int]) < mem_free(
                        res@[j],
                    )),
                None => forall|j: int| 0 <= j < i ==> !#[trigger] candidate(hosts@[j], res@[j], *s),
            },
        decreases hosts@.len() - i,
    {
        let h = &hosts[i];
        let r = res[i];
        let ok = h.state == HostState::Online && engines_contain(&h.engines, s.engine)
            && r.can_fit(cpu, mem, disk);
        if ok {
            let mf = r.mem_free();
            match best {
                Some(b) => {
                    if mf < res[b].mem_free() {
                        best = Some(i);
                    }
                },
                None => {
                    best = Some(i);
                },
            }
        }
        i = i + 1;
    }
    match best {
        Some(b) => {
            assert(is_best_fit(hosts@, res@, *s, b as int));
            assert(has_candidate(hosts@, res@, *s));
            let ghost c = choose|k: int| is_best_fit(hosts@, res@, *s, k);
            proof {
                lemma_best_fit_unique(hosts@, res@, *s, b as int, c);
            }
            Some(b)
        },
        None => None,
    }
}

/// Choose the best host for a VM spec using a best-fit strategy.
///
/// Prefers the host with the least free memory that can still
/// accommodate the VM, to pack hosts densely and leave larger hosts
/// available for bigger workloads.
pub fn place_vm(hosts: &[Host], spec: &VmSpec) -> (r: Result<Placement, String>)
    ensures
        match r {
            Ok(p) => exists|i: int|
                #![trigger hosts@[i]]
                best_fit(hosts@, resources_of(hosts@), *spec) == Some(i) && p.host_id@
                    == hosts@[i].id@ && p.host_addr@ == hosts@[i].addr@,
            Err(msg) => best_fit(hosts@, resources_of(hosts@), *spec) is None && msg@
                == no_host_msg(*spec),
        },
{
    let res = host_resources(hosts);
    match best_fit_index(hosts, &res, spec) {
        Some(i) => {
            let h = &hosts[i];
            Ok(Placement { host_id: h.id.clone(), host_addr: h.addr.clone() })
        },
        None => Err(no_host_message(spec)),
    }
}

/// The resources each host reports, in host order.
fn host_resources(hosts: &[Host]) -> (r: Vec<Resource>)
    ensures
        r@ == resources_of(hosts@),
{
    let mut r: Vec<Resource> = Vec::new();
    let mut i: usize = 0;
    while i < hosts.len()
        invariant
            i <= hosts@.len(),
            r@ == resources_of(hosts@).subrange(0, i as int),
        decreases hosts@.len() - i,
    {
        r.push(hosts[i].resource);
        i = i + 1;
        assert(r@ =~= resources_of(hosts@).subrange(0, i as int));
    }
    assert(r@ =~= resources_of(hosts@));
    r
}

fn no_host_message(s: &VmSpec) -> (m: String)
    ensures
        m@ == no_host_msg(*s),
{
    let e = s.engine.to_string();
    let cpu = u32_to_dec(s.cpu_or_default());
    let mem = u32_to_dec(s.mem_or_default());
    let disk = u32_to_dec(s.disk_or_default());
    let m = String::from_str("no host available for engine=").concat(e.as_str()).concat(
        ", cpu=",
    ).concat(cpu.as_str()).concat(", mem=").concat(mem.as_str()).concat("MB, disk=").concat(
        disk.as_str(),
    ).concat("MB");
    m
}

// ── Scheduling a whole environment ──────────────────────────────────

/// `k` is the first host whose id is `id`.
pub open spec fn is_first_with_id(hosts: Seq<Host>, id: Seq<char>, k: int) -> bool {
    &&& 0 <= k < hosts.len()
    &&& hosts[k].id@ == id
    &&& forall|j: int| 0 <= j < k ==> #[trigger] hosts[j].id@ != id
}

/// A resource snapshot after a VM of spec `s` is placed on it.
pub open spec fn add_usage(r: Resource, s: VmSpec) -> Resource {
    Resource {
        cpu_used: (r.cpu_used + s.spec_cpu()) as u32,
        mem_used: (r.mem_used + s.spec_mem()) as u32,
        disk_used: (r.disk_used + s.spec_disk()) as u32,
        vm_count: (r.vm_count + 1) as u32,
        ..r
    }
}

/// Placing a VM of spec `s` keeps every counter of `r` within `u32`.
pub open spec fn usage_fits(r: Resource, s: VmSpec) -> bool {
    &&& r.cpu_used + s.spec_cpu() <= u32::MAX
    &&& r.mem_used + s.spec_mem() <= u32::MAX
    &&& r.disk_used + s.spec_disk() <= u32::MAX
    &&& r.vm_count + 1 <= u32::MAX
}

/// The resources after charging `s` to the first host with id `id`.
pub open spec fn charge(hosts: Seq<Host>, res: Seq<Resource>, id: Seq<char>, s: VmSpec) -> Seq<
    Resource,
> {
    if exists|k: int| is_first_with_id(hosts, id, k) {
        let k = choose|k: int| is_first_with_id(hosts, id, k);
        res.update(k, add_usage(res[k], s))
    } else {
        res
    }
}

/// Charging `s` to the first host with id `id` stays within `u32`.
pub open spec fn charge_fits(hosts: Seq<Host>, res: Seq<Resource>, id: Seq<char>, s: VmSpec) -> bool {
    forall|k: int| is_first_with_id(hosts, id, k) ==> usage_fits(res[k], s)
}

/// Placing `specs` one after another, each on the best fit of what the
/// previous ones left: the chosen host indices, or the index of the first
/// spec that finds no host.
pub open spec fn schedule(hosts: Seq<Host>, res: Seq<Resource>, specs: Seq<VmSpec>) -> Result<
    Seq<int>,
    int,
>
    decreases specs.len(),
{
    if specs.len() == 0 {
        Ok(Seq::<int>::empty())
    } else {
        match best_fit(hosts, res, specs[0]) {
            None => Err(0),
            Some(i) => match schedule(
                hosts,
                charge(hosts, res, hosts[i].id@, specs[0]),
                specs.drop_first(),
            ) {
                Ok(rest) => Ok(seq![i] + rest),
                Err(k) => Err(k + 1),
            },
        }
    }
}

/// Every charge made while scheduling `specs` stays within `u32`.
pub open spec fn schedule_fits(hosts: Seq<Host>, res: Seq<Resource>, specs: Seq<VmSpec>) -> bool
    decreases specs.len(),
{
    if specs.len() == 0 {
        true
    } else {
        match best_fit(hosts, res, specs[0]) {
            None => true,
            Some(i) => charge_fits(hosts, res, hosts[i].id@, specs[0]) && schedule_fits(
                hosts,
                charge(hosts, res, hosts[i].id@, specs[0]),
                specs.drop_first(),
            ),
        }
    }
}

/// Two VM specs ask for the same VM.
pub open spec fn same_spec(a: VmSpec, b: VmSpec) -> bool {
    &&& a.image@ == b.image@
    &&& a.engine == b.engine
    &&& a.cpu == b.cpu
    &&& a.mem == b.mem
    &&& a.disk == b.disk
    &&& a.ports@ == b.ports@
    &&& a.deny_outgoing == b.deny_outgoing
}

spec fn combine(prefix: Seq<int>, k: int, r: Result<Seq<int>, int>) -> Result<Seq<int>, int> {
    match r {
        Ok(rest) => Ok(prefix + rest),
        Err(j) => Err(k + j),
    }
}

proof fn lemma_first_unique(hosts: Seq<Host>, id: Seq<char>, a: int, b: int)
    requires
        is_first_with_id(hosts, id, a),
        is_first_with_id(hosts, id, b),
    ensures
        a == b,
{
    if a < b {
        assert(hosts[a].id@ != id);
    }
    if b < a {
        assert(hosts[b].id@ != id);
    }
}

/// What scheduling an environment's VMs gives: the placements, or the
/// message for the first VM that no host can take.
pub open spec fn schedule_outcome(
    hosts: Seq<Host>,
    specs: Seq<VmSpec>,
    r: Result<Vec<(VmSpec, Placement)>, String>,
) -> bool {
    match r {
        Ok(v) => schedule(hosts, resources_of(hosts), specs) matches Ok(idx) && v@.len()
            == specs.len() && idx.len() == specs.len() && forall|k: int|
            0 <= k < v@.len() ==> 0 <= idx[k] < hosts.len() && same_spec(
                #[trigger] v@[k].0,
                specs[k],
            ) && v@[k].1.host_id@ == hosts[idx[k]].id@ && v@[k].1.host_addr@
                == hosts[idx[k]].addr@,
        Err(msg) => schedule(hosts, resources_of(hosts), specs) matches Err(k) && 0 <= k
            < specs.len() && msg@ == no_host_msg(specs[k]),
    }
}

/// Schedule an entire environment's VMs across the fleet.
///
/// Returns a list of (VmSpec, Placement) pairs.
pub fn schedule_env(hosts: &[Host], specs: &[VmSpec]) -> (r: Result<Vec<(VmSpec, Placement)>, String>)
    requires
        schedule_fits(hosts@, resources_of(hosts@), specs@),
    ensures
        schedule_outcome(hosts@, specs@, r),
{
    match schedule_env_checked(hosts, specs) {
        Some(r) => r,
        None => {
            proof {
                assert(false);
            }
            Err(String::new())
        },
    }
}

/// Schedule an environment's VMs, or `None` when a host's usage counters
/// would leave `u32` on the way (`schedule_env` requires that they do
/// not).
pub fn schedule_env_checked(hosts: &[Host], specs: &[VmSpec]) -> (r: Option<
    Result<Vec<(VmSpec, Placement)>, String>,
>)
    ensures
        match r {
            None => !schedule_fits(hosts@, resources_of(hosts@), specs@),
            Some(x) => schedule_fits(hosts@, resources_of(hosts@), specs@) && schedule_outcome(
                hosts@,
                specs@,
                x,
            ),
        },
{
    let mut shadow = host_resources(hosts);
    let ghost res0 = shadow@;
    let mut result: Vec<(VmSpec, Placement)> = Vec::new();
    let ghost mut idx: Seq<int> = Seq::empty();
    let mut k: usize = 0;
    proof {
        assert(specs@.skip(0) =~= specs@);
        assert(Seq::<int>::empty() + Seq::<int>::empty() =~= Seq::<int>::empty());
        match schedule(hosts@, res0, specs@) {
            Ok(rest) => {
                assert(Seq::<int>::empty() + rest =~= rest);
            },
            Err(_) => {},
        }
    }
    while k < specs.len()
        invariant
            res0 == resources_of(hosts@),
            shadow@.len() == hosts@.len(),
            k <= specs@.len(),
            result@.len() == k,
            idx.len() == k,
            schedule(hosts@, res0, specs@) == combine(
                idx,
                k as int,
                schedule(hosts@, shadow@, specs@.skip(k as int)),
            ),
            schedule_fits(hosts@, res0, specs@) == schedule_fits(
                hosts@,
                shadow@,
                specs@.skip(k as int),
            ),
            forall|j: int|
                0 <= j < k ==> 0 <= #[trigger] idx[j] < hosts@.len() && same_spec(
                    result@[j].0,
                    specs@[j],
                ) && result@[j].1.host_id@ == hosts@[idx[j]].id@ && result@[j].1.host_addr@
                    == hosts@[idx[j]].addr@,
        decreases specs@.len() - k,
    {
        let spec = &specs[k];
        let ghost rest_specs = specs@.skip(k as int);
        assert(rest_specs[0] == specs@[k as int]);
        assert(rest_specs.drop_first() =~= specs@.skip(k as int + 1));
        match best_fit_index(hosts, &shadow, spec) {
            None => {
                let msg = no_host_message(spec);
                return Some(Err(msg));
            },
            Some(i) => {
                let host_id = hosts[i].id.clone();
                let host_addr = hosts[i].addr.clone();
                // charge the first host carrying the chosen id
                let mut j: usize = 0;
                let mut found: Option<usize> = None;
                while j < hosts.len()
                    invariant
                        j <= hosts@.len(),
                        i < hosts@.len(),
                        host_id@ == hosts@[i as int].id@,
                        match found {
                            Some(f) => is_first_with_id(hosts@, host_id@, f as int),
                            None => forall|m: int| 0 <= m < j ==> #[trigger] hosts@[m].id@
                                != host_id@,
                        },
                    decreases hosts@.len() - j,
                {
                    if found.is_none() && hosts[j].id == host_id {
                        found = Some(j);
                    }
                    j = j + 1;
                }
                let ghost old_shadow = shadow@;
                match found {
                    Some(f) => {
                        proof {
                            let c = choose|m: int| is_first_with_id(hosts@, host_id@, m);
                            lemma_first_unique(hosts@, host_id@, f as int, c);
                        }
                        let mut r = shadow[f];
                        let c = spec.cpu_or_default();
                        let m = spec.mem_or_default();
                        let d = spec.disk_or_default();
                        if r.cpu_used as u64 + c as u64 > 0xffff_ffff || r.mem_used as u64
                            + m as u64 > 0xffff_ffff || r.disk_used as u64 + d as u64
                            > 0xffff_ffff || r.vm_count == 0xffff_ffff {
                            proof {
                                assert(!usage_fits(old_shadow[f as int], *spec));
                                assert(!charge_fits(hosts@, old_shadow, host_id@, *spec));
                            }
                            return None;
                        }
                        r.cpu_used = r.cpu_used + spec.cpu_or_default();
                        r.mem_used = r.mem_used + spec.mem_or_default();
                        r.disk_used = r.disk_used + spec.disk_or_default();
                        r.vm_count = r.vm_count + 1;
                        shadow.set(f, r);
                        assert(shadow@ =~= charge(hosts@, old_shadow, host_id@, *spec));
                    },
                    None => {
                        assert(!is_first_with_id(hosts@, host_id@, i as int));
                        assert(false);
                    },
                }
                let ghost next_idx = idx.push(i as int);
                proof {
                    match schedule(hosts@, shadow@, specs@.skip(k as int + 1)) {
                        Ok(rest) => {
                            assert(seq![i as int] + rest =~= Seq::<int>::empty().push(i as int)
                                + rest);
                            assert(idx + (seq![i as int] + rest) =~= next_idx + rest);
                        },
                        Err(_) => {},
                    }
                    idx = next_idx;
                }
                result.push((spec.copy(), Placement { host_id, host_addr }));
                k = k + 1;
            },
        }
    }
    proof {
        assert(specs@.skip(k as int) =~= Seq::<VmSpec>::empty());
        assert(idx + Seq::<int>::empty() =~= idx);
    }
    Some(Ok(result))
}

// ── Laws ────────────────────────────────────────────────────────────

spec fn best_in_prefix(hosts: Seq<Host>, res: Seq<Resource>, s: VmSpec, n: int, i: int) -> bool {
    &&& 0 <= i < n
    &&& candidate(hosts[i], res[i], s)
    &&& forall|j: int|
        0 <= j < n && #[trigger] candidate(hosts[j], res[j], s) ==> mem_free(res[i])
            <= mem_free(res[j]) && (j < i ==> mem_free(res[i]) < mem_free(res[j]))
}

proof fn lemma_best_in_prefix(hosts: Seq<Host>, res: Seq<Resource>, s: VmSpec, n: int, c: int)
    requires
        0 <= c < n <= hosts.len(),
        candidate(hosts[c], res[c], s),
    ensures
        exists|i: int| #[trigger] best_in_prefix(hosts, res, s, n, i),
    decreases n,
{
    if n - 1 == c && !(exists|k: int| 0 <= k < c && candidate(hosts[k], res[k], s)) {
        assert(best_in_prefix(hosts, res, s, n, c));
    } else {
        let c2 = if n - 1 == c {
            choose|k: int| 0 <= k < c && candidate(hosts[k], res[k], s)
        } else {
            c
        };
        lemma_best_in_prefix(hosts, res, s, n - 1, c2);
        let b = choose|i: int| #[trigger] best_in_prefix(hosts, res, s, n - 1, i);
        let last = n - 1;
        if candidate(hosts[last], res[last], s) && mem_free(res[last]) < mem_free(res[b]) {
            assert(best_in_prefix(hosts, res, s, n, last));
        } else {
            assert(best_in_prefix(hosts, res, s, n, b));
        }
    }
}

/// When some host can take `s`, the best fit is a host that can take it
/// and has no more free memory than any other such host.
pub proof fn lemma_best_fit_sound(hosts: Seq<Host>, res: Seq<Resource>, s: VmSpec)
    requires
        res.len() == hosts.len(),
    ensures
        best_fit(hosts, res, s) is Some <==> has_candidate(hosts, res, s),
        best_fit(hosts, res, s) matches Some(i) ==> is_best_fit(hosts, res, s, i),
{
    if has_candidate(hosts, res, s) {
        let c = choose|j: int| 0 <= j < hosts.len() && #[trigger] candidate(hosts[j], res[j], s);
        lemma_best_in_prefix(hosts, res, s, hosts.len() as int, c);
        let b = choose|i: int| #[trigger] best_in_prefix(hosts, res, s, hosts.len() as int, i);
        assert(is_best_fit(hosts, res, s, b));
    }
}

/// Best fit, spelled out: the chosen host is online, runs the VM's engine
/// and has room for its CPU, memory and disk (`used + asked <= total`, or
/// nothing asked); among all such hosts it has the least free memory
/// (`total - used`), and no earlier such host has as little. When no host
/// is such a host, there is no best fit.
pub proof fn lemma_best_fit_least_free_memory(hosts: Seq<Host>, res: Seq<Resource>, s: VmSpec)
    requires
        res.len() == hosts.len(),
    ensures
        best_fit(hosts, res, s) matches Some(i) ==> {
            &&& 0 <= i < hosts.len()
            &&& hosts[i].state == HostState::Online
            &&& hosts[i].engines@.contains(s.engine)
            &&& s.spec_cpu() == 0 || res[i].cpu_used + s.spec_cpu() <= res[i].cpu_total
            &&& s.spec_mem() == 0 || res[i].mem_used + s.spec_mem() <= res[i].mem_total
            &&& s.spec_disk() == 0 || res[i].disk_used + s.spec_disk() <= res[i].disk_total
            &&& forall|j: int|
                0 <= j < hosts.len() && #[trigger] hosts[j].state == HostState::Online
                    && hosts[j].engines@.contains(s.engine) && (s.spec_cpu() == 0
                    || res[j].cpu_used + s.spec_cpu() <= res[j].cpu_total) && (s.spec_mem() == 0
                    || res[j].mem_used + s.spec_mem() <= res[j].mem_total) && (s.spec_disk() == 0
                    || res[j].disk_used + s.spec_disk() <= res[j].disk_total) ==> res[i].mem_total
                    - res[i].mem_used <= (if res[j].mem_used <= res[j].mem_total {
                    res[j].mem_total - res[j].mem_used
                } else {
                    0
                }) && (j < i ==> res[i].mem_total - res[i].mem_used < res[j].mem_total
                    - res[j].mem_used)
        },
        best_fit(hosts, res, s) is None ==> forall|j: int|
            0 <= j < hosts.len() && #[trigger] hosts[j].state == HostState::Online
                && hosts[j].engines@.contains(s.engine) ==> !((s.spec_cpu() == 0
                || res[j].cpu_used + s.spec_cpu() <= res[j].cpu_total) && (s.spec_mem() == 0
                || res[j].mem_used + s.spec_mem() <= res[j].mem_total) && (s.spec_disk() == 0
                || res[j].disk_used + s.spec_disk() <= res[j].disk_total)),
{
    lemma_best_fit_sound(hosts, res, s);
    match best_fit(hosts, res, s) {
        Some(i) => {
            assert forall|j: int|
                0 <= j < hosts.len() && #[trigger] hosts[j].state == HostState::Online
                    && hosts[j].engines@.contains(s.engine) && (s.spec_cpu() == 0
                    || res[j].cpu_used + s.spec_cpu() <= res[j].cpu_total) && (s.spec_mem() == 0
                    || res[j].mem_used + s.spec_mem() <= res[j].mem_total) && (s.spec_disk() == 0
                    || res[j].disk_used + s.spec_disk() <= res[j].disk_total) implies res[i].mem_total
                    - res[i].mem_used <= (if res[j].mem_used <= res[j].mem_total {
                    res[j].mem_total - res[j].mem_used
                } else {
                    0
                }) && (j < i ==> res[i].mem_total - res[i].mem_used < res[j].mem_total
                    - res[j].mem_used) by {
                assert(candidate(hosts[j], res[j], s));
            }
        },
        None => {
            assert forall|j: int|
                0 <= j < hosts.len() && #[trigger] hosts[j].state == HostState::Online
                    && hosts[j].engines@.contains(s.engine) implies !((s.spec_cpu() == 0
                || res[j].cpu_used + s.spec_cpu() <= res[j].cpu_total) && (s.spec_mem() == 0
                || res[j].mem_used + s.spec_mem() <= res[j].mem_total) && (s.spec_disk() == 0
                || res[j].disk_used + s.spec_disk() <= res[j].disk_total)) by {
                if (s.spec_cpu() == 0 || res[j].cpu_used + s.spec_cpu() <= res[j].cpu_total) && (
                s.spec_mem() == 0 || res[j].mem_used + s.spec_mem() <= res[j].mem_total) && (
                s.spec_disk() == 0 || res[j].disk_used + s.spec_disk() <= res[j].disk_total) {
                    assert(candidate(hosts[j], res[j], s));
                }
            }
        },
    }
}

proof fn lemma_charge_len(hosts: Seq<Host>, res: Seq<Resource>, id: Seq<char>, s: VmSpec)
    requires
        res.len() == hosts.len(),
    ensures
        charge(hosts, res, id, s).len() == res.len(),
{
}

/// Every VM of a scheduled environment lands on an online host that runs
/// its engine, and a schedule places exactly one host per spec.
pub proof fn lemma_schedule_lands_on_capable_hosts(
    hosts: Seq<Host>,
    res: Seq<Resource>,
    specs: Seq<VmSpec>,
)
    requires
        res.len() == hosts.len(),
    ensures
        schedule(hosts, res, specs) matches Ok(idx) ==> {
            &&& idx.len() == specs.len()
            &&& forall|k: int|
                0 <= k < idx.len() ==> 0 <= #[trigger] idx[k] < hosts.len()
                    && hosts[idx[k]].state == HostState::Online && hosts[idx[k]].engines@.contains(
                    specs[k].engine,
                )
        },
        schedule(hosts, res, specs) matches Err(k) ==> 0 <= k < specs.len(),
    decreases specs.len(),
{
    if specs.len() > 0 {
        lemma_best_fit_sound(hosts, res, specs[0]);
        match best_fit(hosts, res, specs[0]) {
            None => {},
            Some(i) => {
                let r2 = charge(hosts, res, hosts[i].id@, specs[0]);
                lemma_charge_len(hosts, res, hosts[i].id@, specs[0]);
                lemma_schedule_lands_on_capable_hosts(hosts, r2, specs.drop_first());
                match schedule(hosts, r2, specs.drop_first()) {
                    Ok(rest) => {
                        let idx = seq![i] + rest;
                        assert forall|k: int| 0 <= k < idx.len() implies 0 <= #[trigger] idx[k]
                            < hosts.len() && hosts[idx[k]].state == HostState::Online
                            && hosts[idx[k]].engines@.contains(specs[k].engine) by {
                            if k > 0 {
                                assert(idx[k] == rest[k - 1]);
                                assert(specs.drop_first()[k - 1] == specs[k]);
                            }
                        }
                    },
                    Err(_) => {},
                }
            },
        }
    }
}

/// Scheduling no VMs always succeeds with no placements.
pub proof fn lemma_schedule_empty(hosts: Seq<Host>, res: Seq<Resource>)
    ensures
        schedule(hosts, res, Seq::<VmSpec>::empty()) == Ok::<Seq<int>, int>(Seq::<int>::empty()),
{
}

/// Scheduling a single VM places it exactly where `place_vm` would.
pub proof fn lemma_schedule_single(hosts: Seq<Host>, res: Seq<Resource>, s: VmSpec)
    ensures
        schedule(hosts, res, seq![s]) == match best_fit(hosts, res, s) {
            Some(i) => Ok::<Seq<int>, int>(seq![i]),
            None => Err(0),
        },
{
    assert(seq![s].drop_first() =~= Seq::<VmSpec>::empty());
    match best_fit(hosts, res, s) {
        Some(i) => {
            let r2 = charge(hosts, res, hosts[i].id@, s);
            assert(schedule(hosts, r2, seq![s].drop_first()) == Ok::<Seq<int>, int>(
                Seq::<int>::empty(),
            ));
            assert(seq![i] + Seq::<int>::empty() =~= seq![i]);
        },
        None => {},
    }
}

/// Every host uses no more CPU, memory and disk than it has.
pub open spec fn all_within(res: Seq<Resource>) -> bool {
    forall|k: int|
        0 <= k < res.len() ==> #[trigger] res[k].cpu_used <= res[k].cpu_total && res[k].mem_used
            <= res[k].mem_total && res[k].disk_used <= res[k].disk_total
}

/// No two hosts share an id.
pub open spec fn ids_distinct(hosts: Seq<Host>) -> bool {
    forall|a: int, b: int|
        0 <= a < b < hosts.len() ==> #[trigger] hosts[a].id@ != #[trigger] hosts[b].id@
}

/// The hosts' resources once every VM that `schedule` places is charged.
pub open spec fn schedule_charged(hosts: Seq<Host>, res: Seq<Resource>, specs: Seq<VmSpec>) -> Seq<
    Resource,
>
    decreases specs.len(),
{
    if specs.len() == 0 {
        res
    } else {
        match best_fit(hosts, res, specs[0]) {
            None => res,
            Some(i) => schedule_charged(
                hosts,
                charge(hosts, res, hosts[i].id@, specs[0]),
                specs.drop_first(),
            ),
        }
    }
}

/// What `after` uses of each of CPU, memory and disk grew from `before` by
/// at most what `before` had free, with the totals unchanged.
pub open spec fn grew_within(before: Resource, after: Resource) -> bool {
    &&& after.cpu_total == before.cpu_total
    &&& after.mem_total == before.mem_total
    &&& after.disk_total == before.disk_total
    &&& before.cpu_used <= after.cpu_used
    &&& after.cpu_used - before.cpu_used <= sat_sub(before.cpu_total, before.cpu_used)
    &&& before.mem_used <= after.mem_used
    &&& after.mem_used - before.mem_used <= sat_sub(before.mem_total, before.mem_used)
    &&& before.disk_used <= after.disk_used
    &&& after.disk_used - before.disk_used <= sat_sub(before.disk_total, before.disk_used)
}

/// Host by host, `after` grew from `before` within what each host had free.
pub open spec fn placed_within_free(before: Seq<Resource>, after: Seq<Resource>) -> bool {
    &&& after.len() == before.len()
    &&& forall|k: int| 0 <= k < before.len() ==> #[trigger] grew_within(before[k], after[k])
}

proof fn lemma_schedule_grows_within(
    hosts: Seq<Host>,
    res0: Seq<Resource>,
    res: Seq<Resource>,
    specs: Seq<VmSpec>,
)
    requires
        res.len() == hosts.len(),
        ids_distinct(hosts),
        placed_within_free(res0, res),
    ensures
        placed_within_free(res0, schedule_charged(hosts, res, specs)),
    decreases specs.len(),
{
    if specs.len() > 0 {
        let s = specs[0];
        lemma_best_fit_sound(hosts, res, s);
        match best_fit(hosts, res, s) {
            None => {},
            Some(i) => {
                let id = hosts[i].id@;
                assert(is_first_with_id(hosts, id, i)) by {
                    assert forall|j: int| 0 <= j < i implies #[trigger] hosts[j].id@ != id by {
                        assert(hosts[j].id@ != hosts[i].id@);
                    }
                }
                let k = choose|k: int| is_first_with_id(hosts, id, k);
                lemma_first_unique(hosts, id, k, i);
                let r2 = charge(hosts, res, id, s);
                assert(r2 == res.update(i, add_usage(res[i], s)));
                assert(candidate(hosts[i], res[i], s));
                assert(grew_within(res0[i], res[i]));
                assert forall|q: int| 0 <= q < res0.len() implies #[trigger] grew_within(
                    res0[q],
                    r2[q],
                ) by {
                    if q != i {
                        assert(r2[q] == res[q]);
                        assert(grew_within(res0[q], res[q]));
                    }
                }
                lemma_schedule_grows_within(hosts, res0, r2, specs.drop_first());
            },
        }
    }
}

/// Placement never gives a host more than it had free: when the hosts' ids
/// are distinct, the CPU, memory and disk that the VMs `schedule` places on
/// each host add to its use are at most what that host had free before, and
/// no total changes. An over-committed host has nothing free, so it takes
/// only VMs that ask for none of these.
pub proof fn lemma_schedule_fits_free(hosts: Seq<Host>, res: Seq<Resource>, specs: Seq<VmSpec>)
    requires
        res.len() == hosts.len(),
        ids_distinct(hosts),
    ensures
        placed_within_free(res, schedule_charged(hosts, res, specs)),
{
    assert forall|q: int| 0 <= q < res.len() implies #[trigger] grew_within(res[q], res[q]) by {}
    lemma_schedule_grows_within(hosts, res, res, specs);
}

/// The CPU, memory and disk that the specs placed on host `k` ask for, in
/// total, when spec `j` goes to host `idx[j]`.
pub open spec fn placed_on(specs: Seq<VmSpec>, idx: Seq<int>, k: int) -> (int, int, int)
    decreases specs.len(),
{
    if specs.len() == 0 || idx.len() == 0 {
        (0, 0, 0)
    } else {
        let rest = placed_on(specs.drop_first(), idx.drop_first(), k);
        if idx[0] == k {
            (
                rest.0 + specs[0].spec_cpu(),
                rest.1 + specs[0].spec_mem(),
                rest.2 + specs[0].spec_disk(),
            )
        } else {
            rest
        }
    }
}

/// A schedule never asks a host for more than it has: when the hosts' ids
/// are distinct and `schedule` places `specs` at `idx`, the VMs placed on
/// each host ask in total for at most the CPU, memory and disk that host
/// had free (`total - used`, or none when over-committed), and once they
/// are charged each host's use is what it reported plus what was placed
/// on it.
pub proof fn lemma_schedule_placed_fit(hosts: Seq<Host>, res: Seq<Resource>, specs: Seq<VmSpec>)
    requires
        res.len() == hosts.len(),
        ids_distinct(hosts),
    ensures
        schedule(hosts, res, specs) matches Ok(idx) ==> forall|k: int|
            0 <= k < hosts.len() ==> {
                let p = #[trigger] placed_on(specs, idx, k);
                let r2 = schedule_charged(hosts, res, specs)[k];
                &&& p.0 == 0 || res[k].cpu_used + p.0 <= res[k].cpu_total
                &&& p.1 == 0 || res[k].mem_used + p.1 <= res[k].mem_total
                &&& p.2 == 0 || res[k].disk_used + p.2 <= res[k].disk_total
                &&& r2.cpu_used == res[k].cpu_used + p.0
                &&& r2.mem_used == res[k].mem_used + p.1
                &&& r2.disk_used == res[k].disk_used + p.2
            },
    decreases specs.len(),
{
    if specs.len() > 0 {
        let s = specs[0];
        lemma_best_fit_sound(hosts, res, s);
        match best_fit(hosts, res, s) {
            None => {},
            Some(i) => {
                let id = hosts[i].id@;
                assert(is_first_with_id(hosts, id, i)) by {
                    assert forall|j: int| 0 <= j < i implies #[trigger] hosts[j].id@ != id by {
                        assert(hosts[j].id@ != hosts[i].id@);
                    }
                }
                let kk = choose|k: int| is_first_with_id(hosts, id, k);
                lemma_first_unique(hosts, id, kk, i);
                let r2 = charge(hosts, res, id, s);
                assert(r2 == res.update(i, add_usage(res[i], s)));
                assert(candidate(hosts[i], res[i], s));
                let tail = specs.drop_first();
                lemma_schedule_placed_fit(hosts, r2, tail);
                match schedule(hosts, r2, tail) {
                    Ok(rest) => {
                        let idx = seq![i] + rest;
                        assert(idx.drop_first() =~= rest);
                        assert(schedule_charged(hosts, res, specs) == schedule_charged(
                            hosts,
                            r2,
                            tail,
                        ));
                        assert forall|k: int| 0 <= k < hosts.len() implies {
                            let p = #[trigger] placed_on(specs, idx, k);
                            let rc = schedule_charged(hosts, res, specs)[k];
                            &&& p.0 == 0 || res[k].cpu_used + p.0 <= res[k].cpu_total
                            &&& p.1 == 0 || res[k].mem_used + p.1 <= res[k].mem_total
                            &&& p.2 == 0 || res[k].disk_used + p.2 <= res[k].disk_total
                            &&& rc.cpu_used == res[k].cpu_used + p.0
                            &&& rc.mem_used == res[k].mem_used + p.1
                            &&& rc.disk_used == res[k].disk_used + p.2
                        } by {
                            let q = placed_on(tail, rest, k);
                            assert(q == placed_on(tail, rest, k));
                            if k != i {
                                assert(r2[k] == res[k]);
                            }
                        }
                    },
                    Err(_) => {},
                }
            },
        }
    }
}

/// Placement never overcommits a host: when the hosts' ids are distinct
/// and every host is within its capacity, every host stays within its
/// capacity once the scheduled VMs are charged.
pub proof fn lemma_schedule_within_capacity(hosts: Seq<Host>, res: Seq<Resource>, specs: Seq<VmSpec>)
    requires
        res.len() == hosts.len(),
        ids_distinct(hosts),
        all_within(res),
    ensures
        schedule_charged(hosts, res, specs).len() == hosts.len(),
        all_within(schedule_charged(hosts, res, specs)),
{
    let r2 = schedule_charged(hosts, res, specs);
    lemma_schedule_fits_free(hosts, res, specs);
    assert forall|q: int| 0 <= q < r2.len() implies #[trigger] r2[q].cpu_used <= r2[q].cpu_total
        && r2[q].mem_used <= r2[q].mem_total && r2[q].disk_used <= r2[q].disk_total by {
        assert(grew_within(res[q], r2[q]));
        assert(res[q].cpu_used <= res[q].cpu_total);
    }
}

} // verus!
