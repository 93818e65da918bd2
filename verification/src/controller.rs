//! Decisions of the central controller: environment admission and
//! expiry, host registration and health, and fleet-wide totals.
//!
//! The controller's HTTP handlers talk to agents and to the database;
//! the rules they apply are here.

use vstd::prelude::*;
use vstd::string::StringExecFns;
use crate::api::{AgentInfo, CreateEnvReq, CreateVmReq, EnvDetail, FleetStatus, ImageInfo, VmSpec};
use crate::model::{
    name_verdict, utf8_len, validate_name, Env, EnvState, Host, HostState, Resource, Vm, MAX_HOSTS,
    MAX_LIFETIME,
};
use crate::scheduler::is_first_with_id;
use crate::num::{dec, u64_to_dec};

verus! {

// ── Environment admission ───────────────────────────────────────────

/// The verdict on an environment request's names: the environment name,
/// then each image name in order.
pub open spec fn env_names_verdict(req: CreateEnvReq) -> Result<(), Seq<char>> {
    let v = name_verdict(req.id@, utf8_len(req.id@) as int, "env name"@);
    if !(v is Ok) {
        v
    } else {
        images_verdict(req.vms@, req.vms@.len() as int)
    }
}

/// The verdict on the image names of the first `n` specs.
pub open spec fn images_verdict(specs: Seq<VmSpec>, n: int) -> Result<(), Seq<char>>
    decreases n,
{
    if n <= 0 {
        Ok(())
    } else {
        let prev = images_verdict(specs, n - 1);
        if !(prev is Ok) {
            prev
        } else {
            name_verdict(specs[n - 1].image@, utf8_len(specs[n - 1].image@) as int, "image"@)
        }
    }
}

proof fn lemma_images_verdict_sticky(specs: Seq<VmSpec>, m: int, n: int)
    requires
        0 <= m <= n,
        !(images_verdict(specs, m) is Ok),
    ensures
        images_verdict(specs, n) == images_verdict(specs, m),
    decreases n - m,
{
    if n > m {
        lemma_images_verdict_sticky(specs, m, n - 1);
    }
}

/// Check the names in an environment request.
pub fn validate_env_request(req: &CreateEnvReq) -> (r: Result<(), String>)
    ensures
        match r {
            Ok(()) => env_names_verdict(*req) is Ok,
            Err(m) => env_names_verdict(*req) == Err::<(), Seq<char>>(m@),
        },
{
    match validate_name(req.id.as_str(), "env name") {
        Ok(()) => {},
        Err(e) => {
            return Err(e);
        },
    }
    let mut i: usize = 0;
    while i < req.vms.len()
        invariant
            i <= req.vms@.len(),
            images_verdict(req.vms@, i as int) is Ok,
            env_names_verdict(*req) == images_verdict(req.vms@, req.vms@.len() as int),
            name_verdict(req.id@, utf8_len(req.id@) as int, "env name"@) is Ok,
        decreases req.vms@.len() - i,
    {
        match validate_name(req.vms[i].image.as_str(), "image") {
            Ok(()) => {},
            Err(e) => {
                proof {
                    lemma_images_verdict_sticky(req.vms@, i as int + 1, req.vms@.len() as int);
                }
                return Err(e);
            },
        }
        i = i + 1;
    }
    Ok(())
}

/// The lifetime an environment gets: the requested one, capped at the
/// maximum; no lifetime, or a lifetime of 0, means the maximum (6 hours).
pub open spec fn granted_lifetime(lifetime: Option<u64>) -> u64 {
    match lifetime {
        Some(lt) => if lt == 0 || lt >= MAX_LIFETIME { MAX_LIFETIME } else { lt },
        None => MAX_LIFETIME,
    }
}

/// When an environment created at `created_at` expires.
pub open spec fn expiry(created_at: u64, lifetime: Option<u64>) -> u64 {
    (created_at + granted_lifetime(lifetime)) as u64
}

/// When an environment created at `created_at` expires: always after its
/// creation, and at most the maximum lifetime later.
pub fn env_expiry(created_at: u64, lifetime: Option<u64>) -> (r: u64)
    requires
        created_at + MAX_LIFETIME <= u64::MAX,
    ensures
        r == expiry(created_at, lifetime),
        created_at < r <= created_at + MAX_LIFETIME,
{
    let granted = match lifetime {
        Some(lt) => if lt == 0 || lt >= MAX_LIFETIME { MAX_LIFETIME } else { lt },
        None => MAX_LIFETIME,
    };
    created_at + granted
}

/// An environment whose VMs were requested but none of which came up is
/// a failure.
pub fn all_vms_failed(requested: usize, created: usize) -> (r: bool)
    ensures
        r == (created == 0 && requested != 0),
{
    created == 0 && requested != 0
}

/// Message when every VM of an environment failed to come up.
pub fn all_failed_message() -> (m: String)
    ensures
        m@ == "all VM creation attempts failed; check agent connectivity"@,
{
    String::from_str("all VM creation attempts failed; check agent connectivity")
}

/// The environment record for a request whose VMs `vm_ids` were created.
pub fn make_env(req: &CreateEnvReq, vm_ids: Vec<String>, created_at: u64, expires_at: u64) -> (e: Env)
    ensures
        e.id@ == req.id@,
        e.owner@ == req.owner@,
        e.vm_ids == vm_ids,
        e.created_at == created_at,
        e.expires_at == expires_at,
        e.state == EnvState::Active,
{
    Env {
        id: req.id.clone(),
        owner: req.owner.clone(),
        vm_ids,
        created_at,
        expires_at,
        state: EnvState::Active,
    }
}

// ── Expiry ──────────────────────────────────────────────────────────

/// Whether an environment with expiry `expires_at` has expired at `now`
/// (zero means it never expires).
pub open spec fn is_expired(expires_at: u64, now: u64) -> bool {
    expires_at > 0 && expires_at <= now
}

/// Ids of the environments expired at `now`, in order.
pub open spec fn expired_ids(envs: Seq<Env>, now: u64) -> Seq<Seq<char>>
    decreases envs.len(),
{
    if envs.len() == 0 {
        Seq::<Seq<char>>::empty()
    } else {
        let rest = expired_ids(envs.drop_last(), now);
        if is_expired(envs.last().expires_at, now) {
            rest.push(envs.last().id@)
        } else {
            rest
        }
    }
}

/// The environments to destroy at `now`.
pub fn expired_envs(envs: &[Env], now: u64) -> (r: Vec<String>)
    ensures
        r@.len() == expired_ids(envs@, now).len(),
        forall|k: int| 0 <= k < r@.len() ==> #[trigger] r@[k]@ == expired_ids(envs@, now)[k],
{
    let mut out: Vec<String> = Vec::new();
    let mut i: usize = 0;
    while i < envs.len()
        invariant
            i <= envs@.len(),
            out@.len() == expired_ids(envs@.subrange(0, i as int), now).len(),
            forall|k: int| 0 <= k < out@.len() ==> #[trigger] out@[k]@ == expired_ids(
                envs@.subrange(0, i as int),
                now,
            )[k],
        decreases envs@.len() - i,
    {
        let ghost nxt = envs@.subrange(0, i as int + 1);
        assert(nxt.drop_last() =~= envs@.subrange(0, i as int));
        assert(nxt.last() == envs@[i as int]);
        let e = &envs[i];
        if e.expires_at > 0 && e.expires_at <= now {
            out.push(e.id.clone());
        }
        i = i + 1;
    }
    assert(envs@.subrange(0, envs@.len() as int) =~= envs@);
    out
}

/// Every environment reported expired has a non-zero expiry in the past,
/// and every such environment is reported.
pub proof fn lemma_expired_exact(envs: Seq<Env>, now: u64, e: Env)
    ensures
        envs.contains(e) && is_expired(e.expires_at, now) ==> expired_ids(envs, now).contains(e.id@),
        forall|k: int|
            #![trigger expired_ids(envs, now)[k]]
            0 <= k < expired_ids(envs, now).len() ==> exists|j: int|
                0 <= j < envs.len() && #[trigger] envs[j].id@ == expired_ids(envs, now)[k]
                    && is_expired(envs[j].expires_at, now),
    decreases envs.len(),
{
    if envs.len() > 0 {
        let pre = envs.drop_last();
        lemma_expired_exact(pre, now, e);
        let r = expired_ids(envs, now);
        let rp = expired_ids(pre, now);
        if envs.contains(e) && is_expired(e.expires_at, now) {
            let w = choose|w: int| 0 <= w < envs.len() && envs[w] == e;
            if w < envs.len() - 1 {
                assert(pre[w] == e);
                assert(pre.contains(e));
                let m = choose|m: int| 0 <= m < rp.len() && rp[m] == e.id@;
                assert(r[m] == e.id@);
            } else {
                assert(r[r.len() - 1] == e.id@);
            }
        }
        assert forall|k: int| #![trigger r[k]] 0 <= k < r.len() implies exists|j: int|
            0 <= j < envs.len() && #[trigger] envs[j].id@ == r[k] && is_expired(
                envs[j].expires_at,
                now,
            ) by {
            if k < rp.len() {
                let j = choose|j: int|
                    0 <= j < pre.len() && #[trigger] pre[j].id@ == rp[k] && is_expired(
                        pre[j].expires_at,
                        now,
                    );
                assert(envs[j] == pre[j]);
            } else {
                assert(envs[envs.len() - 1].id@ == r[k]);
            }
        }
    }
}

// ── Hosts ───────────────────────────────────────────────────────────

/// Whether the fleet is full: no host may join when `host_count` hosts
/// are registered.
pub fn host_limit_reached(host_count: usize) -> (r: bool)
    ensures
        r == (host_count >= MAX_HOSTS),
{
    host_count >= MAX_HOSTS
}

/// Message for a registration refused because the fleet is full.
pub fn host_limit_message() -> (m: String)
    ensures
        m@ == "fleet limit reached (50 hosts)"@,
{
    String::from_str("fleet limit reached (50 hosts)")
}

/// The record of a newly registered host, from what its agent reported.
pub fn host_from_info(info: AgentInfo, addr: String, now: u64) -> (h: Host)
    ensures
        h.id == info.host_id,
        h.addr == addr,
        h.resource == info.resource,
        h.state == HostState::Online,
        h.engines == info.engines,
        h.storage == info.storage,
        h.registered_at == now,
{
    Host {
        id: info.host_id,
        addr,
        resource: info.resource,
        state: HostState::Online,
        engines: info.engines,
        storage: info.storage,
        registered_at: now,
    }
}

/// The warning an agent's answer leaves when it created no VM.
pub open spec fn reply_warning(addr: Seq<char>, reply: CreateReply) -> Seq<char> {
    match reply {
        CreateReply::Created(_) => Seq::<char>::empty(),
        CreateReply::Unparseable => "unparseable response from "@ + addr,
        CreateReply::Refused(st) => "agent "@ + addr + " returned "@ + st@,
        CreateReply::Unreachable(e) => "failed to reach "@ + addr + ": "@ + e@,
    }
}

/// What the creation of an environment has gathered so far: the ids and
/// records of the VMs the agents created, and the warnings of the others.
pub struct EnvProgress {
    pub vm_ids: Vec<String>,
    pub vms: Vec<Vm>,
    pub warnings: Vec<String>,
}

/// Nothing gathered yet.
pub fn new_progress() -> (p: EnvProgress)
    ensures
        p.vm_ids@.len() == 0,
        p.vms@.len() == 0,
        p.warnings@.len() == 0,
{
    EnvProgress { vm_ids: Vec::new(), vms: Vec::new(), warnings: Vec::new() }
}

/// Records an agent's answer for the VM `vm_id` placed at `addr`: a
/// created VM joins the environment under its id; any other answer adds
/// its warning.
pub fn record_reply(p: &mut EnvProgress, addr: &str, vm_id: String, reply: CreateReply)
    ensures
        match reply {
            CreateReply::Created(v) => {
                &&& final(p).vm_ids@ == old(p).vm_ids@.push(vm_id)
                &&& final(p).vms@ == old(p).vms@.push(v)
                &&& final(p).warnings@ == old(p).warnings@
            },
            _ => {
                &&& final(p).vm_ids@ == old(p).vm_ids@
                &&& final(p).vms@ == old(p).vms@
                &&& final(p).warnings@.len() == old(p).warnings@.len() + 1
                &&& final(p).warnings@.subrange(0, old(p).warnings@.len() as int) == old(p).warnings@
                &&& final(p).warnings@.last()@ == reply_warning(addr@, reply)
            },
        },
{
    match create_outcome(addr, reply) {
        Ok(vm) => {
            p.vm_ids.push(vm_id);
            p.vms.push(vm);
        },
        Err(w) => {
            p.warnings.push(w);
            assert(p.warnings@.subrange(0, old(p).warnings@.len() as int) =~= old(p).warnings@);
        },
    }
}

/// The outcome of creating an environment for `req` once every agent has
/// answered: a failure when VMs were requested and none came up, else the
/// environment with the VMs that did and the warnings of the rest.
pub fn finish_env(req: &CreateEnvReq, p: EnvProgress, created_at: u64, expires_at: u64) -> (r:
    Result<EnvDetail, String>)
    ensures
        match r {
            Err(m) => p.vms@.len() == 0 && req.vms@.len() != 0 && m@
                == "all VM creation attempts failed; check agent connectivity"@,
            Ok(d) => !(p.vms@.len() == 0 && req.vms@.len() != 0) && d.env.id@ == req.id@
                && d.env.owner@ == req.owner@ && d.env.vm_ids == p.vm_ids && d.env.created_at
                == created_at && d.env.expires_at == expires_at && d.env.state == EnvState::Active
                && d.vms == p.vms && d.warnings == p.warnings,
        },
{
    if all_vms_failed(req.vms.len(), p.vms.len()) {
        return Err(all_failed_message());
    }
    let env = make_env(req, p.vm_ids, created_at, expires_at);
    Ok(EnvDetail { env, vms: p.vms, warnings: p.warnings })
}

/// The message refusing to remove a host that still runs VMs.
pub open spec fn host_busy_msg(id: Seq<char>, vm_count: nat) -> Seq<char> {
    "host "@ + id + " still has "@ + dec(vm_count) + " VMs; destroy them first"@
}

/// Whether a host with `vm_count` VMs may be removed.
pub fn check_remove_host(id: &str, vm_count: usize) -> (r: Result<(), String>)
    ensures
        match r {
            Ok(()) => vm_count == 0,
            Err(m) => vm_count != 0 && m@ == host_busy_msg(id@, vm_count as nat),
        },
{
    if vm_count != 0 {
        let n = u64_to_dec(vm_count as u64);
        return Err(
            String::from_str("host ").concat(id).concat(" still has ").concat(n.as_str()).concat(
                " VMs; destroy them first",
            ),
        );
    }
    Ok(())
}

/// What polling a host's agent gave.
pub enum AgentReply {
    /// The agent could not be reached.
    Unreachable,
    /// The agent answered without usable host information.
    NoInfo,
    /// The agent reported its current resources.
    Info(Resource),
}

/// A host's record after polling its agent: unreachable hosts go
/// offline, hosts that report resources come online with them, and
/// anything else leaves the record as it was.
pub fn refresh_host(host: &mut Host, reply: AgentReply)
    ensures
        final(host).id == old(host).id,
        final(host).addr == old(host).addr,
        final(host).engines == old(host).engines,
        final(host).storage == old(host).storage,
        final(host).registered_at == old(host).registered_at,
        match reply {
            AgentReply::Unreachable => final(host).state == HostState::Offline
                && final(host).resource == old(host).resource,
            AgentReply::NoInfo => final(host).state == old(host).state && final(host).resource
                == old(host).resource,
            AgentReply::Info(r) => final(host).state == HostState::Online && final(host).resource
                == r,
        },
{
    match reply {
        AgentReply::Unreachable => {
            host.state = HostState::Offline;
        },
        AgentReply::NoInfo => {},
        AgentReply::Info(r) => {
            host.resource = r;
            host.state = HostState::Online;
        },
    }
}

// ── Fleet status ────────────────────────────────────────────────────

/// Sum of one resource counter over the hosts.
pub open spec fn total(hosts: Seq<Host>, f: spec_fn(Resource) -> u32) -> int
    decreases hosts.len(),
{
    if hosts.len() == 0 {
        0
    } else {
        total(hosts.drop_last(), f) + f(hosts.last().resource) as int
    }
}

/// Number of online hosts.
pub open spec fn online_count(hosts: Seq<Host>) -> int
    decreases hosts.len(),
{
    if hosts.len() == 0 {
        0
    } else {
        online_count(hosts.drop_last()) + if hosts.last().state == HostState::Online {
            1int
        } else {
            0
        }
    }
}

pub open spec fn f_cpu_total(r: Resource) -> u32 { r.cpu_total }
pub open spec fn f_cpu_used(r: Resource) -> u32 { r.cpu_used }
pub open spec fn f_mem_total(r: Resource) -> u32 { r.mem_total }
pub open spec fn f_mem_used(r: Resource) -> u32 { r.mem_used }
pub open spec fn f_disk_total(r: Resource) -> u32 { r.disk_total }
pub open spec fn f_disk_used(r: Resource) -> u32 { r.disk_used }

/// The fleet totals are sums over the hosts: an empty fleet has none of
/// anything, and adding a host adds exactly its CPU, memory and disk, total
/// and used, and one online host when it is online.
pub proof fn lemma_fleet_totals_add(hosts: Seq<Host>, h: Host)
    ensures
        total(Seq::<Host>::empty(), |r: Resource| f_cpu_total(r)) == 0,
        total(Seq::<Host>::empty(), |r: Resource| f_cpu_used(r)) == 0,
        total(Seq::<Host>::empty(), |r: Resource| f_mem_total(r)) == 0,
        total(Seq::<Host>::empty(), |r: Resource| f_mem_used(r)) == 0,
        total(Seq::<Host>::empty(), |r: Resource| f_disk_total(r)) == 0,
        total(Seq::<Host>::empty(), |r: Resource| f_disk_used(r)) == 0,
        online_count(Seq::<Host>::empty()) == 0,
        total(hosts.push(h), |r: Resource| f_cpu_total(r)) == total(
            hosts,
            |r: Resource| f_cpu_total(r),
        ) + h.resource.cpu_total,
        total(hosts.push(h), |r: Resource| f_cpu_used(r)) == total(
            hosts,
            |r: Resource| f_cpu_used(r),
        ) + h.resource.cpu_used,
        total(hosts.push(h), |r: Resource| f_mem_total(r)) == total(
            hosts,
            |r: Resource| f_mem_total(r),
        ) + h.resource.mem_total,
        total(hosts.push(h), |r: Resource| f_mem_used(r)) == total(
            hosts,
            |r: Resource| f_mem_used(r),
        ) + h.resource.mem_used,
        total(hosts.push(h), |r: Resource| f_disk_total(r)) == total(
            hosts,
            |r: Resource| f_disk_total(r),
        ) + h.resource.disk_total,
        total(hosts.push(h), |r: Resource| f_disk_used(r)) == total(
            hosts,
            |r: Resource| f_disk_used(r),
        ) + h.resource.disk_used,
        online_count(hosts.push(h)) == online_count(hosts) + if h.state == HostState::Online {
            1int
        } else {
            0
        },
{
    assert(hosts.push(h).drop_last() =~= hosts);
}

/// Every fleet total fits a `u32`.
pub open spec fn totals_fit(hosts: Seq<Host>) -> bool {
    &&& total(hosts, |r: Resource| f_cpu_total(r)) <= u32::MAX
    &&& total(hosts, |r: Resource| f_cpu_used(r)) <= u32::MAX
    &&& total(hosts, |r: Resource| f_mem_total(r)) <= u32::MAX
    &&& total(hosts, |r: Resource| f_mem_used(r)) <= u32::MAX
    &&& total(hosts, |r: Resource| f_disk_total(r)) <= u32::MAX
    &&& total(hosts, |r: Resource| f_disk_used(r)) <= u32::MAX
}

proof fn lemma_total_prefix(hosts: Seq<Host>, f: spec_fn(Resource) -> u32, i: int)
    requires
        0 <= i <= hosts.len(),
    ensures
        total(hosts.subrange(0, i), f) <= total(hosts, f),
        online_count(hosts.subrange(0, i)) <= online_count(hosts),
        online_count(hosts) <= hosts.len(),
    decreases hosts.len() - i,
{
    if i < hosts.len() {
        lemma_total_prefix(hosts, f, i + 1);
        assert(hosts.subrange(0, i + 1).drop_last() =~= hosts.subrange(0, i));
    } else {
        assert(hosts.subrange(0, i) =~= hosts);
        lemma_online_le(hosts);
    }
}

proof fn lemma_online_le(hosts: Seq<Host>)
    ensures
        0 <= online_count(hosts) <= hosts.len(),
    decreases hosts.len(),
{
    if hosts.len() > 0 {
        lemma_online_le(hosts.drop_last());
    }
}

/// Whether every fleet total fits a `u32` (`fleet_status` requires it).
pub fn fleet_totals_fit(hosts: &[Host]) -> (r: bool)
    ensures
        r == totals_fit(hosts@),
{
    let (mut a, mut b, mut c, mut d, mut e, mut f) = (0u64, 0u64, 0u64, 0u64, 0u64, 0u64);
    let mut i: usize = 0;
    while i < hosts.len()
        invariant
            i <= hosts@.len(),
            a == total(hosts@.subrange(0, i as int), |r: Resource| f_cpu_total(r)),
            b == total(hosts@.subrange(0, i as int), |r: Resource| f_cpu_used(r)),
            c == total(hosts@.subrange(0, i as int), |r: Resource| f_mem_total(r)),
            d == total(hosts@.subrange(0, i as int), |r: Resource| f_mem_used(r)),
            e == total(hosts@.subrange(0, i as int), |r: Resource| f_disk_total(r)),
            f == total(hosts@.subrange(0, i as int), |r: Resource| f_disk_used(r)),
            a <= u32::MAX && b <= u32::MAX && c <= u32::MAX && d <= u32::MAX && e <= u32::MAX && f
                <= u32::MAX,
        decreases hosts@.len() - i,
    {
        let r = hosts[i].resource;
        proof {
            assert(hosts@.subrange(0, i as int + 1).drop_last() =~= hosts@.subrange(0, i as int));
            assert(hosts@.subrange(0, i as int + 1).last() == hosts@[i as int]);
        }
        a = a + r.cpu_total as u64;
        b = b + r.cpu_used as u64;
        c = c + r.mem_total as u64;
        d = d + r.mem_used as u64;
        e = e + r.disk_total as u64;
        f = f + r.disk_used as u64;
        i = i + 1;
        if a > 0xffff_ffff || b > 0xffff_ffff || c > 0xffff_ffff || d > 0xffff_ffff || e
            > 0xffff_ffff || f > 0xffff_ffff {
            proof {
                lemma_total_prefix(hosts@, |r: Resource| f_cpu_total(r), i as int);
                lemma_total_prefix(hosts@, |r: Resource| f_cpu_used(r), i as int);
                lemma_total_prefix(hosts@, |r: Resource| f_mem_total(r), i as int);
                lemma_total_prefix(hosts@, |r: Resource| f_mem_used(r), i as int);
                lemma_total_prefix(hosts@, |r: Resource| f_disk_total(r), i as int);
                lemma_total_prefix(hosts@, |r: Resource| f_disk_used(r), i as int);
            }
            return false;
        }
    }
    assert(hosts@.subrange(0, i as int) =~= hosts@);
    true
}

/// Fleet-wide totals over the registered hosts; VM and environment counts
/// come from the database.
pub fn fleet_status(hosts: &[Host], vm_count: usize, env_count: usize) -> (s: FleetStatus)
    requires
        totals_fit(hosts@),
    ensures
        s.hosts == hosts@.len() as u32,
        s.hosts_online == online_count(hosts@) as u32,
        s.total_vms == vm_count as u32,
        s.total_envs == env_count as u32,
        s.cpu_total == total(hosts@, |r: Resource| f_cpu_total(r)),
        s.cpu_used == total(hosts@, |r: Resource| f_cpu_used(r)),
        s.mem_total == total(hosts@, |r: Resource| f_mem_total(r)),
        s.mem_used == total(hosts@, |r: Resource| f_mem_used(r)),
        s.disk_total == total(hosts@, |r: Resource| f_disk_total(r)),
        s.disk_used == total(hosts@, |r: Resource| f_disk_used(r)),
{
    let mut online: usize = 0;
    let (mut cpu_t, mut cpu_u, mut mem_t, mut mem_u, mut disk_t, mut disk_u) = (
        0u32,
        0u32,
        0u32,
        0u32,
        0u32,
        0u32,
    );
    let mut i: usize = 0;
    while i < hosts.len()
        invariant
            i <= hosts@.len(),
            totals_fit(hosts@),
            online == online_count(hosts@.subrange(0, i as int)),
            cpu_t == total(hosts@.subrange(0, i as int), |r: Resource| f_cpu_total(r)),
            cpu_u == total(hosts@.subrange(0, i as int), |r: Resource| f_cpu_used(r)),
            mem_t == total(hosts@.subrange(0, i as int), |r: Resource| f_mem_total(r)),
            mem_u == total(hosts@.subrange(0, i as int), |r: Resource| f_mem_used(r)),
            disk_t == total(hosts@.subrange(0, i as int), |r: Resource| f_disk_total(r)),
            disk_u == total(hosts@.subrange(0, i as int), |r: Resource| f_disk_used(r)),
        decreases hosts@.len() - i,
    {
        let h = &hosts[i];
        proof {
            let nxt = hosts@.subrange(0, i as int + 1);
            assert(nxt.drop_last() =~= hosts@.subrange(0, i as int));
            lemma_total_prefix(hosts@, |r: Resource| f_cpu_total(r), i as int + 1);
            lemma_total_prefix(hosts@, |r: Resource| f_cpu_used(r), i as int + 1);
            lemma_total_prefix(hosts@, |r: Resource| f_mem_total(r), i as int + 1);
            lemma_total_prefix(hosts@, |r: Resource| f_mem_used(r), i as int + 1);
            lemma_total_prefix(hosts@, |r: Resource| f_disk_total(r), i as int + 1);
            lemma_total_prefix(hosts@, |r: Resource| f_disk_used(r), i as int + 1);
            lemma_online_le(nxt);
        }
        if h.state == HostState::Online {
            online = online + 1;
        }
        cpu_t = cpu_t + h.resource.cpu_total;
        cpu_u = cpu_u + h.resource.cpu_used;
        mem_t = mem_t + h.resource.mem_total;
        mem_u = mem_u + h.resource.mem_used;
        disk_t = disk_t + h.resource.disk_total;
        disk_u = disk_u + h.resource.disk_used;
        i = i + 1;
    }
    assert(hosts@.subrange(0, hosts@.len() as int) =~= hosts@);
    FleetStatus {
        hosts: hosts.len() as u32,
        hosts_online: online as u32,
        total_vms: vm_count as u32,
        total_envs: env_count as u32,
        cpu_total: cpu_t,
        cpu_used: cpu_u,
        mem_total: mem_t,
        mem_used: mem_u,
        disk_total: disk_t,
        disk_used: disk_u,
    }
}


// ── Controller settings ─────────────────────────────────────────────

/// Controller settings.
pub struct Config {
    /// Listen address for the HTTP API.
    pub listen: String,
    /// Directory for persistent state (SQLite database).
    pub data_dir: String,
    /// API key for authentication: when set, every API request must carry
    /// `Authorization: Bearer <key>`.
    pub api_key: Option<String>,
}

/// The path of the controller's database under its data directory.
pub fn db_path(data_dir: &str) -> (s: String)
    ensures
        s@ == data_dir@ + "/ctl.db"@,
{
    String::from_str(data_dir).concat("/ctl.db")
}

// ── Talking to agents ───────────────────────────────────────────────

/// The URL of an API path on the agent at `addr`.
pub fn agent_url(addr: &str, path: &str) -> (s: String)
    ensures
        s@ == "http://"@ + addr@ + path@,
{
    String::from_str("http://").concat(addr).concat(path)
}

/// The URL of a VM on the agent at `addr`, or of an action on it.
pub fn vm_url(addr: &str, vm_id: &str, action: Option<&str>) -> (s: String)
    ensures
        s@ == "http://"@ + addr@ + "/api/vms/"@ + vm_id@ + match action {
            Some(a) => "/"@ + a@,
            None => Seq::<char>::empty(),
        },
{
    let base = String::from_str("http://").concat(addr).concat("/api/vms/").concat(vm_id);
    match action {
        Some(a) => base.concat("/").concat(a),
        None => {
            assert(base@ =~= base@ + Seq::<char>::empty());
            base
        },
    }
}

/// The index of the host with id `id` (the first one, should ids repeat).
pub fn find_host(hosts: &[Host], id: &str) -> (r: Option<usize>)
    ensures
        match r {
            Some(k) => is_first_with_id(hosts@, id@, k as int),
            None => forall|k: int| 0 <= k < hosts@.len() ==> #[trigger] hosts@[k].id@ != id@,
        },
{
    let want = crate::text::chars_of(id);
    let mut i: usize = 0;
    while i < hosts.len()
        invariant
            want@ == id@,
            i <= hosts@.len(),
            forall|k: int| 0 <= k < i ==> #[trigger] hosts@[k].id@ != id@,
        decreases hosts@.len() - i,
    {
        let have = crate::text::chars_of(hosts[i].id.as_str());
        if crate::text::chars_eq(&have, &want) {
            return Some(i);
        }
        i = i + 1;
    }
    None
}

/// The request to an agent that creates one VM of an environment, with
/// the spec's sizes or the defaults.
pub fn vm_request(spec: &VmSpec, env_id: &str, vm_id: String) -> (r: CreateVmReq)
    ensures
        r.vm_id@ == vm_id@,
        r.env_id@ == env_id@,
        r.image@ == spec.image@,
        r.engine == spec.engine,
        r.cpu == spec.spec_cpu(),
        r.mem == spec.spec_mem(),
        r.disk == spec.spec_disk(),
        r.ports@ == spec.ports@,
        r.deny_outgoing == spec.deny_outgoing,
{
    let copy = spec.copy();
    CreateVmReq {
        vm_id,
        env_id: String::from_str(env_id),
        image: copy.image,
        engine: spec.engine,
        cpu: spec.cpu_or_default(),
        mem: spec.mem_or_default(),
        disk: spec.disk_or_default(),
        ports: copy.ports,
        deny_outgoing: spec.deny_outgoing,
    }
}

/// What an agent answered to a request that creates a VM.
pub enum CreateReply {
    /// The agent created the VM and described it.
    Created(Vm),
    /// The agent answered with success but its body could not be read.
    Unparseable,
    /// The agent refused, with this HTTP status.
    Refused(String),
    /// The agent could not be reached; the error says why.
    Unreachable(String),
}

/// The VM an agent created, or the warning its answer leaves.
pub fn create_outcome(addr: &str, reply: CreateReply) -> (r: Result<Vm, String>)
    ensures
        match reply {
            CreateReply::Created(v) => r == Ok::<Vm, String>(v),
            CreateReply::Unparseable => r matches Err(w) && w@ == "unparseable response from "@
                + addr@,
            CreateReply::Refused(st) => r matches Err(w) && w@ == "agent "@ + addr@
                + " returned "@ + st@,
            CreateReply::Unreachable(e) => r matches Err(w) && w@ == "failed to reach "@ + addr@
                + ": "@ + e@,
        },
{
    match reply {
        CreateReply::Created(v) => Ok(v),
        CreateReply::Unparseable => Err(String::from_str("unparseable response from ").concat(addr)),
        CreateReply::Refused(st) => Err(
            String::from_str("agent ").concat(addr).concat(" returned ").concat(st.as_str()),
        ),
        CreateReply::Unreachable(e) => Err(
            String::from_str("failed to reach ").concat(addr).concat(": ").concat(e.as_str()),
        ),
    }
}

/// Message refusing an environment whose name is taken.
pub fn env_exists_message(id: &str) -> (m: String)
    ensures
        m@ == "environment '"@ + id@ + "' already exists"@,
{
    String::from_str("environment '").concat(id).concat("' already exists")
}

/// Message for an unknown environment.
pub fn env_not_found_message(id: &str) -> (m: String)
    ensures
        m@ == "environment not found: "@ + id@,
{
    String::from_str("environment not found: ").concat(id)
}

/// Message for an unknown host.
pub fn host_not_found_message(id: &str) -> (m: String)
    ensures
        m@ == "host not found: "@ + id@,
{
    String::from_str("host not found: ").concat(id)
}

/// Message for an unknown VM.
pub fn vm_not_found_message(id: &str) -> (m: String)
    ensures
        m@ == "VM not found: "@ + id@,
{
    String::from_str("VM not found: ").concat(id)
}

// ── Host registration ───────────────────────────────────────────────

/// What asking an agent for its information gave.
pub enum AgentFetch {
    /// The agent could not be reached; the error says why.
    Unreachable(String),
    /// The agent's answer could not be read; the error says why.
    BadReply(String),
    /// The agent answered without data.
    NoData,
    /// The agent described itself.
    Info(AgentInfo),
}

/// A refused request: the HTTP status and the message.
pub struct Refusal {
    pub status: u16,
    pub message: String,
}

/// HTTP 502 Bad Gateway.
pub const BAD_GATEWAY: u16 = 502;

/// HTTP 409 Conflict.
pub const CONFLICT: u16 = 409;

/// The outcome of registering the agent at `addr`: the new host record,
/// or why registration is refused. An agent that cannot be asked is a
/// bad gateway; a full fleet is a conflict.
pub fn plan_register(fetch: AgentFetch, host_count: usize, addr: String, now: u64) -> (r: Result<
    Host,
    Refusal,
>)
    ensures
        match fetch {
            AgentFetch::Unreachable(e) => r matches Err(f) && f.status == BAD_GATEWAY
                && f.message@ == "cannot reach agent at "@ + addr@ + ": "@ + e@,
            AgentFetch::BadReply(e) => r matches Err(f) && f.status == BAD_GATEWAY && f.message@
                == "invalid agent response: "@ + e@,
            AgentFetch::NoData => r matches Err(f) && f.status == BAD_GATEWAY && f.message@
                == "agent returned no data"@,
            AgentFetch::Info(info) => if host_count >= MAX_HOSTS {
                r matches Err(f) && f.status == CONFLICT && f.message@
                    == "fleet limit reached (50 hosts)"@
            } else {
                r matches Ok(h) && h.id == info.host_id && h.addr == addr && h.resource
                    == info.resource && h.state == HostState::Online && h.engines == info.engines
                    && h.storage == info.storage && h.registered_at == now
            },
        },
{
    match fetch {
        AgentFetch::Unreachable(e) => Err(
            Refusal {
                status: BAD_GATEWAY,
                message: String::from_str("cannot reach agent at ").concat(addr.as_str()).concat(
                    ": ",
                ).concat(e.as_str()),
            },
        ),
        AgentFetch::BadReply(e) => Err(
            Refusal {
                status: BAD_GATEWAY,
                message: String::from_str("invalid agent response: ").concat(e.as_str()),
            },
        ),
        AgentFetch::NoData => Err(
            Refusal { status: BAD_GATEWAY, message: String::from_str("agent returned no data") },
        ),
        AgentFetch::Info(info) => {
            if host_limit_reached(host_count) {
                Err(Refusal { status: CONFLICT, message: host_limit_message() })
            } else {
                Ok(host_from_info(info, addr, now))
            }
        },
    }
}

// ── Images ──────────────────────────────────────────────────────────

/// Whether the fleet's image list asks this host: only online hosts.
pub fn lists_images(host: &Host) -> (r: bool)
    ensures
        r == (host.state == HostState::Online),
{
    match host.state {
        HostState::Online => true,
        _ => false,
    }
}

/// The image entries for the names a host reported.
pub fn images_of_host(host: &Host, names: Vec<String>) -> (v: Vec<ImageInfo>)
    ensures
        v@.len() == names@.len(),
        forall|k: int|
            0 <= k < v@.len() ==> #[trigger] v@[k].name@ == names@[k]@ && v@[k].host_id@
                == host.id@,
{
    let mut v: Vec<ImageInfo> = Vec::new();
    let mut i: usize = 0;
    while i < names.len()
        invariant
            i <= names@.len(),
            v@.len() == i,
            forall|k: int|
                0 <= k < i ==> #[trigger] v@[k].name@ == names@[k]@ && v@[k].host_id@
                    == host.id@,
        decreases names@.len() - i,
    {
        v.push(ImageInfo { name: names[i].clone(), host_id: host.id.clone() });
        i = i + 1;
    }
    v
}

} // verus!
