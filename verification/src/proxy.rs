//! The front proxy of a fleet of servers: splitting a new environment's
//! resources across the servers that can host its systems, and the
//! replies it sends back to clients.

use vstd::prelude::*;
use vstd::string::StringExecFns;
use crate::text::{ascii_lower, ascii_lower_exec, chars_eq, chars_of, starts_with, starts_with_exec, views};

verus! {

// ── Requests ────────────────────────────────────────────────────────

/// A request to add an environment, as clients send it.
pub struct ReqAddEnv {
    pub env_id: String,
    pub os_prefix: Vec<String>,
    pub life_time: Option<u64>,
    pub cpu_num: Option<u32>,
    pub mem_size: Option<u32>,
    pub disk_size: Option<u32>,
    pub port_set: Vec<u16>,
    pub dup_each: Option<u32>,
    pub deny_outgoing: bool,
}

/// A client's request: its id, the client that sends it (the sender's
/// address when none is given) and the message.
pub struct Req<T> {
    pub uuid: u64,
    pub cli_id: Option<String>,
    pub msg: T,
}

impl<T> Req<T> {
    /// A request from the client at the sender's address.
    pub fn new(uuid: u64, msg: T) -> (r: Req<T>)
        ensures
            r.uuid == uuid,
            r.cli_id is None,
            r.msg == msg,
    {
        Self::newx(uuid, None, msg)
    }

    /// A request from the client `cli_id`.
    pub fn newx(uuid: u64, cli_id: Option<String>, msg: T) -> (r: Req<T>)
        ensures
            r.uuid == uuid,
            r.cli_id == cli_id,
            r.msg == msg,
    {
        Req { uuid, cli_id, msg }
    }
}

/// A request for the details of environments.
pub struct ReqGetEnvInfo {
    pub env_set: Vec<String>,
}

/// A request to stop (or start) an environment.
pub struct ReqStopEnv {
    pub env_id: String,
}

/// A request to change an environment's lifetime.
pub struct ReqUpdateEnvLife {
    pub env_id: String,
    pub life_time: u64,
    pub is_fucker: bool,
}

/// A request to change the resources of an environment's VMs.
pub struct ReqUpdateEnvResource {
    pub env_id: String,
    pub cpu_num: Option<u32>,
    pub mem_size: Option<u32>,
    pub disk_size: Option<u32>,
    pub vm_port: Vec<u16>,
    pub deny_outgoing: Option<bool>,
}

/// A request to delete an environment.
pub struct ReqDelEnv {
    pub env_id: String,
}

/// A request to remove VMs from an environment, by id or by system.
pub struct ReqUpdateEnvKickVm {
    pub env_id: String,
    pub vm_id: Vec<i32>,
    pub os_prefix: Vec<String>,
}

/// The sizes a VM gets when a request leaves them out.
pub struct VmDefaults {
    pub cpu: u32,
    pub mem: u32,
    pub disk: u32,
}

/// A request to add an environment with every size settled.
pub struct AddEnv {
    pub env_id: String,
    pub os_prefix: Vec<String>,
    pub life_time: Option<u64>,
    pub cpu_num: u32,
    pub mem_size: u32,
    pub disk_size: u32,
    pub port_set: Vec<u16>,
    pub dup_each: u32,
    pub deny_outgoing: bool,
}

impl AddEnv {
    /// The request with the defaults filled in (no duplicates by default).
    pub fn from_req(req: ReqAddEnv, d: &VmDefaults) -> (r: AddEnv)
        ensures
            r.env_id == req.env_id,
            r.os_prefix == req.os_prefix,
            r.life_time == req.life_time,
            r.cpu_num == crate::api::or_default(req.cpu_num, d.cpu),
            r.mem_size == crate::api::or_default(req.mem_size, d.mem),
            r.disk_size == crate::api::or_default(req.disk_size, d.disk),
            r.port_set == req.port_set,
            r.dup_each == crate::api::or_default(req.dup_each, 0),
            r.deny_outgoing == req.deny_outgoing,
    {
        AddEnv {
            env_id: req.env_id,
            os_prefix: req.os_prefix,
            life_time: req.life_time,
            cpu_num: match req.cpu_num {
                Some(x) => x,
                None => d.cpu,
            },
            mem_size: match req.mem_size {
                Some(x) => x,
                None => d.mem,
            },
            disk_size: match req.disk_size {
                Some(x) => x,
                None => d.disk,
            },
            port_set: req.port_set,
            dup_each: match req.dup_each {
                Some(x) => x,
                None => 0,
            },
            deny_outgoing: req.deny_outgoing,
        }
    }

    /// The request again, every size stated.
    pub fn into_req(self) -> (r: ReqAddEnv)
        ensures
            r.env_id == self.env_id,
            r.os_prefix == self.os_prefix,
            r.life_time == self.life_time,
            r.cpu_num == Some(self.cpu_num),
            r.mem_size == Some(self.mem_size),
            r.disk_size == Some(self.disk_size),
            r.port_set == self.port_set,
            r.dup_each == Some(self.dup_each),
            r.deny_outgoing == self.deny_outgoing,
    {
        ReqAddEnv {
            env_id: self.env_id,
            os_prefix: self.os_prefix,
            life_time: self.life_time,
            cpu_num: Some(self.cpu_num),
            mem_size: Some(self.mem_size),
            disk_size: Some(self.disk_size),
            port_set: self.port_set,
            dup_each: Some(self.dup_each),
            deny_outgoing: self.deny_outgoing,
        }
    }
}

// ── Servers and their resources ─────────────────────────────────────

/// What a server reports of itself.
pub struct RespGetServerInfo {
    pub vm_total: u32,
    pub cpu_total: u32,
    pub cpu_used: u32,
    pub mem_total: u32,
    pub mem_used: u32,
    pub disk_total: u32,
    pub disk_used: u32,
    pub supported_list: Vec<String>,
}

/// Resources one system of a new environment takes on its server: each
/// system runs `1 + dup_each` VMs of the requested size.
pub open spec fn need_of(size: u32, dup_each: u32) -> int {
    size * (1 + dup_each)
}

/// The resources a server has left in the split: used CPU, memory and
/// disk.
pub struct Usage {
    pub cpu: u32,
    pub mem: u32,
    pub disk: u32,
}

/// Whether the server supports the system `os` (by exact name).
pub open spec fn supports(s: RespGetServerInfo, os: Seq<char>) -> bool {
    exists|k: int| 0 <= k < s.supported_list@.len() && #[trigger] s.supported_list@[k]@ == os
}

/// Whether a server with usage `u` has room for one more system.
pub open spec fn has_room(s: RespGetServerInfo, u: Usage, cpu: int, mem: int, disk: int) -> bool {
    &&& s.cpu_total - u.cpu >= cpu
    &&& s.mem_total - u.mem >= mem
    &&& s.disk_total - u.disk >= disk
}

/// The server that takes the system `os`: the first that supports it and
/// has room.
pub open spec fn taker(
    servers: Seq<RespGetServerInfo>,
    usage: Seq<Usage>,
    os: Seq<char>,
    cpu: int,
    mem: int,
    disk: int,
) -> Option<int> {
    if exists|k: int|
        0 <= k < servers.len() && supports(servers[k], os) && has_room(
            servers[k],
            usage[k],
            cpu,
            mem,
            disk,
        ) && forall|j: int|
            0 <= j < k ==> !(supports(servers[j], os) && has_room(
                servers[j],
                usage[j],
                cpu,
                mem,
                disk,
            )) {
        Some(
            choose|k: int|
                0 <= k < servers.len() && supports(servers[k], os) && has_room(
                    servers[k],
                    usage[k],
                    cpu,
                    mem,
                    disk,
                ) && forall|j: int|
                    0 <= j < k ==> !(supports(servers[j], os) && has_room(
                        servers[j],
                        usage[j],
                        cpu,
                        mem,
                        disk,
                    )),
        )
    } else {
        None
    }
}

/// A server's usage after it takes one more system.
pub open spec fn charged(u: Usage, cpu: int, mem: int, disk: int) -> Usage {
    Usage { cpu: (u.cpu + cpu) as u32, mem: (u.mem + mem) as u32, disk: (u.disk + disk) as u32 }
}

/// Placing the systems `oses` in order, each on its taker given what the
/// previous ones took: the server chosen for each, or `None` when one
/// finds no server.
pub open spec fn split(
    servers: Seq<RespGetServerInfo>,
    usage: Seq<Usage>,
    oses: Seq<Seq<char>>,
    cpu: int,
    mem: int,
    disk: int,
) -> Option<Seq<int>>
    decreases oses.len(),
{
    if oses.len() == 0 {
        Some(Seq::<int>::empty())
    } else {
        match taker(servers, usage, oses[0], cpu, mem, disk) {
            None => None,
            Some(k) => match split(
                servers,
                usage.update(k, charged(usage[k], cpu, mem, disk)),
                oses.drop_first(),
                cpu,
                mem,
                disk,
            ) {
                Some(rest) => Some(seq![k] + rest),
                None => None,
            },
        }
    }
}

/// The usage servers report before the split.
pub open spec fn reported_usage(servers: Seq<RespGetServerInfo>) -> Seq<Usage> {
    Seq::new(
        servers.len(),
        |i: int| Usage { cpu: servers[i].cpu_used, mem: servers[i].mem_used, disk: servers[i].disk_used },
    )
}

/// Every server reports no more used than it has.
pub open spec fn usage_consistent(servers: Seq<RespGetServerInfo>) -> bool {
    forall|i: int|
        0 <= i < servers.len() ==> #[trigger] servers[i].cpu_used <= servers[i].cpu_total
            && servers[i].mem_used <= servers[i].mem_total && servers[i].disk_used
            <= servers[i].disk_total
}

fn server_supports(s: &RespGetServerInfo, os: &[char]) -> (r: bool)
    ensures
        r == supports(*s, os@),
{
    let mut k: usize = 0;
    while k < s.supported_list.len()
        invariant
            k <= s.supported_list@.len(),
            forall|j: int| 0 <= j < k ==> #[trigger] s.supported_list@[j]@ != os@,
        decreases s.supported_list@.len() - k,
    {
        if chars_eq(&chars_of(s.supported_list[k].as_str()), os) {
            return true;
        }
        k = k + 1;
    }
    false
}

/// The systems each of `n` servers gets when the system `oses[i]` goes
/// to server `idx[i]`: for every server, its systems in order.
pub open spec fn jobs_of(n: int, oses: Seq<Seq<char>>, idx: Seq<int>) -> Seq<Seq<Seq<char>>>
    decreases oses.len(),
{
    if oses.len() == 0 || idx.len() == 0 {
        Seq::new(n as nat, |s: int| Seq::<Seq<char>>::empty())
    } else {
        let prev = jobs_of(n, oses.drop_last(), idx.drop_last());
        let t = idx.last();
        if 0 <= t < n {
            prev.update(t, prev[t].push(oses.last()))
        } else {
            prev
        }
    }
}

proof fn lemma_jobs_len(n: int, oses: Seq<Seq<char>>, idx: Seq<int>)
    requires
        n >= 0,
    ensures
        jobs_of(n, oses, idx).len() == n,
    decreases oses.len(),
{
    if oses.len() > 0 && idx.len() > 0 {
        lemma_jobs_len(n, oses.drop_last(), idx.drop_last());
    }
}

proof fn lemma_jobs_step(n: int, names: Seq<Seq<char>>, idx: Seq<int>, t: int)
    requires
        0 <= t < n,
        names.len() > 0,
        idx.len() > 0,
        idx.last() == t,
    ensures
        jobs_of(n, names, idx) == jobs_of(n, names.drop_last(), idx.drop_last()).update(
            t,
            jobs_of(n, names.drop_last(), idx.drop_last())[t].push(names.last()),
        ),
{
}

/// The server that takes the system `os`, or none.
fn find_taker(
    servers: &[RespGetServerInfo],
    usage: &Vec<Usage>,
    os: &[char],
    cpu: u32,
    mem: u32,
    disk: u32,
) -> (r: Option<usize>)
    requires
        servers@.len() == usage@.len(),
        forall|t: int|
            0 <= t < servers@.len() ==> #[trigger] usage@[t].cpu <= servers@[t].cpu_total
                && usage@[t].mem <= servers@[t].mem_total && usage@[t].disk
                <= servers@[t].disk_total,
    ensures
        match r {
            Some(k) => taker(servers@, usage@, os@, cpu as int, mem as int, disk as int) == Some(
                k as int,
            ),
            None => taker(servers@, usage@, os@, cpu as int, mem as int, disk as int) is None,
        },
{
    let mut s: usize = 0;
    while s < servers.len()
        invariant
            s <= servers@.len(),
            servers@.len() == usage@.len(),
            forall|j: int|
                0 <= j < s ==> !(supports(#[trigger] servers@[j], os@) && has_room(
                    servers@[j],
                    usage@[j],
                    cpu as int,
                    mem as int,
                    disk as int,
                )),
            forall|t: int|
                0 <= t < servers@.len() ==> #[trigger] usage@[t].cpu <= servers@[t].cpu_total
                    && usage@[t].mem <= servers@[t].mem_total && usage@[t].disk
                    <= servers@[t].disk_total,
        decreases servers@.len() - s,
    {
        let sv = &servers[s];
        let u = &usage[s];
        if server_supports(sv, os) && sv.cpu_total - u.cpu >= cpu && sv.mem_total - u.mem >= mem
            && sv.disk_total - u.disk >= disk {
            proof {
                let w = s as int;
                assert(supports(servers@[w], os@) && has_room(
                    servers@[w],
                    usage@[w],
                    cpu as int,
                    mem as int,
                    disk as int,
                ));
                let c = choose|k: int|
                    0 <= k < servers@.len() && supports(servers@[k], os@) && has_room(
                        servers@[k],
                        usage@[k],
                        cpu as int,
                        mem as int,
                        disk as int,
                    ) && forall|j: int|
                        0 <= j < k ==> !(supports(servers@[j], os@) && has_room(
                            servers@[j],
                            usage@[j],
                            cpu as int,
                            mem as int,
                            disk as int,
                        ));
                if c < w {
                } else if c > w {
                    assert(!(supports(servers@[w], os@) && has_room(
                        servers@[w],
                        usage@[w],
                        cpu as int,
                        mem as int,
                        disk as int,
                    )));
                }
            }
            return Some(s);
        }
        s = s + 1;
    }
    None
}

/// Whether every server reports no more used than it has (`split_env`
/// requires it).
pub fn usage_is_consistent(servers: &[RespGetServerInfo]) -> (r: bool)
    ensures
        r == usage_consistent(servers@),
{
    let mut i: usize = 0;
    while i < servers.len()
        invariant
            i <= servers@.len(),
            forall|k: int|
                0 <= k < i ==> #[trigger] servers@[k].cpu_used <= servers@[k].cpu_total
                    && servers@[k].mem_used <= servers@[k].mem_total && servers@[k].disk_used
                    <= servers@[k].disk_total,
        decreases servers@.len() - i,
    {
        let s = &servers[i];
        if !(s.cpu_used <= s.cpu_total && s.mem_used <= s.mem_total && s.disk_used <= s.disk_total) {
            return false;
        }
        i = i + 1;
    }
    true
}

/// Split a new environment's systems across the servers: each system goes
/// to the first server that supports it and still has room for its
/// `1 + dup_each` VMs. The result lists, for every server in order, the
/// systems it gets, or is `None` ("Resource busy!") when some system
/// finds no server.
#[verifier::rlimit(50)]
#[verifier::spinoff_prover]
pub fn split_env(
    servers: &[RespGetServerInfo],
    oses: &[String],
    cpu_num: u32,
    mem_size: u32,
    disk_size: u32,
    dup_each: u32,
) -> (r: Option<Vec<Vec<String>>>)
    requires
        usage_consistent(servers@),
        need_of(cpu_num, dup_each) <= u32::MAX,
        need_of(mem_size, dup_each) <= u32::MAX,
        need_of(disk_size, dup_each) <= u32::MAX,
    ensures
        match split(
            servers@,
            reported_usage(servers@),
            views(oses@),
            need_of(cpu_num, dup_each),
            need_of(mem_size, dup_each),
            need_of(disk_size, dup_each),
        ) {
            None => r is None,
            Some(idx) => r matches Some(jobs) && jobs@.len() == servers@.len() && forall|s: int|
                0 <= s < jobs@.len() ==> views(#[trigger] jobs@[s]@) == jobs_of(
                    servers@.len() as int,
                    views(oses@),
                    idx,
                )[s],
        },
{
    let factor: u64 = 1 + dup_each as u64;
    let cpu: u32 = (cpu_num as u64 * factor) as u32;
    let mem: u32 = (mem_size as u64 * factor) as u32;
    let disk: u32 = (disk_size as u64 * factor) as u32;
    proof {
        assert(cpu_num as u64 * factor == need_of(cpu_num, dup_each)) by (nonlinear_arith)
            requires
                factor == 1 + dup_each,
        ;
        assert(mem_size as u64 * factor == need_of(mem_size, dup_each)) by (nonlinear_arith)
            requires
                factor == 1 + dup_each,
        ;
        assert(disk_size as u64 * factor == need_of(disk_size, dup_each)) by (nonlinear_arith)
            requires
                factor == 1 + dup_each,
        ;
    }
    let n = servers.len();
    let mut usage: Vec<Usage> = Vec::new();
    let mut jobs: Vec<Vec<String>> = Vec::new();
    let mut i: usize = 0;
    while i < n
        invariant
            n == servers@.len(),
            i <= n,
            usage@ == reported_usage(servers@).take(i as int),
            jobs@.len() == i,
            forall|s: int| 0 <= s < i ==> (#[trigger] jobs@[s])@.len() == 0,
        decreases n - i,
    {
        usage.push(
            Usage { cpu: servers[i].cpu_used, mem: servers[i].mem_used, disk: servers[i].disk_used },
        );
        jobs.push(Vec::new());
        i = i + 1;
        assert(usage@ =~= reported_usage(servers@).take(i as int));
    }
    assert(usage@ =~= reported_usage(servers@));
    let ghost u0 = usage@;
    let ghost names = views(oses@);
    let ghost mut idx: Seq<int> = Seq::empty();
    proof {
        assert(names.skip(0) =~= names);
        match split(servers@, u0, names, cpu as int, mem as int, disk as int) {
            Some(rest) => {
                assert(Seq::<int>::empty() + rest =~= rest);
            },
            None => {},
        }
        assert forall|s: int| 0 <= s < n implies views(#[trigger] jobs@[s]@) == jobs_of(
            n as int,
            names.take(0),
            idx,
        )[s] by {
            assert(views(jobs@[s]@) =~= Seq::<Seq<char>>::empty());
        }
    }
    let mut k: usize = 0;
    while k < oses.len()
        invariant
            u0 == reported_usage(servers@),
            cpu as int == need_of(cpu_num, dup_each),
            mem as int == need_of(mem_size, dup_each),
            disk as int == need_of(disk_size, dup_each),
            n == servers@.len(),
            n == usage@.len(),
            n == jobs@.len(),
            names == views(oses@),
            k <= oses@.len(),
            idx.len() == k,
            forall|j: int| 0 <= j < k ==> 0 <= #[trigger] idx[j] < n,
            forall|t: int|
                0 <= t < n ==> #[trigger] usage@[t].cpu <= servers@[t].cpu_total && usage@[t].mem
                    <= servers@[t].mem_total && usage@[t].disk <= servers@[t].disk_total,
            forall|s: int|
                0 <= s < n ==> views(#[trigger] jobs@[s]@) == jobs_of(
                    n as int,
                    names.take(k as int),
                    idx,
                )[s],
            split(servers@, u0, names, cpu as int, mem as int, disk as int) == match split(
                servers@,
                usage@,
                names.skip(k as int),
                cpu as int,
                mem as int,
                disk as int,
            ) {
                Some(rest) => Some(idx + rest),
                None => None::<Seq<int>>,
            },
        decreases oses@.len() - k,
    {
        let os = chars_of(oses[k].as_str());
        let ghost rest_names = names.skip(k as int);
        assert(rest_names[0] == names[k as int]);
        assert(rest_names.drop_first() =~= names.skip(k as int + 1));
        match find_taker(servers, &usage, &os, cpu, mem, disk) {
            None => {
                proof {
                    assert(split(servers@, usage@, rest_names, cpu as int, mem as int, disk as int) is None);
                }
                return None;
            },
            Some(t) => {
                let ghost old_usage = usage@;
                let ghost old_jobs = jobs@;
                let u = Usage { cpu: usage[t].cpu + cpu, mem: usage[t].mem + mem, disk: usage[t].disk + disk };
                usage.set(t, u);
                assert(usage@ =~= old_usage.update(t as int, charged(old_usage[t as int], cpu as int, mem as int, disk as int)));
                let mut list = jobs.remove(t);
                list.push(oses[k].clone());
                jobs.insert(t, list);
                proof {
                    let ni = idx.push(t as int);
                    match split(servers@, usage@, names.skip(k as int + 1), cpu as int, mem as int, disk as int) {
                        Some(rest) => {
                            assert(seq![t as int] + rest =~= Seq::<int>::empty().push(t as int) + rest);
                            assert(idx + (seq![t as int] + rest) =~= ni + rest);
                        },
                        None => {},
                    }
                    let tk = names.take(k as int + 1);
                    assert(tk.drop_last() =~= names.take(k as int));
                    assert(tk.last() == names[k as int]);
                    assert(ni.drop_last() =~= idx);
                    lemma_jobs_len(n as int, names.take(k as int), idx);
                    lemma_jobs_step(n as int, tk, ni, t as int);
                    assert forall|s: int| 0 <= s < n implies views(#[trigger] jobs@[s]@) == jobs_of(
                        n as int,
                        tk,
                        ni,
                    )[s] by {
                        if s == t {
                            assert(views(jobs@[s]@) =~= views(old_jobs[s]@).push(names[k as int]));
                        } else {
                            assert(jobs@[s] == old_jobs[s]);
                        }
                    }
                    idx = ni;
                }
                k = k + 1;
            },
        }
    }
    proof {
        assert(names.skip(k as int) =~= Seq::<Seq<char>>::empty());
        assert(idx + Seq::<int>::empty() =~= idx);
        assert(names.take(k as int) =~= names);
    }
    Some(jobs)
}

/// The servers that get systems, with their systems: the non-empty lists,
/// by server index.
pub open spec fn dispatch_of(jobs: Seq<Seq<Seq<char>>>) -> Seq<(int, Seq<Seq<char>>)>
    decreases jobs.len(),
{
    if jobs.len() == 0 {
        Seq::<(int, Seq<Seq<char>>)>::empty()
    } else {
        let rest = dispatch_of(jobs.drop_last());
        if jobs.last().len() > 0 {
            rest.push((jobs.len() - 1, jobs.last()))
        } else {
            rest
        }
    }
}

/// The requests to send: each server that gets systems, with them.
pub fn dispatch_list(jobs: Vec<Vec<String>>) -> (r: Vec<(usize, Vec<String>)>)
    ensures
        r@.len() == dispatch_of(Seq::new(jobs@.len(), |s: int| views(jobs@[s]@))).len(),
        forall|i: int|
            0 <= i < r@.len() ==> #[trigger] r@[i].0 as int == dispatch_of(
                Seq::new(jobs@.len(), |s: int| views(jobs@[s]@)),
            )[i].0 && views(r@[i].1@) == dispatch_of(
                Seq::new(jobs@.len(), |s: int| views(jobs@[s]@)),
            )[i].1,
{
    let ghost all = Seq::new(jobs@.len(), |s: int| views(jobs@[s]@));
    let mut r: Vec<(usize, Vec<String>)> = Vec::new();
    let n0 = jobs.len();
    let mut rest = jobs;
    let ghost orig = rest@;
    let mut i: usize = 0;
    while rest.len() > 0
        invariant
            n0 == orig.len(),
            i + rest@.len() == orig.len(),
            all == Seq::new(orig.len(), |s: int| views(orig[s]@)),
            rest@ == orig.skip(i as int),
            r@.len() == dispatch_of(all.take(i as int)).len(),
            forall|q: int|
                0 <= q < r@.len() ==> #[trigger] r@[q].0 as int == dispatch_of(all.take(i as int))[q].0
                    && views(r@[q].1@) == dispatch_of(all.take(i as int))[q].1,
        decreases rest@.len(),
    {
        let ghost old_rest = rest@;
        let list = rest.remove(0);
        proof {
            assert(list == orig[i as int]);
            assert(all.take(i as int + 1).drop_last() =~= all.take(i as int));
            assert(all.take(i as int + 1).last() == views(list@));
        }
        let ghost lv = views(list@);
        let ghost before = r@;
        proof {
            assert(lv == all[i as int]);
            let t = all.take(i as int + 1);
            if lv.len() > 0 {
                assert(dispatch_of(t) == dispatch_of(all.take(i as int)).push((i as int, lv)));
            } else {
                assert(dispatch_of(t) == dispatch_of(all.take(i as int)));
            }
        }
        if list.len() > 0 {
            r.push((i, list));
            assert(r@[r@.len() - 1].0 == i);
            assert(views(r@[r@.len() - 1].1@) == lv);
            assert(forall|q: int| 0 <= q < before.len() ==> r@[q] == before[q]);
        }
        i = i + 1;
        assert(rest@ =~= orig.skip(i as int));
    }
    assert(all.take(i as int) =~= all);
    r
}

/// Every system that the split places goes to a server that supports it.
pub proof fn lemma_split_supported(
    servers: Seq<RespGetServerInfo>,
    usage: Seq<Usage>,
    oses: Seq<Seq<char>>,
    cpu: int,
    mem: int,
    disk: int,
)
    requires
        usage.len() == servers.len(),
    ensures
        split(servers, usage, oses, cpu, mem, disk) matches Some(idx) ==> idx.len() == oses.len()
            && forall|i: int|
            0 <= i < idx.len() ==> 0 <= #[trigger] idx[i] < servers.len() && supports(
                servers[idx[i]],
                oses[i],
            ),
    decreases oses.len(),
{
    if oses.len() > 0 {
        match taker(servers, usage, oses[0], cpu, mem, disk) {
            None => {},
            Some(k) => {
                let u2 = usage.update(k, charged(usage[k], cpu, mem, disk));
                lemma_split_supported(servers, u2, oses.drop_first(), cpu, mem, disk);
                match split(servers, u2, oses.drop_first(), cpu, mem, disk) {
                    Some(rest) => {
                        let idx = seq![k] + rest;
                        assert forall|i: int| 0 <= i < idx.len() implies 0 <= #[trigger] idx[i]
                            < servers.len() && supports(servers[idx[i]], oses[i]) by {
                            if i > 0 {
                                assert(idx[i] == rest[i - 1]);
                                assert(oses[i] == oses.drop_first()[i - 1]);
                            }
                        }
                    },
                    None => {},
                }
            },
        }
    }
}

/// What the systems placed on server `k` take of one resource in total,
/// when system `j` goes to server `idx[j]` and each takes `need`.
pub open spec fn placed_need(idx: Seq<int>, k: int, need: int) -> int
    decreases idx.len(),
{
    if idx.len() == 0 {
        0
    } else {
        (if idx[0] == k { need } else { 0 }) + placed_need(idx.drop_first(), k, need)
    }
}

/// The systems placed at `idx` take, on every server, at most the CPU,
/// memory and disk it had left at `usage`.
pub open spec fn room_kept(
    servers: Seq<RespGetServerInfo>,
    usage: Seq<Usage>,
    idx: Seq<int>,
    cpu: int,
    mem: int,
    disk: int,
) -> bool {
    forall|k: int|
        0 <= k < servers.len() ==> {
            &&& #[trigger] placed_need(idx, k, cpu) <= servers[k].cpu_total - usage[k].cpu
            &&& placed_need(idx, k, mem) <= servers[k].mem_total - usage[k].mem
            &&& placed_need(idx, k, disk) <= servers[k].disk_total - usage[k].disk
        }
}

/// Every server keeps room for what the split puts on it: starting from
/// usage no higher than the totals, the systems placed on each server take
/// in total at most the CPU, memory and disk it had left.
#[verifier::spinoff_prover]
pub proof fn lemma_split_fits(
    servers: Seq<RespGetServerInfo>,
    usage: Seq<Usage>,
    oses: Seq<Seq<char>>,
    cpu: int,
    mem: int,
    disk: int,
)
    requires
        usage.len() == servers.len(),
        0 <= cpu,
        0 <= mem,
        0 <= disk,
        forall|k: int|
            0 <= k < servers.len() ==> #[trigger] usage[k].cpu <= servers[k].cpu_total
                && usage[k].mem <= servers[k].mem_total && usage[k].disk <= servers[k].disk_total,
    ensures
        split(servers, usage, oses, cpu, mem, disk) matches Some(idx) ==> room_kept(
            servers,
            usage,
            idx,
            cpu,
            mem,
            disk,
        ),
    decreases oses.len(),
{
    if oses.len() == 0 {
        assert forall|k: int| 0 <= k < servers.len() implies {
            &&& #[trigger] placed_need(Seq::<int>::empty(), k, cpu) <= servers[k].cpu_total
                - usage[k].cpu
            &&& placed_need(Seq::<int>::empty(), k, mem) <= servers[k].mem_total - usage[k].mem
            &&& placed_need(Seq::<int>::empty(), k, disk) <= servers[k].disk_total
                - usage[k].disk
        } by {
            assert(usage[k].cpu <= servers[k].cpu_total);
        }
        assert(room_kept(servers, usage, Seq::<int>::empty(), cpu, mem, disk));
    } else {
        match taker(servers, usage, oses[0], cpu, mem, disk) {
            None => {},
            Some(t) => {
                assert(0 <= t < servers.len() && has_room(servers[t], usage[t], cpu, mem, disk));
                let u2 = usage.update(t, charged(usage[t], cpu, mem, disk));
                assert forall|k: int| 0 <= k < servers.len() implies #[trigger] u2[k].cpu
                    <= servers[k].cpu_total && u2[k].mem <= servers[k].mem_total && u2[k].disk
                    <= servers[k].disk_total by {
                    if k != t {
                        assert(u2[k] == usage[k]);
                    }
                }
                lemma_split_fits(servers, u2, oses.drop_first(), cpu, mem, disk);
                match split(servers, u2, oses.drop_first(), cpu, mem, disk) {
                    Some(rest) => {
                        let idx = seq![t] + rest;
                        assert(idx.drop_first() =~= rest);
                        assert(room_kept(servers, u2, rest, cpu, mem, disk));
                        assert forall|k: int| 0 <= k < servers.len() implies {
                            &&& #[trigger] placed_need(idx, k, cpu) <= servers[k].cpu_total
                                - usage[k].cpu
                            &&& placed_need(idx, k, mem) <= servers[k].mem_total - usage[k].mem
                            &&& placed_need(idx, k, disk) <= servers[k].disk_total - usage[k].disk
                        } by {
                            assert(placed_need(rest, k, cpu) <= servers[k].cpu_total - u2[k].cpu);
                            if k != t {
                                assert(u2[k] == usage[k]);
                            }
                        }
                        assert(room_kept(servers, usage, idx, cpu, mem, disk));
                    },
                    None => {},
                }
            },
        }
    }
}

/// What `split_env` asks of the servers fits them: when every server
/// reports no more used than it has, the systems the split places on each
/// server take in total, at `size * (1 + dup_each)` apiece, at most the
/// CPU, memory and disk that server reported free.
pub proof fn lemma_split_env_fits(
    servers: Seq<RespGetServerInfo>,
    oses: Seq<Seq<char>>,
    cpu_num: u32,
    mem_size: u32,
    disk_size: u32,
    dup_each: u32,
)
    requires
        usage_consistent(servers),
    ensures
        split(
            servers,
            reported_usage(servers),
            oses,
            need_of(cpu_num, dup_each),
            need_of(mem_size, dup_each),
            need_of(disk_size, dup_each),
        ) matches Some(idx) ==> forall|k: int|
            0 <= k < servers.len() ==> {
                &&& #[trigger] placed_need(idx, k, cpu_num * (1 + dup_each))
                    <= servers[k].cpu_total - servers[k].cpu_used
                &&& placed_need(idx, k, mem_size * (1 + dup_each)) <= servers[k].mem_total
                    - servers[k].mem_used
                &&& placed_need(idx, k, disk_size * (1 + dup_each)) <= servers[k].disk_total
                    - servers[k].disk_used
            },
{
    let u = reported_usage(servers);
    assert(cpu_num * (1 + dup_each) >= 0) by (nonlinear_arith);
    assert(mem_size * (1 + dup_each) >= 0) by (nonlinear_arith);
    assert(disk_size * (1 + dup_each) >= 0) by (nonlinear_arith);
    assert forall|k: int| 0 <= k < servers.len() implies #[trigger] u[k].cpu
        <= servers[k].cpu_total && u[k].mem <= servers[k].mem_total && u[k].disk
        <= servers[k].disk_total by {
        assert(servers[k].cpu_used <= servers[k].cpu_total);
    }
    lemma_split_fits(
        servers,
        u,
        oses,
        need_of(cpu_num, dup_each),
        need_of(mem_size, dup_each),
        need_of(disk_size, dup_each),
    );
}

// ── Replies and operations ──────────────────────────────────────────

/// Whether an operation succeeded.
#[derive(PartialEq, Eq, Structural)]
pub enum RetStatus {
    Fail,
    Success,
}

impl RetStatus {
    /// The status word: `Fail` or `Success`.
    pub fn to_string(&self) -> (s: String)
        ensures
            s@ == match self {
                RetStatus::Fail => "Fail"@,
                RetStatus::Success => "Success"@,
            },
    {
        match self {
            RetStatus::Fail => String::from_str("Fail"),
            RetStatus::Success => String::from_str("Success"),
        }
    }
}

/// Length of the operation id that prefixes every request.
pub const OPS_ID_LEN: usize = 4;

/// The operation id a request starts with, read as a decimal number.
pub fn parse_ops_id(raw: &str) -> (r: Option<usize>)
    ensures
        match r {
            Some(v) => crate::num::parse_u64(raw@) == Some(v as u64),
            None => crate::num::parse_u64(raw@) is None || crate::num::parse_u64(raw@).unwrap() > usize::MAX,
        },
{
    match crate::num::parse_u64_chars(&chars_of(raw)) {
        Some(v) => if v <= usize::MAX as u64 {
            Some(v as usize)
        } else {
            None
        },
        None => None,
    }
}


// ── Systems to place ────────────────────────────────────────────────

/// All systems the servers support, server by server, each list in order.
pub open spec fn all_supported(servers: Seq<RespGetServerInfo>) -> Seq<Seq<char>>
    decreases servers.len(),
{
    if servers.len() == 0 {
        Seq::<Seq<char>>::empty()
    } else {
        all_supported(servers.drop_last()) + views(servers.last().supported_list@)
    }
}

/// `s` without repeats, each item where it first occurs.
pub open spec fn dedup(s: Seq<Seq<char>>) -> Seq<Seq<char>>
    decreases s.len(),
{
    if s.len() == 0 {
        s
    } else {
        let d = dedup(s.drop_last());
        if d.contains(s.last()) {
            d
        } else {
            d.push(s.last())
        }
    }
}

/// Whether a system name starts with one of the requested prefixes, each
/// taken in lowercase.
pub open spec fn matches_prefix(os: Seq<char>, prefixes: Seq<Seq<char>>) -> bool {
    exists|k: int| 0 <= k < prefixes.len() && starts_with(os, crate::text::std_lowercase(#[trigger] prefixes[k]))
}

/// The systems a new environment asks for: every supported system (once)
/// whose name starts with a requested prefix.
pub open spec fn requested_systems(servers: Seq<RespGetServerInfo>, prefixes: Seq<Seq<char>>) -> Seq<Seq<char>> {
    dedup(all_supported(servers)).filter(|os: Seq<char>| matches_prefix(os, prefixes))
}

/// The systems a new environment asks for, in the order the servers list
/// them.
pub fn requested_oses(servers: &[RespGetServerInfo], prefixes: &[String]) -> (v: Vec<String>)
    ensures
        views(v@) == requested_systems(servers@, views(prefixes@)),
{
    let mut lowered: Vec<Vec<char>> = Vec::new();
    let mut p: usize = 0;
    while p < prefixes.len()
        invariant
            p <= prefixes@.len(),
            lowered@.len() == p,
            forall|k: int| 0 <= k < p ==> #[trigger] lowered@[k]@ == crate::text::std_lowercase(prefixes@[k]@),
        decreases prefixes@.len() - p,
    {
        lowered.push(chars_of(crate::text::to_lowercase(prefixes[p].as_str()).as_str()));
        p = p + 1;
    }
    let ghost pre = views(prefixes@);
    // every supported system once, in first-seen order
    let mut seen: Vec<String> = Vec::new();
    let mut i: usize = 0;
    while i < servers.len()
        invariant
            i <= servers@.len(),
            views(seen@) == dedup(all_supported(servers@.take(i as int))),
        decreases servers@.len() - i,
    {
        let list = &servers[i].supported_list;
        let ghost base = all_supported(servers@.take(i as int));
        proof {
            assert(servers@.take(i as int + 1).drop_last() =~= servers@.take(i as int));
            assert(servers@.take(i as int + 1).last() == servers@[i as int]);
        }
        let mut j: usize = 0;
        while j < list.len()
            invariant
                j <= list@.len(),
                views(seen@) == dedup(base + views(list@).take(j as int)),
            decreases list@.len() - j,
        {
            let ghost cur = base + views(list@).take(j as int);
            let ghost nxt = base + views(list@).take(j as int + 1);
            proof {
                assert(nxt.drop_last() =~= cur);
                assert(nxt.last() == list@[j as int]@);
            }
            let name = chars_of(list[j].as_str());
            let mut q: usize = 0;
            let mut dup = false;
            while q < seen.len()
                invariant
                    q <= seen@.len(),
                    name@ == list@[j as int]@,
                    dup == exists|r: int| 0 <= r < q && #[trigger] seen@[r]@ == name@,
                decreases seen@.len() - q,
            {
                if chars_eq(&chars_of(seen[q].as_str()), &name) {
                    dup = true;
                }
                q = q + 1;
            }
            proof {
                let d = views(seen@);
                if dup {
                    let r = choose|r: int| 0 <= r < seen@.len() && #[trigger] seen@[r]@ == name@;
                    assert(d[r] == name@);
                    assert(d.contains(name@));
                } else {
                    assert forall|r: int| 0 <= r < d.len() implies d[r] != name@ by {
                        assert(d[r] == seen@[r]@);
                    }
                }
            }
            if !dup {
                let ghost before = seen@;
                seen.push(list[j].clone());
                assert(views(seen@) =~= views(before).push(list@[j as int]@));
            }
            j = j + 1;
        }
        assert(views(list@).take(j as int) =~= views(list@));
        assert(all_supported(servers@.take(i as int + 1)) == base + views(list@));
        i = i + 1;
    }
    assert(servers@.take(i as int) =~= servers@);
    // keep those that match a requested prefix
    let mut out: Vec<String> = Vec::new();
    let mut k: usize = 0;
    let ghost d = views(seen@);
    while k < seen.len()
        invariant
            d == views(seen@),
            pre == views(prefixes@),
            lowered@.len() == prefixes@.len(),
            forall|m: int| 0 <= m < lowered@.len() ==> #[trigger] lowered@[m]@ == crate::text::std_lowercase(prefixes@[m]@),
            k <= seen@.len(),
            views(out@) == d.take(k as int).filter(|os: Seq<char>| matches_prefix(os, pre)),
        decreases seen@.len() - k,
    {
        let name = chars_of(seen[k].as_str());
        let mut m: usize = 0;
        let mut hit = false;
        while m < lowered.len()
            invariant
                m <= lowered@.len(),
                name@ == d[k as int],
                hit == exists|r: int| 0 <= r < m && starts_with(name@, #[trigger] lowered@[r]@),
            decreases lowered@.len() - m,
        {
            if starts_with_exec(&name, &lowered[m]) {
                hit = true;
            }
            m = m + 1;
        }
        proof {
            if hit {
                let r = choose|r: int| 0 <= r < m && starts_with(name@, #[trigger] lowered@[r]@);
                assert(pre[r] == prefixes@[r]@);
                assert(matches_prefix(d[k as int], pre));
            } else {
                assert forall|r: int| 0 <= r < pre.len() implies !starts_with(d[k as int], crate::text::std_lowercase(#[trigger] pre[r])) by {
                    assert(pre[r] == prefixes@[r]@);
                    assert(lowered@[r]@ == crate::text::std_lowercase(prefixes@[r]@));
                }
            }
            let t = d.take(k as int + 1);
            assert(t =~= d.take(k as int).push(d[k as int]));
            d.take(k as int).lemma_filter_push(d[k as int], |os: Seq<char>| matches_prefix(os, pre));
        }
        let ghost before = out@;
        if hit {
            out.push(seen[k].clone());
            assert(views(out@) =~= views(before).push(d[k as int]));
        }
        k = k + 1;
    }
    assert(d.take(k as int) =~= d);
    out
}


/// The request id used when a request's own id cannot be read.
pub const DEFAULT_REQ_ID: u64 = 0xffff_ffff_ffff_ffff;

/// A reply to a client.
pub struct Resp {
    pub uuid: u64,
    pub status: RetStatus,
    /// The message body: a serialized value on success, the error text on
    /// failure.
    pub msg: Vec<u8>,
}

/// A success reply carrying the serialized message `msg`.
pub fn gen_resp_ok(uuid: u64, msg: Vec<u8>) -> (r: Resp)
    ensures
        r.uuid == uuid,
        r.status == RetStatus::Success,
        r.msg == msg,
{
    Resp { uuid, status: RetStatus::Success, msg }
}

/// A failure reply carrying the error text `msg` (as UTF-8).
pub fn gen_resp_err(uuid: u64, msg: &str) -> (r: Resp)
    ensures
        r.uuid == uuid,
        r.status == RetStatus::Fail,
        r.msg@ == vstd::utf8::encode_utf8(msg@),
{
    let b = msg.as_bytes();
    let mut v: Vec<u8> = Vec::new();
    let mut i: usize = 0;
    while i < b.len()
        invariant
            b@ == vstd::utf8::encode_utf8(msg@),
            i <= b@.len(),
            v@ == b@.subrange(0, i as int),
        decreases b@.len() - i,
    {
        v.push(b[i]);
        i = i + 1;
        assert(v@ =~= b@.subrange(0, i as int));
    }
    assert(v@ =~= b@);
    Resp { uuid, status: RetStatus::Fail, msg: v }
}

} // verus!
