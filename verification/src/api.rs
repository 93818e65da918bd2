//! API request and response types shared between all components.

use vstd::prelude::*;
use vstd::string::StringExecFns;
use crate::model::{Engine, Env, Resource, Storage, Vm, VM_CPU_DEFAULT, VM_DISK_DEFAULT, VM_MEM_DEFAULT};

verus! {

// ── Agent API (controller → agent) ─────────────────────────────────

/// Request to create a VM on an agent.
#[derive(Debug, Clone)]
pub struct CreateVmReq {
    pub vm_id: String,
    pub env_id: String,
    pub image: String,
    pub engine: Engine,
    pub cpu: u32,
    pub mem: u32,
    pub disk: u32,
    pub ports: Vec<u16>,
    pub deny_outgoing: bool,
}

/// Response from agent after creating a VM.
#[derive(Debug, Clone)]
pub struct CreateVmResp {
    pub vm: Vm,
}

/// Information reported by an agent about itself.
#[derive(Debug, Clone)]
pub struct AgentInfo {
    pub host_id: String,
    pub resource: Resource,
    pub engines: Vec<Engine>,
    pub storage: Storage,
    pub images: Vec<String>,
}

// ── Controller API (CLI → controller) ──────────────────────────────

/// Specification for a single VM to be created.
#[derive(Debug, Clone)]
pub struct VmSpec {
    pub image: String,
    pub engine: Engine,
    pub cpu: Option<u32>,
    pub mem: Option<u32>,
    pub disk: Option<u32>,
    pub ports: Vec<u16>,
    pub deny_outgoing: bool,
}

/// The engine a VM spec gets when none is given.
pub fn default_engine() -> (e: Engine)
    ensures
        e == Engine::Qemu,
{
    Engine::Qemu
}

/// An option's value, or the default when absent.
pub open spec fn or_default(v: Option<u32>, d: u32) -> u32 {
    match v {
        Some(x) => x,
        None => d,
    }
}

impl VmSpec {
    /// vCPUs the spec asks for (the default when unset).
    pub open spec fn spec_cpu(self) -> u32 {
        or_default(self.cpu, VM_CPU_DEFAULT)
    }

    /// Memory in MiB the spec asks for (the default when unset).
    pub open spec fn spec_mem(self) -> u32 {
        or_default(self.mem, VM_MEM_DEFAULT)
    }

    /// Disk in MiB the spec asks for (the default when unset).
    pub open spec fn spec_disk(self) -> u32 {
        or_default(self.disk, VM_DISK_DEFAULT)
    }

    /// vCPUs the spec asks for (the default when unset).
    pub fn cpu_or_default(&self) -> (r: u32)
        ensures
            r == self.spec_cpu(),
    {
        match self.cpu {
            Some(x) => x,
            None => VM_CPU_DEFAULT,
        }
    }

    /// Memory in MiB the spec asks for (the default when unset).
    pub fn mem_or_default(&self) -> (r: u32)
        ensures
            r == self.spec_mem(),
    {
        match self.mem {
            Some(x) => x,
            None => VM_MEM_DEFAULT,
        }
    }

    /// Disk in MiB the spec asks for (the default when unset).
    pub fn disk_or_default(&self) -> (r: u32)
        ensures
            r == self.spec_disk(),
    {
        match self.disk {
            Some(x) => x,
            None => VM_DISK_DEFAULT,
        }
    }

    /// A field-by-field copy.
    pub fn copy(&self) -> (r: VmSpec)
        ensures
            r.image@ == self.image@,
            r.engine == self.engine,
            r.cpu == self.cpu,
            r.mem == self.mem,
            r.disk == self.disk,
            r.ports@ == self.ports@,
            r.deny_outgoing == self.deny_outgoing,
    {
        let mut ports: Vec<u16> = Vec::new();
        let mut i: usize = 0;
        while i < self.ports.len()
            invariant
                i <= self.ports@.len(),
                ports@ == self.ports@.subrange(0, i as int),
            decreases self.ports@.len() - i,
        {
            ports.push(self.ports[i]);
            i = i + 1;
            assert(ports@ =~= self.ports@.subrange(0, i as int));
        }
        assert(ports@ =~= self.ports@);
        VmSpec {
            image: self.image.clone(),
            engine: self.engine,
            cpu: self.cpu,
            mem: self.mem,
            disk: self.disk,
            ports,
            deny_outgoing: self.deny_outgoing,
        }
    }
}

/// Request to create an environment with one or more VMs.
#[derive(Debug, Clone)]
pub struct CreateEnvReq {
    pub id: String,
    pub owner: String,
    pub vms: Vec<VmSpec>,
    /// Lifetime in seconds; `None` means use server default.
    pub lifetime: Option<u64>,
}

/// Full environment details returned to the CLI.
#[derive(Debug, Clone)]
pub struct EnvDetail {
    pub env: Env,
    pub vms: Vec<Vm>,
    /// Non-fatal warnings (e.g. VMs that failed to create).
    pub warnings: Vec<String>,
}

/// Host registration request from CLI or auto-discovery.
#[derive(Debug, Clone)]
pub struct RegisterHostReq {
    pub addr: String,
}

/// Summary of available images across the fleet.
#[derive(Debug, Clone)]
pub struct ImageInfo {
    pub name: String,
    pub host_id: String,
}

/// Global status of the fleet.
#[derive(Debug, Clone, Copy, PartialEq, Eq, Structural)]
pub struct FleetStatus {
    pub hosts: u32,
    pub hosts_online: u32,
    pub total_vms: u32,
    pub total_envs: u32,
    pub cpu_total: u32,
    pub cpu_used: u32,
    pub mem_total: u32,
    pub mem_used: u32,
    pub disk_total: u32,
    pub disk_used: u32,
}

// ── Generic API Wrapper ────────────────────────────────────────────

/// Standard API response envelope.
#[derive(Debug, Clone)]
pub struct ApiResp<T> {
    pub ok: bool,
    pub data: Option<T>,
    pub error: Option<String>,
}

impl<T> ApiResp<T> {
    /// A successful response carrying `data`.
    pub fn success(data: T) -> (r: Self)
        ensures
            r.ok,
            r.data == Some(data),
            r.error is None,
    {
        ApiResp { ok: true, data: Some(data), error: None }
    }

    /// A failed response carrying the message `msg`.
    pub fn err(msg: &str) -> (r: Self)
        ensures
            !r.ok,
            r.data is None,
            r.error matches Some(e) && e@ == msg@,
    {
        ApiResp { ok: false, data: None, error: Some(String::from_str(msg)) }
    }
}

/// Convenience for responses with no payload.
pub type ApiRespEmpty = ApiResp<()>;

impl ApiResp<()> {
    /// A successful response with no payload.
    pub fn ok() -> (r: Self)
        ensures
            r.ok,
            r.data is None,
            r.error is None,
    {
        ApiResp { ok: true, data: None, error: None }
    }
}

} // verus!
