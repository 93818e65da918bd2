//! Host agent configuration and resource auto-detection.

use vstd::prelude::*;
use crate::model::{parse_storage, Storage};
use crate::num::{parse_u64, parse_u64_chars};
use crate::text::{chars_of, first_starting_with, lemma_first_starting_with, lines, lines_of, starts_with, starts_with_exec, words, words_of};

verus! {

/// TTstack host agent settings (the agent's command line).
#[derive(Debug, Clone)]
pub struct Config {
    /// Listen address for the HTTP API.
    pub listen: String,
    /// Directory containing base VM/container images.
    pub image_dir: String,
    /// Directory for runtime VM image clones.
    pub runtime_dir: String,
    /// Directory for persistent state (SQLite database).
    pub data_dir: String,
    /// Storage backend: zfs, btrfs, or raw.
    pub storage: String,
    /// Total CPU cores available for VMs (0 = auto-detect).
    pub cpu_total: u32,
    /// Total memory for VMs in MiB (0 = auto-detect).
    pub mem_total: u32,
    /// Total disk for VMs in MiB.
    pub disk_total: u32,
    /// Unique host identifier (auto-generated if not set).
    pub host_id: Option<String>,
    /// API key for authentication.
    pub api_key: Option<String>,
}

/// CPU cores used when the count cannot be detected.
pub const CPU_FALLBACK: u32 = 4;
/// Memory in MiB used when the total cannot be detected.
pub const MEM_FALLBACK: u32 = 8192;

impl Config {
    /// The configured storage backend; an unknown name means raw.
    pub fn storage_kind(&self) -> (s: Storage)
        ensures
            s == match parse_storage(self.storage@) {
                Some(k) => k,
                None => Storage::Raw,
            },
    {
        match Storage::parse(self.storage.as_str()) {
            Ok(k) => k,
            Err(_) => Storage::Raw,
        }
    }

    /// CPU cores for VMs: the configured count, or when it is 0 the
    /// detected parallelism (`detected`), or 4 when detection failed.
    pub fn effective_cpu(&self, detected: Option<usize>) -> (r: u32)
        ensures
            r == if self.cpu_total == 0 {
                match detected {
                    Some(n) => n as u32,
                    None => CPU_FALLBACK,
                }
            } else {
                self.cpu_total
            },
    {
        if self.cpu_total == 0 {
            match detected {
                Some(n) => n as u32,
                None => CPU_FALLBACK,
            }
        } else {
            self.cpu_total
        }
    }

    /// Memory in MiB for VMs: the configured amount, or when it is 0 the
    /// detected total (`detected`), or 8192 when detection failed.
    pub fn effective_mem(&self, detected: Option<u32>) -> (r: u32)
        ensures
            r == if self.mem_total == 0 {
                match detected {
                    Some(m) => m,
                    None => MEM_FALLBACK,
                }
            } else {
                self.mem_total
            },
    {
        if self.mem_total == 0 {
            match detected {
                Some(m) => m,
                None => MEM_FALLBACK,
            }
        } else {
            self.mem_total
        }
    }
}

/// Total memory in MiB that `/proc/meminfo` text reports: the second word
/// of the first line starting with `MemTotal:`, read as kB.
pub open spec fn mem_total_of(content: Seq<char>) -> Option<u32> {
    let ls = lines(content);
    match first_starting_with(ls, "MemTotal:"@) {
        None => None,
        Some(k) => {
            let w = words(ls[k]);
            if w.len() < 2 {
                None
            } else {
                match parse_u64(w[1]) {
                    Some(kb) => Some((kb / 1024) as u32),
                    None => None,
                }
            }
        },
    }
}

/// Parse MemTotal from /proc/meminfo content.
pub fn parse_mem_total(content: &str) -> (r: Option<u32>)
    ensures
        r == mem_total_of(content@),
{
    let cs = chars_of(content);
    let ls = lines_of(&cs);
    let prefix = chars_of("MemTotal:");
    let mut i: usize = 0;
    while i < ls.len()
        invariant
            prefix@ == "MemTotal:"@,
            cs@ == content@,
            ls@.len() == lines(content@).len(),
            forall|k: int| 0 <= k < ls@.len() ==> #[trigger] ls@[k]@ == lines(content@)[k],
            i <= ls@.len(),
            forall|k: int| 0 <= k < i ==> !starts_with(#[trigger] lines(content@)[k], "MemTotal:"@),
        decreases ls@.len() - i,
    {
        if starts_with_exec(&ls[i], &prefix) {
            proof {
                lemma_first_starting_with(lines(content@), "MemTotal:"@, i as int);
            }
            let w = words_of(&ls[i]);
            if w.len() < 2 {
                return None;
            }
            return match parse_u64_chars(&w[1]) {
                Some(kb) => Some((kb / 1024) as u32),
                None => None,
            };
        }
        i = i + 1;
    }
    proof {
        lemma_first_starting_with(lines(content@), "MemTotal:"@, i as int);
    }
    None
}


/// Total memory in MiB from the byte count that `sysctl -n hw.physmem`
/// (or `hw.memsize`) prints, trimmed; `None` when it is not a number.
pub open spec fn sysctl_mem_of(text: Seq<char>) -> Option<u32> {
    match crate::num::parse_u64(crate::text::trim(text)) {
        Some(bytes) => Some(#[verifier::truncate] ((bytes / 1048576u64) as u32)),
        None => None,
    }
}

/// Total memory in MiB from `sysctl` output.
pub fn parse_sysctl_mem(text: &str) -> (r: Option<u32>)
    ensures
        r == sysctl_mem_of(text@),
{
    let t = crate::text::trim_ws(&crate::text::chars_of(text));
    match crate::num::parse_u64_chars(&t) {
        Some(bytes) => Some(#[verifier::truncate] ((bytes / (1024 * 1024)) as u32)),
        None => None,
    }
}

} // verus!
