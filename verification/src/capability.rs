//! What a VM may do: network, paths, process and file limits, syscalls.
use vstd::prelude::*;

verus! {

#[derive(Debug, Clone, PartialEq, Eq)]
pub struct CapabilitySet {
    pub net: bool,
    pub write_paths: Vec<String>,
    pub read_paths: Vec<String>,
    pub max_processes: u32,
    pub max_open_files: u32,
    pub allow_syscalls: Vec<String>,
    pub deny_syscalls: Vec<String>,
}

impl CapabilitySet {
    /// The tightest capability set: no network, no extra processes.
    pub fn minimal() -> (c: Self)
        ensures
            !c.net,
            c.write_paths@.len() == 0,
            c.read_paths@.len() == 0,
            c.max_processes == 1,
            c.max_open_files == 16,
            c.allow_syscalls@.len() == 0,
            c.deny_syscalls@.len() == 0,
    {
        CapabilitySet {
            net: false,
            write_paths: Vec::new(),
            read_paths: Vec::new(),
            max_processes: 1,
            max_open_files: 16,
            allow_syscalls: Vec::new(),
            deny_syscalls: Vec::new(),
        }
    }
}

} // verus!
