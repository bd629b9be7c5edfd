//! Verified core of an AI tool-execution plane built on micro-VMs: the shared
//! contract types, the capability policy gate, the host/guest wire framing,
//! the VM lifecycle rules and the slot pool that leases VMs to requests.

pub mod types;
pub mod wire;
pub mod text;
pub mod error;
pub mod lifecycle;
pub mod tcb;
pub mod capability;
pub mod profile;
pub mod protocol;
pub mod backend;
pub mod runtime;
pub mod pool;
pub mod policy;
pub mod snapshot;
pub mod cli;
pub mod fs_tool;
