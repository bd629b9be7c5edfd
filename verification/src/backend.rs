//! The driver interface to a hypervisor. Firecracker, libkrun, a process jail
//! or a mock all implement it; the pool and the runtime do not care which.
use crate::error::ToolError;
use crate::profile::VmProfile;
use crate::protocol::{CommandRequest, CommandResult};
use crate::types::VmId;
use vstd::prelude::*;

verus! {

#[derive(Debug, Clone, Copy, PartialEq, Eq, Structural)]
pub enum SnapshotKind {
    Golden,
    Warm,
    Debug,
}

#[derive(Debug, Clone, Copy)]
pub struct SnapshotOptions {
    pub kind: SnapshotKind,
}

#[derive(Debug, Clone, PartialEq, Eq)]
pub struct SnapshotRef {
    pub id: String,
    pub profile: String,
    pub content_id: String,
}

/// A backend is free in what it answers: nothing is assumed of its results.
pub trait MicroVmBackend: Send + Sync {
    fn create(&self, profile: &VmProfile) -> Result<VmId, ToolError>;

    fn stop(&self, vm_id: VmId) -> Result<(), ToolError>;

    fn destroy(&self, vm_id: VmId) -> Result<(), ToolError>;

    fn snapshot(&self, vm_id: VmId, opts: SnapshotOptions) -> Result<SnapshotRef, ToolError>;

    fn restore(&self, snap: SnapshotRef, profile: &VmProfile) -> Result<VmId, ToolError>;

    fn execute(&self, vm_id: VmId, req: CommandRequest) -> Result<CommandResult, ToolError>;
}

} // verus!
