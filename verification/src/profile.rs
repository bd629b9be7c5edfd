//! A VM profile: backend, images, sizes, capabilities and snapshot policy.
use crate::capability::CapabilitySet;
use crate::types::BackendKind;
use std::collections::BTreeMap;
use vstd::prelude::*;

verus! {

#[derive(Debug, Clone, Copy, PartialEq, Eq, Structural)]
pub enum SnapshotPolicy {
    Never,
    GoldenOnly,
    GoldenPlusWarmPool,
    Persistent,
}

#[derive(Debug, Clone, PartialEq, Eq)]
pub struct VmProfile {
    pub name: String,
    pub backend: BackendKind,
    pub kernel: String,
    pub rootfs: String,
    pub vcpu: u8,
    pub mem_mib: u16,
    pub timeout_ms: u32,
    pub capabilities: CapabilitySet,
    pub snapshot_policy: SnapshotPolicy,
    pub labels: BTreeMap<String, String>,
}

} // verus!
