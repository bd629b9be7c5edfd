use vstd::prelude::*;

verus! {

/// Identity of a VM. A newtype so that it is never mixed up with a plain `u64`.
#[derive(Debug, Clone, Copy, PartialEq, Eq, Hash, Structural)]
pub struct VmId(pub u64);

impl From<u64> for VmId {
    fn from(v: u64) -> (r: Self) {
        VmId(v)
    }
}

impl vstd::std_specs::convert::FromSpecImpl<u64> for VmId {
    open spec fn obeys_from_spec() -> bool {
        true
    }

    open spec fn from_spec(v: u64) -> Self {
        VmId(v)
    }
}

/// Lifecycle state of a VM, in the manner of a kernel's process states.
#[derive(Debug, Clone, Copy, PartialEq, Eq, Structural)]
pub enum VmState {
    Building,
    Warming,
    Ready,
    Leased,
    Running,
    Scrubbing,
    Snapshotting,
    Faulted,
    Paused,
    Destroyed,
}

/// The byte that stands for each state in a task control block.
pub open spec fn state_code(s: VmState) -> u8 {
    match s {
        VmState::Building => 0,
        VmState::Warming => 1,
        VmState::Ready => 2,
        VmState::Leased => 3,
        VmState::Running => 4,
        VmState::Scrubbing => 5,
        VmState::Snapshotting => 6,
        VmState::Faulted => 7,
        VmState::Paused => 8,
        VmState::Destroyed => 9,
    }
}

/// The state that a byte stands for, if any.
pub open spec fn state_of_code(v: u8) -> Option<VmState> {
    if v == 0 {
        Some(VmState::Building)
    } else if v == 1 {
        Some(VmState::Warming)
    } else if v == 2 {
        Some(VmState::Ready)
    } else if v == 3 {
        Some(VmState::Leased)
    } else if v == 4 {
        Some(VmState::Running)
    } else if v == 5 {
        Some(VmState::Scrubbing)
    } else if v == 6 {
        Some(VmState::Snapshotting)
    } else if v == 7 {
        Some(VmState::Faulted)
    } else if v == 8 {
        Some(VmState::Paused)
    } else if v == 9 {
        Some(VmState::Destroyed)
    } else {
        None
    }
}

impl VmState {
    pub fn to_u8(self) -> (r: u8)
        ensures
            r == state_code(self),
    {
        match self {
            VmState::Building => 0,
            VmState::Warming => 1,
            VmState::Ready => 2,
            VmState::Leased => 3,
            VmState::Running => 4,
            VmState::Scrubbing => 5,
            VmState::Snapshotting => 6,
            VmState::Faulted => 7,
            VmState::Paused => 8,
            VmState::Destroyed => 9,
        }
    }

    pub fn from_u8(v: u8) -> (r: Option<Self>)
        ensures
            r == state_of_code(v),
    {
        match v {
            0 => Some(VmState::Building),
            1 => Some(VmState::Warming),
            2 => Some(VmState::Ready),
            3 => Some(VmState::Leased),
            4 => Some(VmState::Running),
            5 => Some(VmState::Scrubbing),
            6 => Some(VmState::Snapshotting),
            7 => Some(VmState::Faulted),
            8 => Some(VmState::Paused),
            9 => Some(VmState::Destroyed),
            _ => None,
        }
    }
}

/// The name of a state, as `{:?}` shows it.
pub open spec fn state_name(s: VmState) -> Seq<char> {
    match s {
        VmState::Building => "Building"@,
        VmState::Warming => "Warming"@,
        VmState::Ready => "Ready"@,
        VmState::Leased => "Leased"@,
        VmState::Running => "Running"@,
        VmState::Scrubbing => "Scrubbing"@,
        VmState::Snapshotting => "Snapshotting"@,
        VmState::Faulted => "Faulted"@,
        VmState::Paused => "Paused"@,
        VmState::Destroyed => "Destroyed"@,
    }
}

impl VmState {
    /// The state's name, as `{:?}` shows it.
    pub fn name(self) -> (r: &'static str)
        ensures
            r@ == state_name(self),
    {
        match self {
            VmState::Building => "Building",
            VmState::Warming => "Warming",
            VmState::Ready => "Ready",
            VmState::Leased => "Leased",
            VmState::Running => "Running",
            VmState::Scrubbing => "Scrubbing",
            VmState::Snapshotting => "Snapshotting",
            VmState::Faulted => "Faulted",
            VmState::Paused => "Paused",
            VmState::Destroyed => "Destroyed",
        }
    }
}

/// Every state survives the trip through its byte.
pub proof fn lemma_state_code_roundtrip(s: VmState)
    ensures
        state_of_code(state_code(s)) == Some(s),
        state_code(s) <= 9,
{
}

/// A byte names a state exactly when it is at most 9, and then naming it
/// and taking the state's byte gives the byte back.
pub proof fn lemma_code_state_roundtrip(v: u8)
    ensures
        state_of_code(v) is Some <==> v <= 9,
        state_of_code(v) matches Some(s) ==> state_code(s) == v,
{
}

/// Kind of execution backend; the router picks one.
#[derive(Debug, Clone, Copy, PartialEq, Eq, Hash, Structural)]
pub enum BackendKind {
    Wasm,
    ProcessJail,
    Firecracker,
    Libkrun,
    Remote,
}

/// The name of a backend kind, as `{:?}` shows it.
pub open spec fn backend_name(b: BackendKind) -> Seq<char> {
    match b {
        BackendKind::Wasm => "Wasm"@,
        BackendKind::ProcessJail => "ProcessJail"@,
        BackendKind::Firecracker => "Firecracker"@,
        BackendKind::Libkrun => "Libkrun"@,
        BackendKind::Remote => "Remote"@,
    }
}

impl BackendKind {
    /// The kind's name, as `{:?}` shows it.
    pub fn name(self) -> (r: &'static str)
        ensures
            r@ == backend_name(self),
    {
        match self {
            BackendKind::Wasm => "Wasm",
            BackendKind::ProcessJail => "ProcessJail",
            BackendKind::Firecracker => "Firecracker",
            BackendKind::Libkrun => "Libkrun",
            BackendKind::Remote => "Remote",
        }
    }
}

} // verus!
