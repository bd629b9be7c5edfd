//! VM lifecycle rules: a fixed transition table, like a kernel's process states.
use crate::types::VmState;
use vstd::prelude::*;

verus! {

/// The transitions that the lifecycle allows.
pub open spec fn transition_allowed(from: VmState, to: VmState) -> bool {
    match from {
        VmState::Building => to == VmState::Warming,
        VmState::Warming => to == VmState::Ready || to == VmState::Faulted,
        VmState::Ready => to == VmState::Leased || to == VmState::Snapshotting || to
            == VmState::Paused || to == VmState::Destroyed,
        VmState::Leased => to == VmState::Running,
        VmState::Running => to == VmState::Scrubbing || to == VmState::Faulted || to
            == VmState::Paused,
        VmState::Scrubbing => to == VmState::Ready || to == VmState::Destroyed,
        VmState::Snapshotting => to == VmState::Ready || to == VmState::Faulted,
        VmState::Faulted => to == VmState::Warming || to == VmState::Destroyed,
        VmState::Paused => to == VmState::Running || to == VmState::Ready || to
            == VmState::Destroyed,
        VmState::Destroyed => false,
    }
}

pub fn can_transition(from: VmState, to: VmState) -> (r: bool)
    ensures
        r == transition_allowed(from, to),
{
    match (from, to) {
        (VmState::Building, VmState::Warming) => true,
        (VmState::Warming, VmState::Ready) | (VmState::Warming, VmState::Faulted) => true,
        (VmState::Ready, VmState::Leased)
        | (VmState::Ready, VmState::Snapshotting)
        | (VmState::Ready, VmState::Paused)
        | (VmState::Ready, VmState::Destroyed) => true,
        (VmState::Leased, VmState::Running) => true,
        (VmState::Running, VmState::Scrubbing)
        | (VmState::Running, VmState::Faulted)
        | (VmState::Running, VmState::Paused) => true,
        (VmState::Scrubbing, VmState::Ready) | (VmState::Scrubbing, VmState::Destroyed) => true,
        (VmState::Snapshotting, VmState::Ready) | (VmState::Snapshotting, VmState::Faulted) => true,
        (VmState::Faulted, VmState::Warming) | (VmState::Faulted, VmState::Destroyed) => true,
        (VmState::Paused, VmState::Running)
        | (VmState::Paused, VmState::Ready)
        | (VmState::Paused, VmState::Destroyed) => true,
        _ => false,
    }
}

/// A destroyed VM never leaves that state.
pub proof fn lemma_destroyed_is_terminal(to: VmState)
    ensures
        !transition_allowed(VmState::Destroyed, to),
{
}

/// No transition leads back into `Building`: it is only ever the first state.
pub proof fn lemma_building_is_never_reentered(from: VmState)
    ensures
        !transition_allowed(from, VmState::Building),
{
}

/// No state moves to itself.
pub proof fn lemma_no_self_transition(s: VmState)
    ensures
        !transition_allowed(s, s),
{
}

/// The lease cycle of the pool, Ready -> Leased -> Running -> Scrubbing -> Ready,
/// is allowed step by step.
pub proof fn lemma_lease_cycle_allowed()
    ensures
        transition_allowed(VmState::Ready, VmState::Leased),
        transition_allowed(VmState::Leased, VmState::Running),
        transition_allowed(VmState::Running, VmState::Scrubbing),
        transition_allowed(VmState::Scrubbing, VmState::Ready),
{
}

/// A VM faults only while it is doing work: while warming, running or taking
/// a snapshot.
pub proof fn lemma_fault_sources(from: VmState)
    ensures
        transition_allowed(from, VmState::Faulted) <==> (from == VmState::Warming || from
            == VmState::Running || from == VmState::Snapshotting),
{
}

/// Only an idle VM is destroyed: one that is ready, scrubbed, faulted or paused.
pub proof fn lemma_destroy_sources(from: VmState)
    ensures
        transition_allowed(from, VmState::Destroyed) <==> (from == VmState::Ready || from
            == VmState::Scrubbing || from == VmState::Faulted || from == VmState::Paused),
{
}

/// A snapshot ends in one of two ways: the VM is ready again, or it faulted.
pub proof fn lemma_snapshot_exits(to: VmState)
    ensures
        transition_allowed(VmState::Snapshotting, to) <==> (to == VmState::Ready || to
            == VmState::Faulted),
{
}

/// How a VM enters each of the other states: it becomes ready after warming,
/// scrubbing, a snapshot or a pause; it is leased and snapshotted only when
/// ready; it runs after a lease or a pause; it is scrubbed only after running;
/// it pauses from ready or running; it warms after being built or after a
/// fault.
pub proof fn lemma_entry_sources(from: VmState)
    ensures
        transition_allowed(from, VmState::Ready) <==> (from == VmState::Warming || from
            == VmState::Scrubbing || from == VmState::Snapshotting || from == VmState::Paused),
        transition_allowed(from, VmState::Leased) <==> from == VmState::Ready,
        transition_allowed(from, VmState::Snapshotting) <==> from == VmState::Ready,
        transition_allowed(from, VmState::Running) <==> (from == VmState::Leased || from
            == VmState::Paused),
        transition_allowed(from, VmState::Scrubbing) <==> from == VmState::Running,
        transition_allowed(from, VmState::Paused) <==> (from == VmState::Ready || from
            == VmState::Running),
        transition_allowed(from, VmState::Warming) <==> (from == VmState::Building || from
            == VmState::Faulted),
{
}

} // verus!
