//! Fixed-size task control block: one slot per VM in the pool's slab.
//! Its fields add up to 64 bytes with 8-byte alignment, so a block takes 64
//! bytes. The compiler picks the order of the fields in memory: the block has
//! no fixed byte layout; the tests hold its size and alignment.
use crate::types::{state_code, state_of_code, VmState};
use vstd::prelude::*;

verus! {

#[derive(Debug, Clone, Copy, PartialEq, Eq)]
pub struct VmTcb {
    pub magic: u32,
    pub version: u16,
    /// The `VmState` as its byte.
    pub state: u8,
    pub flags: u8,
    pub vm_id: u64,
    pub profile_id: u64,
    /// Counter that stale handles are checked against.
    pub generation: u32,
    pub mem_mib: u16,
    pub vcpu: u8,
    pub reserved: u8,
    pub caps_hash: u64,
    pub created_tick: u32,
    pub _reserved: [u8; 20],
}

pub const VM_TCB_MAGIC: u32 = 0x4149_4D54;

pub const VM_TCB_VERSION: u16 = 1;

/// The generation after one more step, wrapping from `u32::MAX` to 0.
pub open spec fn next_generation(g: u32) -> u32 {
    if g == u32::MAX {
        0
    } else {
        (g + 1) as u32
    }
}

/// The block that `VmTcb::new` builds.
pub open spec fn fresh_tcb(vm_id: u64, profile_id: u64, state: VmState) -> VmTcb {
    VmTcb {
        magic: VM_TCB_MAGIC,
        version: VM_TCB_VERSION,
        state: state_code(state),
        flags: 0,
        vm_id,
        profile_id,
        generation: 1,
        mem_mib: 0,
        vcpu: 0,
        reserved: 0,
        caps_hash: 0,
        created_tick: 0,
        _reserved: vstd::array::spec_array_fill_for_copy_type::<u8, 20>(0u8),
    }
}

impl VmTcb {
    pub fn new(vm_id: u64, profile_id: u64, state: VmState) -> (t: Self)
        ensures
            t.magic == VM_TCB_MAGIC,
            t.version == VM_TCB_VERSION,
            t.state == state_code(state),
            t.flags == 0,
            t.vm_id == vm_id,
            t.profile_id == profile_id,
            t.generation == 1,
            t.mem_mib == 0,
            t.vcpu == 0,
            t.reserved == 0,
            t.caps_hash == 0,
            t.created_tick == 0,
            forall|i: int| 0 <= i < 20 ==> t._reserved[i] == 0,
            t == fresh_tcb(vm_id, profile_id, state),
    {
        VmTcb {
            magic: VM_TCB_MAGIC,
            version: VM_TCB_VERSION,
            state: state.to_u8(),
            flags: 0,
            vm_id,
            profile_id,
            generation: 1,
            mem_mib: 0,
            vcpu: 0,
            reserved: 0,
            caps_hash: 0,
            created_tick: 0,
            _reserved: [0u8; 20],
        }
    }

    pub fn state(&self) -> (r: Option<VmState>)
        ensures
            r == state_of_code(self.state),
    {
        VmState::from_u8(self.state)
    }

    pub fn bump_generation(&mut self)
        ensures
            *final(self) == (VmTcb { generation: next_generation(old(self).generation), ..*old(self) }),
    {
        self.generation = self.generation.wrapping_add(1);
    }
}

} // verus!
