//! The VM pool, a process table: one fixed-size `VmTcb` per slot, indexed in O(1).
//! The free list holds exactly the slots that are `Ready`. Every transition bumps
//! the slot's generation, so a handle taken before a transition is refused as stale.
use crate::backend::MicroVmBackend;
use crate::error::{ToolError, ToolErrorView};
use crate::lifecycle::{can_transition, transition_allowed};
use crate::profile::VmProfile;
use crate::runtime::{fnv1a_64, fnv1a_spec};
use crate::tcb::{fresh_tcb, next_generation, VmTcb};
use crate::types::{state_code, state_name, state_of_code, VmId, VmState};
use vstd::prelude::*;

verus! {

#[derive(Debug, Clone, Copy)]
pub struct VmHandle {
    pub slot: usize,
    pub generation: u32,
    pub vm_id: VmId,
}

pub struct VmPool {
    tcbs: Vec<VmTcb>,
    free: Vec<usize>,
}

/// The pool as its slot table and its free list.
pub struct PoolView {
    pub tcbs: Seq<VmTcb>,
    pub free: Seq<usize>,
}

impl View for VmPool {
    type V = PoolView;

    closed spec fn view(&self) -> PoolView {
        PoolView { tcbs: self.tcbs@, free: self.free@ }
    }
}

pub open spec fn corrupt_state_message() -> Seq<char> {
    "corrupt state byte"@
}

pub open spec fn illegal_transition_message(from: VmState, to: VmState) -> Seq<char> {
    "illegal transition "@ + state_name(from) + "->"@ + state_name(to)
}

pub open spec fn stale_handle_message() -> Seq<char> {
    "stale handle"@
}

/// `t` moved to state `to`, one generation on.
pub open spec fn transitioned(t: VmTcb, to: VmState) -> VmTcb {
    VmTcb { state: state_code(to), generation: next_generation(t.generation), ..t }
}

/// What moving `t` to `to` gives: the new block, or why it was refused.
pub open spec fn transition_spec(t: VmTcb, to: VmState) -> Result<VmTcb, ToolErrorView> {
    match state_of_code(t.state) {
        None => Err(ToolErrorView::InvalidRequest(corrupt_state_message())),
        Some(cur) => if transition_allowed(cur, to) {
            Ok(transitioned(t, to))
        } else {
            Err(ToolErrorView::InvalidRequest(illegal_transition_message(cur, to)))
        },
    }
}

/// Every free-list entry is a slot of the table in state `Ready`.
#[verifier::opaque]
pub open spec fn free_entries_ready(p: PoolView) -> bool {
    forall|i: int|
        0 <= i < p.free.len() ==> #[trigger] p.free[i] < p.tcbs.len() && p.tcbs[p.free[i] as int].state
            == state_code(VmState::Ready)
}

/// No slot is on the free list twice.
#[verifier::opaque]
pub open spec fn free_distinct(p: PoolView) -> bool {
    forall|i: int, j: int| 0 <= i < j < p.free.len() ==> p.free[i] != p.free[j]
}

/// Every `Ready` slot is on the free list.
#[verifier::opaque]
pub open spec fn ready_slots_free(p: PoolView) -> bool {
    forall|s: int|
        0 <= s < p.tcbs.len() && #[trigger] p.tcbs[s].state == state_code(VmState::Ready)
            ==> p.free.contains(s as usize)
}

/// Every state byte names a state.
#[verifier::opaque]
pub open spec fn states_valid(p: PoolView) -> bool {
    forall|s: int| 0 <= s < p.tcbs.len() ==> #[trigger] p.tcbs[s].state <= 9
}

/// The pool's invariant: the free list holds each `Ready` slot exactly once and
/// nothing else, and every state byte names a state.
pub open spec fn pool_wf(p: PoolView) -> bool {
    &&& p.tcbs.len() <= usize::MAX
    &&& free_entries_ready(p)
    &&& free_distinct(p)
    &&& ready_slots_free(p)
    &&& states_valid(p)
}

/// The free-list entry at position `i` is a `Ready` slot of profile `pid`.
pub open spec fn free_match(p: PoolView, pid: u64, i: int) -> bool {
    &&& 0 <= i < p.free.len()
    &&& p.free[i] < p.tcbs.len()
    &&& p.tcbs[p.free[i] as int].profile_id == pid
    &&& p.tcbs[p.free[i] as int].state == state_code(VmState::Ready)
}

/// Some free slot is `Ready` for profile `pid`.
pub open spec fn has_free(p: PoolView, pid: u64) -> bool {
    exists|i: int| free_match(p, pid, i)
}

/// The first position in the free list whose slot is `Ready` for `pid`.
pub open spec fn first_free(p: PoolView, pid: u64) -> int {
    choose|i: int| free_match(p, pid, i) && forall|j: int| 0 <= j < i ==> !free_match(p, pid, j)
}

pub open spec fn handle_of(slot: usize, t: VmTcb) -> VmHandle {
    VmHandle { slot, generation: t.generation, vm_id: VmId(t.vm_id) }
}

pub open spec fn result_view<T>(r: Result<T, ToolError>) -> Result<T, ToolErrorView> {
    match r {
        Ok(v) => Ok(v),
        Err(e) => Err(e@),
    }
}

/// The pool after a freshly created VM `vm_id` of profile `pid` joined it as `Ready`.
pub open spec fn warm_spec(p: PoolView, vm_id: u64, pid: u64) -> PoolView {
    PoolView {
        tcbs: p.tcbs.push(fresh_tcb(vm_id, pid, VmState::Ready)),
        free: p.free.push(p.tcbs.len() as usize),
    }
}

/// Leasing a `Ready` slot of profile `pid`: the first match in the free list
/// leaves it (the last entry takes its place) and becomes `Leased`.
pub open spec fn acquire_spec(p: PoolView, pid: u64) -> (PoolView, Result<VmHandle, ToolErrorView>) {
    if !has_free(p, pid) {
        (p, Err(ToolErrorView::PoolExhausted))
    } else {
        let i = first_free(p, pid);
        let s = p.free[i];
        let t = transitioned(p.tcbs[s as int], VmState::Leased);
        (
            PoolView { tcbs: p.tcbs.update(s as int, t), free: p.free.update(i, p.free.last()).drop_last() },
            Ok(handle_of(s, t)),
        )
    }
}

/// Starting the VM that handle `h` leased: `Leased -> Running`.
pub open spec fn start_spec(p: PoolView, h: VmHandle) -> (PoolView, Result<VmHandle, ToolErrorView>) {
    let t = p.tcbs[h.slot as int];
    if t.generation != h.generation {
        (p, Err(ToolErrorView::InvalidRequest(stale_handle_message())))
    } else {
        match transition_spec(t, VmState::Running) {
            Ok(t2) => (PoolView { tcbs: p.tcbs.update(h.slot as int, t2), free: p.free }, Ok(handle_of(h.slot, t2))),
            Err(e) => (p, Err(e)),
        }
    }
}

/// Giving back the VM that handle `h` runs: `Running -> Scrubbing -> Ready`, and
/// the slot goes back on the free list.
pub open spec fn release_spec(p: PoolView, h: VmHandle) -> (PoolView, Result<(), ToolErrorView>) {
    let t = p.tcbs[h.slot as int];
    if t.generation != h.generation {
        (p, Err(ToolErrorView::InvalidRequest(stale_handle_message())))
    } else {
        match transition_spec(t, VmState::Scrubbing) {
            Err(e) => (p, Err(e)),
            Ok(t1) => match transition_spec(t1, VmState::Ready) {
                Err(e) => (PoolView { tcbs: p.tcbs.update(h.slot as int, t1), free: p.free }, Err(e)),
                Ok(t2) => (
                    PoolView { tcbs: p.tcbs.update(h.slot as int, t2), free: p.free.push(h.slot) },
                    Ok(()),
                ),
            },
        }
    }
}

proof fn lemma_first_free_is(p: PoolView, pid: u64, i: int)
    requires
        free_match(p, pid, i),
        forall|j: int| 0 <= j < i ==> !free_match(p, pid, j),
    ensures
        has_free(p, pid),
        first_free(p, pid) == i,
{
    let k = first_free(p, pid);
    assert(free_match(p, pid, k) && forall|j: int| 0 <= j < k ==> !free_match(p, pid, j));
    if k < i {
        assert(!free_match(p, pid, k));
    }
    if k > i {
        assert(!free_match(p, pid, i));
    }
}

/// The pool after the free-list entry at `pos` is leased.
pub open spec fn leased_at(p: PoolView, pos: int) -> PoolView {
    let s = p.free[pos];
    PoolView {
        tcbs: p.tcbs.update(s as int, transitioned(p.tcbs[s as int], VmState::Leased)),
        free: p.free.update(pos, p.free.last()).drop_last(),
    }
}

proof fn lemma_leased_free_entries(p0: PoolView, pos: int)
    requires
        0 <= pos < p0.free.len(),
        free_entries_ready(p0),
        free_distinct(p0),
    ensures
        free_entries_ready(leased_at(p0, pos)),
        free_distinct(leased_at(p0, pos)),
{
    reveal(free_entries_ready);
    reveal(free_distinct);
    let p = leased_at(p0, pos);
    let last = p0.free.len() - 1;
    assert forall|i: int| 0 <= i < p.free.len() implies #[trigger] p.free[i] < p.tcbs.len()
        && p.tcbs[p.free[i] as int].state == state_code(VmState::Ready) by {
        let oi = if i == pos { last } else { i };
        assert(p.free[i] == p0.free[oi]);
        assert(oi != pos);
        assert(p0.free[oi] < p0.tcbs.len());
    }
    assert forall|i: int, j: int| 0 <= i < j < p.free.len() implies p.free[i] != p.free[j] by {
        let oi = if i == pos { last } else { i };
        let oj = if j == pos { last } else { j };
        assert(p.free[i] == p0.free[oi]);
        assert(p.free[j] == p0.free[oj]);
    }
}

proof fn lemma_leased_ready_slots(p0: PoolView, pos: int)
    requires
        0 <= pos < p0.free.len(),
        p0.free[pos] < p0.tcbs.len(),
        ready_slots_free(p0),
        states_valid(p0),
        p0.tcbs.len() <= usize::MAX,
    ensures
        ready_slots_free(leased_at(p0, pos)),
        states_valid(leased_at(p0, pos)),
{
    reveal(ready_slots_free);
    reveal(states_valid);
    let p = leased_at(p0, pos);
    let slot = p0.free[pos] as int;
    let last = p0.free.len() - 1;
    assert forall|s: int|
        0 <= s < p.tcbs.len() && #[trigger] p.tcbs[s].state == state_code(VmState::Ready)
            implies p.free.contains(s as usize) by {
        assert(s != slot);
        assert(p0.tcbs[s] == p.tcbs[s]);
        assert(p0.free.contains(s as usize));
        let k = choose|k: int| 0 <= k < p0.free.len() && p0.free[k] == s as usize;
        assert(p0.free[k] == s as usize);
        assert(k != pos);
        if k == last {
            assert(p.free[pos] == s as usize);
        } else {
            assert(p.free[k] == s as usize);
        }
    }
    assert forall|s: int| 0 <= s < p.tcbs.len() implies #[trigger] p.tcbs[s].state <= 9 by {
        if s != slot {
            assert(p0.tcbs[s] == p.tcbs[s]);
        }
    }
}

proof fn lemma_first_free_below(p: PoolView, pid: u64, i: int)
    requires
        free_match(p, pid, i),
    ensures
        free_match(p, pid, first_free(p, pid)),
        forall|j: int| 0 <= j < first_free(p, pid) ==> !free_match(p, pid, j),
    decreases i,
{
    if exists|j: int| 0 <= j < i && free_match(p, pid, j) {
        let j = choose|j: int| 0 <= j < i && free_match(p, pid, j);
        lemma_first_free_below(p, pid, j);
    } else {
        lemma_first_free_is(p, pid, i);
    }
}

/// When some free slot matches, `first_free` is the first one.
proof fn lemma_first_free_matches(p: PoolView, pid: u64)
    requires
        has_free(p, pid),
    ensures
        free_match(p, pid, first_free(p, pid)),
        forall|j: int| 0 <= j < first_free(p, pid) ==> !free_match(p, pid, j),
{
    let i = choose|i: int| free_match(p, pid, i);
    lemma_first_free_below(p, pid, i);
}

proof fn lemma_acquire_keeps_wf(p0: PoolView, pid: u64)
    requires
        pool_wf(p0),
    ensures
        pool_wf(acquire_spec(p0, pid).0),
{
    if has_free(p0, pid) {
        lemma_first_free_matches(p0, pid);
        let pos = first_free(p0, pid);
        assert(acquire_spec(p0, pid).0 == leased_at(p0, pos));
        lemma_leased_free_entries(p0, pos);
        lemma_leased_ready_slots(p0, pos);
    }
}

proof fn lemma_warm_keeps_wf(p0: PoolView, vm_id: u64, pid: u64)
    requires
        pool_wf(p0),
        p0.tcbs.len() < usize::MAX,
    ensures
        pool_wf(warm_spec(p0, vm_id, pid)),
{
    reveal(free_entries_ready);
    reveal(free_distinct);
    reveal(ready_slots_free);
    reveal(states_valid);
    let p = warm_spec(p0, vm_id, pid);
    assert forall|i: int| 0 <= i < p.free.len() implies #[trigger] p.free[i] < p.tcbs.len()
        && p.tcbs[p.free[i] as int].state == state_code(VmState::Ready) by {
        if i < p0.free.len() {
            assert(p.free[i] == p0.free[i]);
            assert(p0.free[i] < p0.tcbs.len());
        }
    }
    assert forall|i: int, j: int| 0 <= i < j < p.free.len() implies p.free[i] != p.free[j] by {
        if j == p0.free.len() {
            assert(p.free[i] == p0.free[i]);
            assert(p0.free[i] < p0.tcbs.len());
        }
    }
    assert forall|s: int|
        0 <= s < p.tcbs.len() && #[trigger] p.tcbs[s].state == state_code(VmState::Ready)
            implies p.free.contains(s as usize) by {
        if s < p0.tcbs.len() {
            assert(p0.tcbs[s] == p.tcbs[s]);
            assert(p0.free.contains(s as usize));
            let k = choose|k: int| 0 <= k < p0.free.len() && p0.free[k] == s as usize;
            assert(p.free[k] == s as usize);
        } else {
            assert(p.free[p.free.len() - 1] == s as usize);
        }
    }
    assert forall|s: int| 0 <= s < p.tcbs.len() implies #[trigger] p.tcbs[s].state <= 9 by {
        if s < p0.tcbs.len() {
            assert(p0.tcbs[s] == p.tcbs[s]);
        }
    }
}

/// A slot off the free list that changes to a state other than `Ready` leaves
/// the invariant intact.
proof fn lemma_busy_update_keeps_wf(p0: PoolView, slot: int, t: VmTcb)
    requires
        pool_wf(p0),
        0 <= slot < p0.tcbs.len(),
        p0.tcbs[slot].state != state_code(VmState::Ready),
        t.state != state_code(VmState::Ready),
        t.state <= 9,
    ensures
        pool_wf(PoolView { tcbs: p0.tcbs.update(slot, t), free: p0.free }),
{
    reveal(free_entries_ready);
    reveal(free_distinct);
    reveal(ready_slots_free);
    reveal(states_valid);
    let p = PoolView { tcbs: p0.tcbs.update(slot, t), free: p0.free };
    assert forall|i: int| 0 <= i < p.free.len() implies #[trigger] p.free[i] < p.tcbs.len()
        && p.tcbs[p.free[i] as int].state == state_code(VmState::Ready) by {
        assert(p0.free[i] < p0.tcbs.len());
        assert(p0.free[i] != slot);
    }
    assert forall|s: int|
        0 <= s < p.tcbs.len() && #[trigger] p.tcbs[s].state == state_code(VmState::Ready)
            implies p.free.contains(s as usize) by {
        assert(p0.tcbs[s] == p.tcbs[s]);
    }
    assert forall|s: int| 0 <= s < p.tcbs.len() implies #[trigger] p.tcbs[s].state <= 9 by {
        if s != slot {
            assert(p0.tcbs[s] == p.tcbs[s]);
        }
    }
}

/// A slot off the free list that becomes `Ready` and goes on the free list
/// leaves the invariant intact.
proof fn lemma_return_keeps_wf(p0: PoolView, slot: int, t: VmTcb)
    requires
        pool_wf(p0),
        0 <= slot < p0.tcbs.len(),
        p0.tcbs[slot].state != state_code(VmState::Ready),
        t.state == state_code(VmState::Ready),
    ensures
        pool_wf(PoolView { tcbs: p0.tcbs.update(slot, t), free: p0.free.push(slot as usize) }),
{
    reveal(free_entries_ready);
    reveal(free_distinct);
    reveal(ready_slots_free);
    reveal(states_valid);
    let p = PoolView { tcbs: p0.tcbs.update(slot, t), free: p0.free.push(slot as usize) };
    assert forall|i: int| 0 <= i < p.free.len() implies #[trigger] p.free[i] < p.tcbs.len()
        && p.tcbs[p.free[i] as int].state == state_code(VmState::Ready) by {
        if i < p0.free.len() {
            assert(p.free[i] == p0.free[i]);
            assert(p0.free[i] < p0.tcbs.len());
            assert(p0.free[i] != slot);
        }
    }
    assert forall|i: int, j: int| 0 <= i < j < p.free.len() implies p.free[i] != p.free[j] by {
        if j == p0.free.len() {
            assert(p.free[i] == p0.free[i]);
            assert(p0.free[i] < p0.tcbs.len());
            assert(p0.free[i] != slot);
        }
    }
    assert forall|s: int|
        0 <= s < p.tcbs.len() && #[trigger] p.tcbs[s].state == state_code(VmState::Ready)
            implies p.free.contains(s as usize) by {
        if s == slot {
            assert(p.free[p.free.len() - 1] == s as usize);
        } else {
            assert(p0.tcbs[s] == p.tcbs[s]);
            assert(p0.free.contains(s as usize));
            let k = choose|k: int| 0 <= k < p0.free.len() && p0.free[k] == s as usize;
            assert(p.free[k] == s as usize);
        }
    }
    assert forall|s: int| 0 <= s < p.tcbs.len() implies #[trigger] p.tcbs[s].state <= 9 by {
        if s != slot {
            assert(p0.tcbs[s] == p.tcbs[s]);
        }
    }
}

proof fn lemma_start_keeps_wf(p0: PoolView, h: VmHandle)
    requires
        pool_wf(p0),
        h.slot < p0.tcbs.len(),
    ensures
        pool_wf(start_spec(p0, h).0),
{
    let t = p0.tcbs[h.slot as int];
    if t.generation == h.generation {
        if let Ok(t2) = transition_spec(t, VmState::Running) {
            lemma_busy_update_keeps_wf(p0, h.slot as int, t2);
        }
    }
}

proof fn lemma_release_keeps_wf(p0: PoolView, h: VmHandle)
    requires
        pool_wf(p0),
        h.slot < p0.tcbs.len(),
    ensures
        pool_wf(release_spec(p0, h).0),
{
    let t = p0.tcbs[h.slot as int];
    if t.generation == h.generation {
        if let Ok(t1) = transition_spec(t, VmState::Scrubbing) {
            lemma_busy_update_keeps_wf(p0, h.slot as int, t1);
            if let Ok(t2) = transition_spec(t1, VmState::Ready) {
                lemma_return_keeps_wf(p0, h.slot as int, t2);
            }
        }
    }
}

/// One lease cycle, acquire then start then release, succeeds on a pool with a
/// free slot for `pid` and leaves the same slots free, with the same VMs,
/// profiles and states.
pub proof fn lemma_lease_cycle(p: PoolView, pid: u64)
    requires
        pool_wf(p),
        has_free(p, pid),
    ensures
        ({
            let (p1, r1) = acquire_spec(p, pid);
            &&& r1 is Ok
            &&& r1->Ok_0.slot < p1.tcbs.len()
            &&& pool_wf(p1)
            &&& ({
                let h1 = r1->Ok_0;
                let (p2, r2) = start_spec(p1, h1);
                &&& r2 is Ok
                &&& r2->Ok_0.slot == h1.slot
                &&& r2->Ok_0.vm_id == h1.vm_id
                &&& pool_wf(p2)
                &&& ({
                    let (p3, r3) = release_spec(p2, r2->Ok_0);
                    &&& r3 is Ok
                    &&& pool_wf(p3)
                    &&& p3.tcbs.len() == p.tcbs.len()
                    &&& p3.free.to_set() == p.free.to_set()
                    &&& forall|s: int|
                        0 <= s < p.tcbs.len() ==> (#[trigger] p3.tcbs[s]).profile_id
                            == p.tcbs[s].profile_id && p3.tcbs[s].vm_id == p.tcbs[s].vm_id
                            && p3.tcbs[s].state == p.tcbs[s].state
                })
            })
        }),
{
    lemma_first_free_matches(p, pid);
    lemma_acquire_keeps_wf(p, pid);
    let i = first_free(p, pid);
    let slot = p.free[i];
    let (p1, r1) = acquire_spec(p, pid);
    let h1 = r1->Ok_0;
    assert(h1.slot == slot);
    lemma_start_keeps_wf(p1, h1);
    let t1 = p1.tcbs[slot as int];
    assert(t1.state == state_code(VmState::Leased));
    assert(t1.generation == h1.generation);
    let (p2, r2) = start_spec(p1, h1);
    let h2 = r2->Ok_0;
    let t2 = p2.tcbs[slot as int];
    assert(t2.state == state_code(VmState::Running));
    let (p3, r3) = release_spec(p2, h2);
    assert(r3 is Ok);
    lemma_release_keeps_wf(p2, h2);
    let last = p.free.len() - 1;
    assert forall|x: usize| p3.free.contains(x) <==> p.free.contains(x) by {
        if p.free.contains(x) {
            let k = choose|k: int| 0 <= k < p.free.len() && p.free[k] == x;
            if k == i {
                assert(p3.free[p3.free.len() - 1] == x);
            } else if k == last {
                assert(p3.free[i] == x);
            } else {
                assert(p3.free[k] == x);
            }
        }
        if p3.free.contains(x) {
            let k = choose|k: int| 0 <= k < p3.free.len() && p3.free[k] == x;
            if k == p3.free.len() - 1 {
                assert(p.free[i] == x);
            } else if k == i {
                assert(p.free[last] == x);
            } else {
                assert(p.free[k] == x);
            }
        }
    }
    assert(p3.free.to_set() =~= p.free.to_set());
    assert forall|s: int| 0 <= s < p.tcbs.len() implies (#[trigger] p3.tcbs[s]).profile_id
        == p.tcbs[s].profile_id && p3.tcbs[s].vm_id == p.tcbs[s].vm_id && p3.tcbs[s].state
        == p.tcbs[s].state by {
        if s == slot {
            assert(p.tcbs[s].state == state_code(VmState::Ready));
        }
    }
}

/// Every successful transition moves the generation on, so a handle that holds
/// the old generation no longer matches.
pub proof fn lemma_transition_moves_generation(t: VmTcb, to: VmState)
    ensures
        transition_spec(t, to) matches Ok(t2) ==> t2.generation == next_generation(t.generation)
            && t2.generation != t.generation,
{
}

/// A handle is spent once it has started its VM: giving back or starting with
/// the old handle is refused as stale and leaves the pool unchanged.
pub proof fn lemma_stale_handle_rejected(p: PoolView, h: VmHandle)
    requires
        pool_wf(p),
        h.slot < p.tcbs.len(),
        start_spec(p, h).1 is Ok,
    ensures
        release_spec(start_spec(p, h).0, h) == (
            start_spec(p, h).0,
            Err::<(), ToolErrorView>(ToolErrorView::InvalidRequest(stale_handle_message())),
        ),
        start_spec(start_spec(p, h).0, h) == (
            start_spec(p, h).0,
            Err::<VmHandle, ToolErrorView>(ToolErrorView::InvalidRequest(stale_handle_message())),
        ),
{
}

/// A slot that is leased is off the free list: two leases in a row never hand
/// out the same slot.
pub proof fn lemma_no_double_lease(p: PoolView, pid1: u64, pid2: u64)
    requires
        pool_wf(p),
        acquire_spec(p, pid1).1 is Ok,
        acquire_spec(acquire_spec(p, pid1).0, pid2).1 is Ok,
    ensures
        acquire_spec(acquire_spec(p, pid1).0, pid2).1->Ok_0.slot != acquire_spec(p, pid1).1->Ok_0.slot,
{
    lemma_first_free_matches(p, pid1);
    let p1 = acquire_spec(p, pid1).0;
    lemma_acquire_keeps_wf(p, pid1);
    lemma_first_free_matches(p1, pid2);
    let s1 = acquire_spec(p, pid1).1->Ok_0.slot;
    assert(p1.tcbs[s1 as int].state == state_code(VmState::Leased));
}

/// A slot given back is free again for its profile, and when it was the only
/// one of that profile, the next lease of the profile gets that very slot.
pub proof fn lemma_released_slot_reused(p: PoolView, h: VmHandle)
    requires
        pool_wf(p),
        h.slot < p.tcbs.len(),
        release_spec(p, h).1 is Ok,
    ensures
        has_free(release_spec(p, h).0, p.tcbs[h.slot as int].profile_id),
        !has_free(p, p.tcbs[h.slot as int].profile_id) ==> (acquire_spec(
            release_spec(p, h).0,
            p.tcbs[h.slot as int].profile_id,
        ).1 matches Ok(h2) && h2.slot == h.slot),
{
    let pid = p.tcbs[h.slot as int].profile_id;
    let p1 = release_spec(p, h).0;
    let n = p.free.len() as int;
    assert(free_match(p1, pid, n));
    if !has_free(p, pid) {
        assert forall|j: int| 0 <= j < n implies !free_match(p1, pid, j) by {
            assert(p1.free[j] == p.free[j]);
            if free_match(p1, pid, j) {
                reveal(free_entries_ready);
                assert(p.free[j] < p.tcbs.len());
                if p.free[j] == h.slot {
                    assert(p.tcbs[h.slot as int].state == state_code(VmState::Ready));
                } else {
                    assert(free_match(p, pid, j));
                }
            }
        }
        lemma_first_free_is(p1, pid, n);
    }
}

/// When no slot of `pid` was free, leasing right after warming takes the VM
/// that was just warmed.
pub proof fn lemma_warm_then_acquire(p0: PoolView, vm_id: u64, pid: u64)
    requires
        pool_wf(p0),
        pool_wf(warm_spec(p0, vm_id, pid)),
        !has_free(p0, pid),
    ensures
        has_free(warm_spec(p0, vm_id, pid), pid),
        acquire_spec(warm_spec(p0, vm_id, pid), pid).1 matches Ok(h) && h.vm_id == VmId(vm_id),
{
    let pw = warm_spec(p0, vm_id, pid);
    let n = p0.free.len() as int;
    assert(free_match(pw, pid, n));
    assert forall|j: int| 0 <= j < n implies !free_match(pw, pid, j) by {
        assert(pw.free[j] == p0.free[j]);
        if free_match(pw, pid, j) {
            reveal(free_entries_ready);
            assert(p0.free[j] < p0.tcbs.len());
            assert(pw.tcbs[pw.free[j] as int] == p0.tcbs[p0.free[j] as int]);
            assert(free_match(p0, pid, j));
        }
    }
    lemma_first_free_is(pw, pid, n);
}

impl VmPool {
    /// Every pool value is well formed: the operations below keep it so.
    #[verifier::type_invariant]
    pub open spec fn inv(&self) -> bool {
        pool_wf(self@)
    }

    pub fn new() -> (p: Self)
        ensures
            p@.tcbs.len() == 0,
            p@.free.len() == 0,
            pool_wf(p@),
    {
        proof {
            reveal(free_entries_ready);
            reveal(free_distinct);
            reveal(ready_slots_free);
            reveal(states_valid);
            assert(pool_wf(PoolView { tcbs: Seq::empty(), free: Seq::empty() }));
        }
        VmPool { tcbs: Vec::new(), free: Vec::new() }
    }

    /// Takes the slot table and the free list out, leaving an empty pool.
    fn take_parts(&mut self) -> (r: (Vec<VmTcb>, Vec<usize>))
        ensures
            r.0@ == old(self)@.tcbs,
            r.1@ == old(self)@.free,
            pool_wf(old(self)@),
    {
        proof {
            use_type_invariant(&*self);
        }
        let mut p = VmPool::new();
        std::mem::swap(self, &mut p);
        let VmPool { tcbs, free } = p;
        (tcbs, free)
    }

    fn transition(t: &mut VmTcb, to: VmState) -> (r: Result<(), ToolError>)
        ensures
            match transition_spec(*old(t), to) {
                Ok(t2) => r is Ok && *final(t) == t2,
                Err(e) => r matches Err(e2) && e2@ == e && *final(t) == *old(t),
            },
    {
        let cur = match t.state() {
            Some(c) => c,
            None => {
                return Err(ToolError::InvalidRequest(String::from_str("corrupt state byte")));
            },
        };
        if !can_transition(cur, to) {
            let mut m = String::from_str("illegal transition ");
            m.append(cur.name());
            m.append("->");
            m.append(to.name());
            return Err(ToolError::InvalidRequest(m));
        }
        t.state = to.to_u8();
        t.bump_generation();
        Ok(())
    }

    /// Warms one VM through `backend.create` and adds it to the table as `Ready`.
    /// The answer is the backend's: the id it created, or its error.
    pub fn warm<B: MicroVmBackend>(&mut self, profile: &VmProfile, backend: &B) -> (r: Result<
        VmId,
        ToolError,
    >)
        ensures
            pool_wf(final(self)@),
            call_ensures(B::create, (backend, profile), r),
            match r {
                Ok(id) => final(self)@ == warm_spec(
                    old(self)@,
                    id.0,
                    fnv1a_spec(vstd::utf8::encode_utf8(profile.name@)),
                ),
                Err(_) => final(self)@ == old(self)@,
            },
    {
        proof {
            use_type_invariant(&*self);
        }
        let create = B::create;
        let created = create(backend, profile);
        let vm_id = match created {
            Ok(id) => id,
            Err(e) => {
                return Err(e);
            },
        };
        let pid = fnv1a_64(profile.name.as_str());
        let ghost p0 = self@;
        let (mut tcbs, mut free) = self.take_parts();
        tcbs.push(VmTcb::new(vm_id.0, pid, VmState::Ready));
        let idx = tcbs.len() - 1;
        free.push(idx);
        proof {
            assert(PoolView { tcbs: tcbs@, free: free@ } == warm_spec(p0, vm_id.0, pid));
            lemma_warm_keeps_wf(p0, vm_id.0, pid);
        }
        *self = VmPool { tcbs, free };
        Ok(vm_id)
    }

    fn find_free(&self, profile_id: u64) -> (r: Option<usize>)
        ensures
            match r {
                None => !has_free(self@, profile_id),
                Some(i) => has_free(self@, profile_id) && i == first_free(self@, profile_id)
                    && free_match(self@, profile_id, i as int),
            },
    {
        proof {
            use_type_invariant(self);
        }
        let n = self.free.len();
        let mut i: usize = 0;
        while i < n
            invariant
                n == self@.free.len(),
                i <= n,
                pool_wf(self@),
                forall|j: int| 0 <= j < i ==> !free_match(self@, profile_id, j),
            decreases n - i,
        {
            let s = self.free[i];
            proof {
                reveal(free_entries_ready);
                assert(self@.free[i as int] < self@.tcbs.len());
            }
            let t = self.tcbs[s];
            let ready = match t.state() {
                Some(VmState::Ready) => true,
                _ => false,
            };
            if t.profile_id == profile_id && ready {
                proof {
                    lemma_first_free_is(self@, profile_id, i as int);
                }
                return Some(i);
            }
            i = i + 1;
        }
        None
    }

    /// Leases a `Ready` slot of this profile. None there: `PoolExhausted`.
    #[verifier::rlimit(60)]
    pub fn acquire(&mut self, profile_id: u64) -> (r: Result<VmHandle, ToolError>)
        ensures
            pool_wf(final(self)@),
            (final(self)@, result_view(r)) == acquire_spec(old(self)@, profile_id),
    {
        proof {
            use_type_invariant(&*self);
        }
        let ghost p0 = self@;
        let pos = match self.find_free(profile_id) {
            Some(pos) => pos,
            None => {
                return Err(ToolError::PoolExhausted);
            },
        };
        let slot = self.free[pos];
        let mut t = self.tcbs[slot];
        assert(transition_spec(t, VmState::Leased) == Ok::<VmTcb, ToolErrorView>(
            transitioned(t, VmState::Leased),
        ));
        Self::transition(&mut t, VmState::Leased)?;
        let (mut tcbs, mut free) = self.take_parts();
        free.swap_remove(pos);
        tcbs.set(slot, t);
        proof {
            let p1 = leased_at(p0, pos as int);
            assert(free@ =~= p1.free);
            assert(tcbs@ =~= p1.tcbs);
            lemma_acquire_keeps_wf(p0, profile_id);
        }
        *self = VmPool { tcbs, free };
        Ok(VmHandle { slot, generation: t.generation, vm_id: VmId(t.vm_id) })
    }

    /// `Leased -> Running`: the leased VM starts its work.
    pub fn start(&mut self, handle: VmHandle) -> (r: Result<VmHandle, ToolError>)
        requires
            handle.slot < old(self)@.tcbs.len(),
        ensures
            pool_wf(final(self)@),
            (final(self)@, result_view(r)) == start_spec(old(self)@, handle),
    {
        proof {
            use_type_invariant(&*self);
            lemma_start_keeps_wf(self@, handle);
        }
        let mut t = self.tcbs[handle.slot];
        if t.generation != handle.generation {
            return Err(ToolError::InvalidRequest(String::from_str("stale handle")));
        }
        Self::transition(&mut t, VmState::Running)?;
        let (mut tcbs, free) = self.take_parts();
        tcbs.set(handle.slot, t);
        *self = VmPool { tcbs, free };
        Ok(VmHandle { slot: handle.slot, generation: t.generation, vm_id: VmId(t.vm_id) })
    }

    /// `Running -> Scrubbing -> Ready`, and the slot goes back on the free list.
    pub fn release(&mut self, handle: VmHandle) -> (r: Result<(), ToolError>)
        requires
            handle.slot < old(self)@.tcbs.len(),
        ensures
            pool_wf(final(self)@),
            (final(self)@, result_view(r)) == release_spec(old(self)@, handle),
    {
        proof {
            use_type_invariant(&*self);
        }
        let ghost p0 = self@;
        proof {
            lemma_release_keeps_wf(p0, handle);
        }
        let mut t = self.tcbs[handle.slot];
        if t.generation != handle.generation {
            return Err(ToolError::InvalidRequest(String::from_str("stale handle")));
        }
        Self::transition(&mut t, VmState::Scrubbing)?;
        let (mut tcbs, mut free) = self.take_parts();
        tcbs.set(handle.slot, t);
        match Self::transition(&mut t, VmState::Ready) {
            Ok(()) => {},
            Err(e) => {
                *self = VmPool { tcbs, free };
                return Err(e);
            },
        }
        tcbs.set(handle.slot, t);
        free.push(handle.slot);
        proof {
            assert(tcbs@ =~= p0.tcbs.update(handle.slot as int, t));
        }
        *self = VmPool { tcbs, free };
        Ok(())
    }
}

} // verus!
