//! The orchestration layer: one call, one `CommandResult`, whatever backend
//! stands behind it.
use crate::backend::MicroVmBackend;
use crate::error::ToolError;
use crate::pool::{
    acquire_spec, release_spec, start_spec, has_free, lemma_warm_then_acquire, lemma_lease_cycle, pool_wf, warm_spec, free_match, PoolView,
    VmPool,
};
use crate::profile::VmProfile;
use crate::protocol::{CommandRequest, CommandResult};
use crate::tcb::fresh_tcb;
use crate::types::{state_code, VmId, VmState};
use vstd::prelude::*;

verus! {

pub const FNV_OFFSET: u64 = 0xcbf29ce484222325;

pub const FNV_PRIME: u64 = 0x100000001b3;

/// One FNV-1a step: mix in a byte, then multiply modulo 2^64.
pub open spec fn fnv_step(h: u64, b: u8) -> u64 {
    (h ^ (b as u64)).wrapping_mul(FNV_PRIME)
}

/// FNV-1a 64 over a byte sequence.
pub open spec fn fnv1a_spec(bytes: Seq<u8>) -> u64
    decreases bytes.len(),
{
    if bytes.len() == 0 {
        FNV_OFFSET
    } else {
        fnv_step(fnv1a_spec(bytes.drop_last()), bytes.last())
    }
}

/// The hash steps over every byte, whatever the length: the empty text hashes
/// to the offset basis, and one more byte is mixed in by xor and then a
/// multiplication by the FNV prime modulo 2^64.
pub proof fn lemma_fnv1a_step(bytes: Seq<u8>, b: u8)
    ensures
        fnv1a_spec(Seq::<u8>::empty()) == 0xcbf29ce484222325u64,
        fnv1a_spec(bytes.push(b)) == (fnv1a_spec(bytes) ^ (b as u64)).wrapping_mul(
            0x100000001b3u64,
        ),
{
    assert(bytes.push(b).drop_last() =~= bytes);
}

/// FNV-1a 64 of the UTF-8 bytes of `s`: a hash that stays the same across runs
/// and machines. It maps a profile name to the profile id kept in a `VmTcb`.
pub fn fnv1a_64(s: &str) -> (h: u64)
    ensures
        h == fnv1a_spec(vstd::utf8::encode_utf8(s@)),
{
    let bytes = s.as_bytes();
    let mut h: u64 = FNV_OFFSET;
    let mut i: usize = 0;
    while i < bytes.len()
        invariant
            bytes@ == vstd::utf8::encode_utf8(s@),
            i <= bytes@.len(),
            h == fnv1a_spec(bytes@.subrange(0, i as int)),
        decreases bytes@.len() - i,
    {
        assert(bytes@.subrange(0, i + 1).drop_last() =~= bytes@.subrange(0, i as int));
        h = h ^ (bytes[i] as u64);
        h = h.wrapping_mul(FNV_PRIME);
        i = i + 1;
    }
    assert(bytes@.subrange(0, i as int) =~= bytes@);
    h
}

pub struct Runtime<B: MicroVmBackend> {
    pool: VmPool,
    pub backend: B,
}

/// The pool after one `execute` of profile `pid`: the free slots are those of
/// before, plus the slot warmed for `pid` when none was free, which holds a
/// `Ready` VM of profile `pid`; every slot that was there keeps its VM, its
/// profile and its state.
pub open spec fn execute_pool_post(p0: PoolView, p: PoolView, pid: u64) -> bool {
    &&& pool_wf(p)
    &&& has_free(p0, pid) ==> p.tcbs.len() == p0.tcbs.len()
    &&& !has_free(p0, pid) ==> p.tcbs.len() == p0.tcbs.len() + 1
    &&& forall|s: int|
        p0.tcbs.len() <= s < p.tcbs.len() ==> (#[trigger] p.tcbs[s]).profile_id == pid
            && p.tcbs[s].state == state_code(VmState::Ready)
    &&& p.free.to_set() == p0.free.to_set().union(
        Set::new(|s: usize| p0.tcbs.len() <= s < p.tcbs.len()),
    )
    &&& forall|s: int|
        0 <= s < p0.tcbs.len() ==> (#[trigger] p.tcbs[s]).profile_id == p0.tcbs[s].profile_id
            && p.tcbs[s].vm_id == p0.tcbs[s].vm_id && p.tcbs[s].state == p0.tcbs[s].state
}

/// After an `execute` of profile `pid` that ran its request, a VM of that
/// profile is free: the next `execute` of the same profile leases it and
/// warms none.
pub proof fn lemma_execute_leaves_free_vm(p0: PoolView, p: PoolView, pid: u64)
    requires
        pool_wf(p0),
        execute_pool_post(p0, p, pid),
    ensures
        has_free(p, pid),
        acquire_spec(p, pid).1 is Ok,
{
    if has_free(p0, pid) {
        let i = choose|i: int| free_match(p0, pid, i);
        let s = p0.free[i];
        assert(p0.free.to_set().contains(s));
        assert(p.free.to_set().contains(s));
        let j = choose|j: int| 0 <= j < p.free.len() && p.free[j] == s;
        assert(p.tcbs[s as int].profile_id == p0.tcbs[s as int].profile_id);
        assert(free_match(p, pid, j));
    } else {
        let n = p0.tcbs.len() as usize;
        assert(Set::new(|s: usize| p0.tcbs.len() <= s < p.tcbs.len()).contains(n));
        assert(p.free.to_set().contains(n));
        let j = choose|j: int| 0 <= j < p.free.len() && p.free[j] == n;
        assert(p.tcbs[n as int].profile_id == pid);
        assert(free_match(p, pid, j));
    }
}

/// A freshly warmed slot is free for its profile: the next lease of the profile
/// succeeds.
pub proof fn lemma_warm_has_free(p: PoolView, vm_id: u64, pid: u64)
    requires
        pool_wf(warm_spec(p, vm_id, pid)),
    ensures
        has_free(warm_spec(p, vm_id, pid), pid),
{
    assert(free_match(warm_spec(p, vm_id, pid), pid, p.free.len() as int));
}

proof fn lemma_warm_free_set(p0: PoolView, vm_id: u64, pid: u64)
    requires
        p0.tcbs.len() < usize::MAX,
    ensures
        warm_spec(p0, vm_id, pid).free.to_set() == p0.free.to_set().insert(p0.tcbs.len() as usize),
{
    let pw = warm_spec(p0, vm_id, pid);
    let n = p0.tcbs.len() as usize;
    assert forall|x: usize| pw.free.contains(x) <==> (p0.free.contains(x) || x == n) by {
        if pw.free.contains(x) {
            let k = choose|k: int| 0 <= k < pw.free.len() && pw.free[k] == x;
            if k < p0.free.len() {
                assert(p0.free[k] == x);
            }
        }
        if p0.free.contains(x) {
            let k = choose|k: int| 0 <= k < p0.free.len() && p0.free[k] == x;
            assert(pw.free[k] == x);
        }
        if x == n {
            assert(pw.free[p0.free.len() as int] == x);
        }
    }
    assert(pw.free.to_set() =~= p0.free.to_set().insert(n));
}

/// The lease cycle that `execute` runs, on the pool `pw` it leases from, ends
/// in a pool related to the starting pool `p0` as `execute_pool_post` says.
#[verifier::spinoff_prover]
proof fn lemma_execute_cycle(p0: PoolView, pw: PoolView, pid: u64, vm_id: u64)
    requires
        pool_wf(p0),
        pool_wf(pw),
        has_free(p0, pid) ==> pw == p0,
        !has_free(p0, pid) ==> pw == warm_spec(p0, vm_id, pid),
    ensures
        has_free(pw, pid),
        ({
            let (p1, r1) = acquire_spec(pw, pid);
            let (p2, r2) = start_spec(p1, r1->Ok_0);
            let (p3, r3) = release_spec(p2, r2->Ok_0);
            execute_pool_post(p0, p3, pid)
        }),
{
    if !has_free(p0, pid) {
        lemma_warm_has_free(p0, vm_id, pid);
    }
    lemma_lease_cycle(pw, pid);
    let (p1, r1) = acquire_spec(pw, pid);
    let (p2, r2) = start_spec(p1, r1->Ok_0);
    let (p, r3) = release_spec(p2, r2->Ok_0);
    if has_free(p0, pid) {
        assert(Set::new(|s: usize| p0.tcbs.len() <= s < p.tcbs.len()) =~= Set::empty());
        assert(p.free.to_set() =~= p0.free.to_set().union(
            Set::new(|s: usize| p0.tcbs.len() <= s < p.tcbs.len()),
        ));
    } else {
        let n = p0.tcbs.len() as usize;
        lemma_warm_free_set(p0, vm_id, pid);
        assert(Set::new(|s: usize| p0.tcbs.len() <= s < p.tcbs.len()) =~= set![n]);
        assert(p.free.to_set() =~= p0.free.to_set().union(
            Set::new(|s: usize| p0.tcbs.len() <= s < p.tcbs.len()),
        ));
        assert forall|s: int| 0 <= s < p0.tcbs.len() implies (#[trigger] p.tcbs[s]).profile_id
            == p0.tcbs[s].profile_id && p.tcbs[s].vm_id == p0.tcbs[s].vm_id && p.tcbs[s].state
            == p0.tcbs[s].state by {
            assert(pw.tcbs[s] == p0.tcbs[s]);
        }
        assert(pw.tcbs[n as int] == fresh_tcb(vm_id, pid, VmState::Ready));
        assert(p.tcbs[n as int].vm_id == vm_id);
        assert(p.tcbs[n as int].profile_id == pid);
        assert(p.tcbs[n as int].state == state_code(VmState::Ready));
    }
}

impl<B: MicroVmBackend> Runtime<B> {
    pub fn new(backend: B) -> (r: Self)
        ensures
            r.pool_view().tcbs.len() == 0,
            pool_wf(r.pool_view()),
            r.backend_value() == backend,
    {
        Runtime { pool: VmPool::new(), backend }
    }

    /// The runtime's backend.
    pub closed spec fn backend_value(&self) -> B {
        self.backend
    }

    /// The runtime's pool.
    pub closed spec fn pool_view(&self) -> PoolView {
        self.pool@
    }

    /// Runs one request: a free VM of the profile is leased (one is warmed
    /// first when none is free), started, handed the request, and given back;
    /// the answer is the backend's answer to that request on that VM.
    #[verifier::rlimit(80)]
    pub fn execute(&mut self, profile: &VmProfile, req: CommandRequest) -> (r: Result<
        CommandResult,
        ToolError,
    >)
        ensures
            final(self).backend_value() == old(self).backend_value(),
            pool_wf(final(self).pool_view()),
            ({
                let pid = fnv1a_spec(vstd::utf8::encode_utf8(profile.name@));
                ||| execute_pool_post(old(self).pool_view(), final(self).pool_view(), pid)
                    && has_free(final(self).pool_view(), pid)
                ||| (!has_free(old(self).pool_view(), pid) && r is Err && final(self).pool_view()
                    == old(self).pool_view())
            }),
            ({
                let p0 = old(self).pool_view();
                let pid = fnv1a_spec(vstd::utf8::encode_utf8(profile.name@));
                let b = old(self).backend_value();
                &&& has_free(p0, pid) ==> call_ensures(
                    B::execute,
                    (&b, acquire_spec(p0, pid).1->Ok_0.vm_id, req),
                    r,
                )
                &&& !has_free(p0, pid) ==> {
                    ||| (r matches Err(e) && call_ensures(
                        B::create,
                        (&b, profile),
                        Err::<VmId, ToolError>(e),
                    ) && final(self).pool_view() == p0)
                    ||| exists|id: VmId|
                        call_ensures(B::create, (&b, profile), Ok::<VmId, ToolError>(id))
                            && #[trigger] call_ensures(B::execute, (&b, id, req), r)
                            && final(self).pool_view().tcbs.len() == p0.tcbs.len() + 1
                            && final(self).pool_view().tcbs[p0.tcbs.len() as int].vm_id == id.0
                }
            }),
    {
        proof {
            use_type_invariant(&self.pool);
        }
        let ghost p0 = self.pool@;
        let pid = fnv1a_64(profile.name.as_str());
        let ghost mut id: u64 = 0;
        let handle = match self.pool.acquire(pid) {
            Ok(h) => h,
            Err(ToolError::PoolExhausted) => {
                let vid = match self.pool.warm(profile, &self.backend) {
                    Ok(v) => v,
                    Err(e) => {
                        return Err(e);
                    },
                };
                proof {
                    id = vid.0;
                    lemma_execute_cycle(p0, self.pool@, pid, id);
                    lemma_warm_then_acquire(p0, id, pid);
                    assert(VmId(id) == vid);
                }
                self.pool.acquire(pid)?
            },
            Err(e) => {
                return Err(e);
            },
        };
        let ghost pw = if has_free(p0, pid) { p0 } else { warm_spec(p0, id, pid) };
        proof {
            lemma_execute_cycle(p0, pw, pid, id);
            lemma_lease_cycle(pw, pid);
        }
        let handle = self.pool.start(handle)?;
        let run = B::execute;
        let result = run(&self.backend, handle.vm_id, req);
        let _ = self.pool.release(handle);
        proof {
            lemma_execute_leaves_free_vm(p0, self.pool@, pid);
        }
        result
    }
}

} // verus!
