use aimt::backend::{MicroVmBackend, SnapshotOptions, SnapshotRef};
use aimt::capability::CapabilitySet;
use aimt::error::ToolError;
use aimt::pool::VmPool;
use aimt::profile::{SnapshotPolicy, VmProfile};
use aimt::protocol::{CommandRequest, CommandResult, ExecutionMetrics};
use aimt::runtime::fnv1a_64;
use aimt::types::{BackendKind, VmId};
use std::collections::BTreeMap;
use std::sync::Mutex as StdMutex;

fn profile(name: &str) -> VmProfile {
    VmProfile {
        name: name.into(), backend: BackendKind::Firecracker, kernel: "k".into(), rootfs: "r".into(),
        vcpu: 1, mem_mib: 256, timeout_ms: 5000, capabilities: CapabilitySet::minimal(),
        snapshot_policy: SnapshotPolicy::GoldenOnly, labels: BTreeMap::new(),
    }
}
fn pid(name: &str) -> u64 { fnv1a_64(name) }

struct Mock { calls: StdMutex<Vec<String>>, seq: StdMutex<u64> }
impl Mock {
    fn new() -> Self { Self { calls: StdMutex::new(vec![]), seq: StdMutex::new(0) } }
    fn record(&self, s: String) { self.calls.lock().unwrap().push(s); }
}
impl MicroVmBackend for Mock {
    fn create(&self, p: &VmProfile) -> Result<VmId, ToolError> {
        let mut s = self.seq.lock().unwrap(); *s += 1; let id = *s;
        self.record(format!("create:{id}:{}", p.name)); Ok(VmId(id))
    }
    fn stop(&self, v: VmId) -> Result<(), ToolError> { self.record(format!("stop:{}", v.0)); Ok(()) }
    fn destroy(&self, v: VmId) -> Result<(), ToolError> { self.record(format!("destroy:{}", v.0)); Ok(()) }
    fn snapshot(&self, v: VmId, _: SnapshotOptions) -> Result<SnapshotRef, ToolError> {
        self.record(format!("snapshot:{}", v.0)); Ok(SnapshotRef { id: "s".into(), profile: "p".into(), content_id: "c".into() })
    }
    fn restore(&self, s: SnapshotRef, _: &VmProfile) -> Result<VmId, ToolError> {
        self.record(format!("restore:{}", s.id)); Ok(VmId(999))
    }
    fn execute(&self, v: VmId, _: CommandRequest) -> Result<CommandResult, ToolError> {
        self.record(format!("execute:{}", v.0));
        Ok(CommandResult {
            request_id: "r".into(), exit_code: 0, stdout: b"ok\n".to_vec(), stderr: vec![],
            timed_out: false, killed: false,
            metrics: ExecutionMetrics { wall_time_ms: 1, user_cpu_ms: 1, sys_cpu_ms: 0, max_rss_bytes: 0, oom_killed: false, bytes_stdout: 3, bytes_stderr: 0 },
            artifacts: vec![],
        })
    }
}

struct FailingCreate;
impl MicroVmBackend for FailingCreate {
    fn create(&self, _: &VmProfile) -> Result<VmId, ToolError> { Err(ToolError::Backend("no kvm".into())) }
    fn stop(&self, _: VmId) -> Result<(), ToolError> { Ok(()) }
    fn destroy(&self, _: VmId) -> Result<(), ToolError> { Ok(()) }
    fn snapshot(&self, _: VmId, _: SnapshotOptions) -> Result<SnapshotRef, ToolError> { Err(ToolError::Snapshot("x".into())) }
    fn restore(&self, _: SnapshotRef, _: &VmProfile) -> Result<VmId, ToolError> { Err(ToolError::Snapshot("x".into())) }
    fn execute(&self, _: VmId, _: CommandRequest) -> Result<CommandResult, ToolError> { Err(ToolError::OomKilled) }
}

#[test]
fn warm_acquire_release_reuses_slot() {
    let mut pool = VmPool::new();
    let mock = Mock::new();
    let p = profile("a");
    pool.warm(&p, &mock).unwrap();

    let h1 = pool.acquire(pid("a")).unwrap();
    let h2 = pool.start(h1).unwrap();
    assert!(h2.generation > h1.generation, "generation harus naik tiap transisi");
    pool.release(h2).unwrap();

    let h3 = pool.acquire(pid("a")).unwrap();
    assert_eq!(h3.slot, h1.slot, "slot bekas release harus dipakai ulang");
}

#[test]
fn acquire_without_warm_is_exhausted() {
    let mut pool = VmPool::new();
    assert_eq!(pool.acquire(pid("a")).unwrap_err(), ToolError::PoolExhausted);
}

#[test]
fn profile_mismatch_is_exhausted() {
    let mut pool = VmPool::new();
    let mock = Mock::new();
    pool.warm(&profile("a"), &mock).unwrap();
    assert_eq!(pool.acquire(pid("b")).unwrap_err(), ToolError::PoolExhausted);
}

#[test]
fn stale_handle_rejected() {
    let mut pool = VmPool::new();
    let mock = Mock::new();
    pool.warm(&profile("a"), &mock).unwrap();
    let h1 = pool.acquire(pid("a")).unwrap();
    let _h2 = pool.start(h1).unwrap();
    let stale = pool.release(h1);
    assert!(matches!(stale, Err(ToolError::InvalidRequest(_))));
}

#[test]
fn stale_handle_message_and_handle_used_once() {
    let mut pool = VmPool::new();
    let mock = Mock::new();
    pool.warm(&profile("a"), &mock).unwrap();
    let h1 = pool.acquire(pid("a")).unwrap();
    pool.start(h1).unwrap();
    assert_eq!(pool.start(h1).unwrap_err(), ToolError::InvalidRequest("stale handle".into()));
    assert_eq!(pool.release(h1).unwrap_err(), ToolError::InvalidRequest("stale handle".into()));
}

#[test]
fn generations_step_by_one() {
    let mut pool = VmPool::new();
    let mock = Mock::new();
    let id = pool.warm(&profile("a"), &mock).unwrap();
    let h1 = pool.acquire(pid("a")).unwrap();
    assert_eq!((h1.slot, h1.generation, h1.vm_id), (0, 2, id));
    let h2 = pool.start(h1).unwrap();
    assert_eq!(h2.generation, 3);
}

#[test]
fn illegal_transition_is_refused_with_message() {
    let mut pool = VmPool::new();
    let mock = Mock::new();
    pool.warm(&profile("a"), &mock).unwrap();
    let h1 = pool.acquire(pid("a")).unwrap();
    assert_eq!(
        pool.release(h1).unwrap_err(),
        ToolError::InvalidRequest("illegal transition Leased->Scrubbing".into())
    );
    // the refusal changed nothing: the lease can still start
    assert!(pool.start(h1).is_ok());
}

#[test]
fn no_double_lease_and_profiles_kept_apart() {
    let mut pool = VmPool::new();
    let mock = Mock::new();
    pool.warm(&profile("a"), &mock).unwrap();
    pool.warm(&profile("b"), &mock).unwrap();
    pool.warm(&profile("a"), &mock).unwrap();
    let h1 = pool.acquire(pid("a")).unwrap();
    let h2 = pool.acquire(pid("a")).unwrap();
    assert_ne!(h1.slot, h2.slot);
    assert_eq!((h1.slot, h2.slot), (0, 2));
    assert_eq!(pool.acquire(pid("a")).unwrap_err(), ToolError::PoolExhausted);
    let hb = pool.acquire(pid("b")).unwrap();
    assert_eq!(hb.slot, 1);
}

#[test]
fn warm_error_leaves_pool_unchanged() {
    let mut pool = VmPool::new();
    assert_eq!(pool.warm(&profile("a"), &FailingCreate).unwrap_err(), ToolError::Backend("no kvm".into()));
    assert_eq!(pool.acquire(pid("a")).unwrap_err(), ToolError::PoolExhausted);
}

#[test]
fn fnv1a_64_known_values() {
    assert_eq!(fnv1a_64(""), 14695981039346656037);
    assert_eq!(fnv1a_64("a"), 12638187200555641996);
    assert_eq!(fnv1a_64("firecracker-python"), 485379048550060707);
}
