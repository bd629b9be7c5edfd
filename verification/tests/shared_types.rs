use aimt::capability::CapabilitySet;
use aimt::error::ToolError;
use aimt::tcb::{VmTcb, VM_TCB_MAGIC};
use aimt::types::{BackendKind, VmId, VmState};
use std::fmt;

#[test]
fn minimal_has_no_net() {
    let c = CapabilitySet::minimal();
    assert!(!c.net);
    assert_eq!(c.max_processes, 1);
}

#[test]
fn minimal_has_no_paths_and_sixteen_files() {
    let c = CapabilitySet::minimal();
    assert!(c.write_paths.is_empty() && c.read_paths.is_empty());
    assert!(c.allow_syscalls.is_empty() && c.deny_syscalls.is_empty());
    assert_eq!(c.max_open_files, 16);
}

#[test]
fn messages_are_descriptive() {
    assert!(ToolError::Timeout(5000).message().contains("5000"));
    assert!(ToolError::PolicyDenied("no net".into()).message().contains("no net"));
    assert_eq!(ToolError::OomKilled.message(), "oom killed");
}

#[test]
fn every_message_text() {
    assert_eq!(ToolError::PolicyDenied("x".into()).message(), "policy denied: x");
    assert_eq!(ToolError::PoolExhausted.message(), "vm pool exhausted");
    assert_eq!(ToolError::Backend("b".into()).message(), "backend error: b");
    assert_eq!(ToolError::Snapshot("s".into()).message(), "snapshot error: s");
    assert_eq!(ToolError::Transport("t".into()).message(), "transport error: t");
    assert_eq!(ToolError::GuestAgent("g".into()).message(), "guest agent error: g");
    assert_eq!(ToolError::Timeout(0).message(), "command timeout after 0 ms");
    assert_eq!(ToolError::Timeout(4294967295).message(), "command timeout after 4294967295 ms");
    assert_eq!(ToolError::InvalidCapability.message(), "invalid capability token");
    assert_eq!(ToolError::InvalidRequest("r".into()).message(), "invalid request: r");
}

/// Carries a `ToolError` where a `std::error::Error` is wanted; its text is the
/// error's message.
#[derive(Debug)]
struct AsStdError(ToolError);

impl fmt::Display for AsStdError {
    fn fmt(&self, f: &mut fmt::Formatter<'_>) -> fmt::Result {
        f.write_str(&self.0.message())
    }
}

impl std::error::Error for AsStdError {}

#[test]
fn implements_std_error() {
    let e: Box<dyn std::error::Error> = Box::new(AsStdError(ToolError::PoolExhausted));
    assert!(e.to_string().contains("exhausted"));
}

#[test]
fn vm_id_from_u64_and_copy() {
    let a = VmId::from(42);
    let b = VmId(42);
    assert_eq!(a, b);
    let c = a;
    assert_eq!(c.0, 42);
}

#[test]
fn vm_state_roundtrip_u8() {
    for v in 0..=9u8 {
        let s = VmState::from_u8(v).expect("valid state");
        assert_eq!(s.to_u8(), v);
    }
    assert!(VmState::from_u8(255).is_none());
    assert_eq!(VmState::Running.to_u8(), 4);
}

#[test]
fn vm_state_from_u8_rejects_every_byte_above_nine() {
    for v in 10..=255u8 {
        assert!(VmState::from_u8(v).is_none());
    }
    assert_eq!(VmState::from_u8(0), Some(VmState::Building));
    assert_eq!(VmState::from_u8(9), Some(VmState::Destroyed));
}

#[test]
fn state_and_backend_names() {
    assert_eq!(VmState::Snapshotting.name(), "Snapshotting");
    assert_eq!(VmState::Ready.name(), format!("{:?}", VmState::Ready));
    assert_eq!(BackendKind::ProcessJail.name(), format!("{:?}", BackendKind::ProcessJail));
}

#[test]
fn slot_is_one_cache_line() {
    assert_eq!(std::mem::size_of::<VmTcb>(), 64);
    assert_eq!(std::mem::align_of::<VmTcb>(), 8);
}

#[test]
fn new_sets_magic_and_state() {
    let t = VmTcb::new(7, 99, VmState::Ready);
    assert_eq!(t.magic, VM_TCB_MAGIC);
    assert_eq!(t.vm_id, 7);
    assert_eq!(t.profile_id, 99);
    assert_eq!(t.state(), Some(VmState::Ready));
    assert_eq!(t.generation, 1);
}

#[test]
fn generation_wraps() {
    let mut t = VmTcb::new(1, 1, VmState::Ready);
    t.generation = u32::MAX;
    t.bump_generation();
    assert_eq!(t.generation, 0);
}

#[test]
fn bump_generation_changes_nothing_else() {
    let mut t = VmTcb::new(3, 4, VmState::Leased);
    let before = t;
    t.bump_generation();
    assert_eq!(t.generation, 2);
    t.generation = before.generation;
    assert_eq!(t, before);
}

#[test]
fn corrupt_state_byte_reads_as_none() {
    let mut t = VmTcb::new(1, 1, VmState::Ready);
    t.state = 42;
    assert_eq!(t.state(), None);
}
