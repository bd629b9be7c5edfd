//! Execution request and result: argv, environment and resource bounds in,
//! exit status, output and metrics out.
use std::collections::BTreeMap;
use vstd::prelude::*;

verus! {

#[derive(Debug, Clone, PartialEq, Eq)]
pub struct CommandRequest {
    pub request_id: String,
    pub lease_id: String,
    pub capability_token: String,
    pub argv: Vec<String>,
    pub env: BTreeMap<String, String>,
    pub cwd: Option<String>,
    pub stdin: Option<Vec<u8>>,
    pub timeout_ms: u32,
    pub max_stdout_bytes: u64,
    pub max_stderr_bytes: u64,
    pub stream: bool,
}

#[derive(Debug, Clone, PartialEq, Eq)]
pub struct CommandResult {
    pub request_id: String,
    pub exit_code: i32,
    pub stdout: Vec<u8>,
    pub stderr: Vec<u8>,
    pub timed_out: bool,
    pub killed: bool,
    pub metrics: ExecutionMetrics,
    pub artifacts: Vec<ArtifactRef>,
}

#[derive(Debug, Clone, PartialEq, Eq)]
pub struct ExecutionMetrics {
    pub wall_time_ms: u64,
    pub user_cpu_ms: u64,
    pub sys_cpu_ms: u64,
    pub max_rss_bytes: u64,
    pub oom_killed: bool,
    pub bytes_stdout: u64,
    pub bytes_stderr: u64,
}

#[derive(Debug, Clone, PartialEq, Eq)]
pub struct ArtifactRef {
    pub name: String,
    pub path: String,
    pub sha256: String,
    pub size_bytes: u64,
}

} // verus!
