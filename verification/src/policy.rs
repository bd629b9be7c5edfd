//! The capability gate, like a kernel security module: it sits between the
//! orchestrator and the runtime and refuses a request before any backend runs.
//! Pure and deterministic; loading a policy from a file is the caller's part.
use crate::error::{ToolError, ToolErrorView};
use crate::protocol::CommandRequest;
use crate::text::{
    contains_sub, debug_str, debug_text, decimal, lemma_contains_placed, push_decimal, str_contains,
};
use crate::types::{backend_name, BackendKind};
use vstd::prelude::*;

verus! {

#[derive(Debug, Clone, PartialEq, Eq)]
pub struct Policy {
    pub name: String,
    pub allowed_backends: Vec<BackendKind>,
    pub max_timeout_ms: u32,
    pub max_output_bytes: u64,
    pub max_arg_count: usize,
    pub allow_args: Option<Vec<String>>,
    pub deny_args: Vec<String>,
}

/// The bounds that are enforced once a request passed: the policy is a ceiling.
#[derive(Debug, Clone, Copy, PartialEq, Eq, Structural)]
pub struct Limits {
    pub timeout_ms: u32,
    pub max_stdout_bytes: u64,
    pub max_stderr_bytes: u64,
}

/// Some pattern of `pats` occurs in `arg`.
pub open spec fn matches_any_spec(arg: Seq<char>, pats: Seq<String>) -> bool {
    exists|j: int| 0 <= j < pats.len() && contains_sub(arg, #[trigger] pats[j]@)
}

/// The first index below `n` where `pred` holds.
pub open spec fn first_where(n: int, pred: spec_fn(int) -> bool) -> int {
    choose|i: int| 0 <= i < n && #[trigger] pred(i) && forall|j: int| 0 <= j < i ==> !#[trigger] pred(j)
}

pub open spec fn min_u32(a: u32, b: u32) -> u32 {
    if a <= b {
        a
    } else {
        b
    }
}

pub open spec fn min_u64(a: u64, b: u64) -> u64 {
    if a <= b {
        a
    } else {
        b
    }
}

/// Argument `i` of `argv` holds a denied pattern.
pub open spec fn denied_at(p: Policy, argv: Seq<String>, i: int) -> bool {
    matches_any_spec(argv[i]@, p.deny_args@)
}

/// Argument `i` of `argv` matches no pattern of the allow list, if there is one.
pub open spec fn unlisted_at(p: Policy, argv: Seq<String>, i: int) -> bool {
    p.allow_args matches Some(allow) && !matches_any_spec(argv[i]@, allow@)
}

/// The arguments that hold a denied pattern.
pub open spec fn denied_pred(p: Policy, argv: Seq<String>) -> spec_fn(int) -> bool {
    |i: int| denied_at(p, argv, i)
}

/// The arguments that the allow list does not cover.
pub open spec fn unlisted_pred(p: Policy, argv: Seq<String>) -> spec_fn(int) -> bool {
    |i: int| unlisted_at(p, argv, i)
}

pub open spec fn backend_denied_message(b: BackendKind, policy_name: Seq<char>) -> Seq<char> {
    "backend '"@ + backend_name(b) + "' tidak diizinkan oleh policy '"@ + policy_name + "'"@
}

pub open spec fn arg_count_message(count: nat, max: nat) -> Seq<char> {
    "jumlah argumen "@ + decimal(count) + " melebihi max_arg_count "@ + decimal(max)
}

pub open spec fn denied_arg_message(arg: Seq<char>) -> Seq<char> {
    "argumen mengandung pola terlarang: "@ + debug_text(arg)
}

pub open spec fn unlisted_arg_message(arg: Seq<char>) -> Seq<char> {
    "argumen tidak cocok allowlist: "@ + debug_text(arg)
}

/// The limits of a request that passed: each bound of the request, clamped to
/// the policy's ceiling.
pub open spec fn clamped_limits(p: Policy, timeout_ms: u32, max_stdout: u64, max_stderr: u64) -> Limits {
    Limits {
        timeout_ms: min_u32(timeout_ms, p.max_timeout_ms),
        max_stdout_bytes: min_u64(max_stdout, p.max_output_bytes),
        max_stderr_bytes: min_u64(max_stderr, p.max_output_bytes),
    }
}

/// The decision on a request with arguments `argv` and the given bounds: its
/// limits, or the text of the refusal. The gates are checked in order: backend,
/// argument count, denied patterns, allow list.
pub open spec fn decide(
    p: Policy,
    b: BackendKind,
    argv: Seq<String>,
    timeout_ms: u32,
    max_stdout: u64,
    max_stderr: u64,
) -> Result<Limits, Seq<char>> {
    let n = argv.len() as int;
    if !p.allowed_backends@.contains(b) {
        Err(backend_denied_message(b, p.name@))
    } else if argv.len() > p.max_arg_count {
        Err(arg_count_message(argv.len(), p.max_arg_count as nat))
    } else if exists|i: int| 0 <= i < n && denied_at(p, argv, i) {
        Err(denied_arg_message(argv[first_where(n, denied_pred(p, argv))]@))
    } else if exists|i: int| 0 <= i < n && unlisted_at(p, argv, i) {
        Err(unlisted_arg_message(argv[first_where(n, unlisted_pred(p, argv))]@))
    } else {
        Ok(clamped_limits(p, timeout_ms, max_stdout, max_stderr))
    }
}

/// The decision on a request.
pub open spec fn evaluate_spec(p: Policy, b: BackendKind, req: CommandRequest) -> Result<
    Limits,
    Seq<char>,
> {
    decide(p, b, req.argv@, req.timeout_ms, req.max_stdout_bytes, req.max_stderr_bytes)
}

proof fn lemma_first_where_is(n: int, pred: spec_fn(int) -> bool, i: int)
    requires
        0 <= i < n,
        pred(i),
        forall|j: int| 0 <= j < i ==> !#[trigger] pred(j),
    ensures
        first_where(n, pred) == i,
{
    let k = first_where(n, pred);
    assert(0 <= k < n && pred(k) && forall|j: int| 0 <= j < k ==> !#[trigger] pred(j));
    if k < i {
        assert(!pred(k));
    }
    if k > i {
        assert(!pred(i));
    }
}

/// Whether some pattern of `pats` occurs in `arg`.
pub fn matches_any(arg: &str, pats: &[String]) -> (r: bool)
    ensures
        r == matches_any_spec(arg@, pats@),
{
    let mut j: usize = 0;
    while j < pats.len()
        invariant
            j <= pats@.len(),
            forall|k: int| 0 <= k < j ==> !contains_sub(arg@, #[trigger] pats@[k]@),
        decreases pats@.len() - j,
    {
        if str_contains(arg, pats[j].as_str()) {
            return true;
        }
        j = j + 1;
    }
    false
}

fn contains_backend(v: &Vec<BackendKind>, b: BackendKind) -> (r: bool)
    ensures
        r == v@.contains(b),
{
    let mut i: usize = 0;
    while i < v.len()
        invariant
            i <= v@.len(),
            forall|k: int| 0 <= k < i ==> v@[k] != b,
        decreases v@.len() - i,
    {
        if v[i] == b {
            return true;
        }
        i = i + 1;
    }
    false
}

fn denied_with(prefix: &str, arg: &str) -> (r: ToolError)
    ensures
        r@ == ToolErrorView::PolicyDenied(prefix@ + debug_text(arg@)),
{
    let mut m = String::from_str(prefix);
    let q = debug_str(arg);
    m.append(q.as_str());
    ToolError::PolicyDenied(m)
}

/// The policy is a ceiling: the limits of a request that passes never exceed
/// the policy's bounds nor the request's own, and are the smaller of the two.
pub proof fn lemma_limits_within_ceiling(p: Policy, b: BackendKind, req: CommandRequest)
    ensures
        evaluate_spec(p, b, req) matches Ok(l) ==> {
            &&& l.timeout_ms <= p.max_timeout_ms && l.timeout_ms <= req.timeout_ms
            &&& l.max_stdout_bytes <= p.max_output_bytes
            &&& l.max_stdout_bytes <= req.max_stdout_bytes
            &&& l.max_stderr_bytes <= p.max_output_bytes
            &&& l.max_stderr_bytes <= req.max_stderr_bytes
            &&& (l.timeout_ms == p.max_timeout_ms || l.timeout_ms == req.timeout_ms)
            &&& (l.max_stdout_bytes == p.max_output_bytes || l.max_stdout_bytes
                == req.max_stdout_bytes)
            &&& (l.max_stderr_bytes == p.max_output_bytes || l.max_stderr_bytes
                == req.max_stderr_bytes)
        },
{
}

/// A request passes exactly when it clears every gate: its backend is allowed,
/// it has no more arguments than the policy takes, no argument holds a denied
/// pattern, and every argument is covered by the allow list when there is one.
/// A denied pattern wins over the allow list.
pub proof fn lemma_pass_iff_all_gates(p: Policy, b: BackendKind, req: CommandRequest)
    ensures
        evaluate_spec(p, b, req) is Ok <==> {
            &&& p.allowed_backends@.contains(b)
            &&& req.argv@.len() <= p.max_arg_count
            &&& forall|i: int| 0 <= i < req.argv@.len() ==> !denied_at(p, req.argv@, i)
            &&& forall|i: int| 0 <= i < req.argv@.len() ==> !unlisted_at(p, req.argv@, i)
        },
{
}

/// An argument that holds a denied pattern anywhere, its very end included,
/// gets the request refused.
pub proof fn lemma_denied_pattern_refused(
    p: Policy,
    b: BackendKind,
    req: CommandRequest,
    i: int,
    j: int,
    before: Seq<char>,
    after: Seq<char>,
)
    requires
        0 <= i < req.argv@.len(),
        0 <= j < p.deny_args@.len(),
        req.argv@[i]@ == before + p.deny_args@[j]@ + after,
    ensures
        evaluate_spec(p, b, req) is Err,
{
    lemma_contains_placed(before, p.deny_args@[j]@, after);
    assert(denied_at(p, req.argv@, i));
    lemma_pass_iff_all_gates(p, b, req);
}

impl Policy {
    /// Evaluates one request. `Ok(Limits)`: it passes, with its bounds clamped;
    /// `Err(PolicyDenied)`: refused before any backend runs.
    pub fn evaluate(&self, backend: BackendKind, req: &CommandRequest) -> (r: Result<
        Limits,
        ToolError,
    >)
        ensures
            match (r, evaluate_spec(*self, backend, *req)) {
                (Ok(l), Ok(l2)) => l == l2,
                (Err(e), Err(m)) => e@ == ToolErrorView::PolicyDenied(m),
                _ => false,
            },
    {
        let ghost argv = req.argv@;
        let ghost n = argv.len() as int;
        if !contains_backend(&self.allowed_backends, backend) {
            let mut m = String::from_str("backend '");
            m.append(backend.name());
            m.append("' tidak diizinkan oleh policy '");
            m.append(self.name.as_str());
            m.append("'");
            return Err(ToolError::PolicyDenied(m));
        }
        if req.argv.len() > self.max_arg_count {
            let mut m = String::from_str("jumlah argumen ");
            push_decimal(&mut m, req.argv.len() as u64);
            m.append(" melebihi max_arg_count ");
            push_decimal(&mut m, self.max_arg_count as u64);
            return Err(ToolError::PolicyDenied(m));
        }
        let mut i: usize = 0;
        while i < req.argv.len()
            invariant
                argv == req.argv@,
                n == argv.len(),
                self.allowed_backends@.contains(backend),
                argv.len() <= self.max_arg_count,
                i <= argv.len(),
                forall|j: int| 0 <= j < i ==> !denied_at(*self, argv, j),
            decreases argv.len() - i,
        {
            if matches_any(req.argv[i].as_str(), self.deny_args.as_slice()) {
                proof {
                    assert(0 <= i < n && denied_at(*self, argv, i as int));
                    lemma_first_where_is(n, denied_pred(*self, argv), i as int);
                }
                return Err(denied_with("argumen mengandung pola terlarang: ", req.argv[i].as_str()));
            }
            i = i + 1;
        }
        match &self.allow_args {
            Some(allow) => {
                let mut i: usize = 0;
                while i < req.argv.len()
                    invariant
                        argv == req.argv@,
                        n == argv.len(),
                        self.allowed_backends@.contains(backend),
                        argv.len() <= self.max_arg_count,
                        forall|j: int| 0 <= j < n ==> !denied_at(*self, argv, j),
                        self.allow_args == Some(*allow),
                        i <= argv.len(),
                        forall|j: int| 0 <= j < i ==> !unlisted_at(*self, argv, j),
                    decreases argv.len() - i,
                {
                    if !matches_any(req.argv[i].as_str(), allow.as_slice()) {
                        proof {
                            assert(0 <= i < n && unlisted_at(*self, argv, i as int));
                            lemma_first_where_is(n, unlisted_pred(*self, argv), i as int);
                        }
                        return Err(denied_with("argumen tidak cocok allowlist: ", req.argv[i].as_str()));
                    }
                    i = i + 1;
                }
            },
            None => {},
        }
        let timeout_ms = if req.timeout_ms <= self.max_timeout_ms {
            req.timeout_ms
        } else {
            self.max_timeout_ms
        };
        let max_stdout_bytes = if req.max_stdout_bytes <= self.max_output_bytes {
            req.max_stdout_bytes
        } else {
            self.max_output_bytes
        };
        let max_stderr_bytes = if req.max_stderr_bytes <= self.max_output_bytes {
            req.max_stderr_bytes
        } else {
            self.max_output_bytes
        };
        Ok(Limits { timeout_ms, max_stdout_bytes, max_stderr_bytes })
    }
}

} // verus!
