//! The guest-side policy check: a built-in policy, the command-line names of the
//! backends, and the path from the command's text arguments to a decision.
use crate::error::{ToolError, ToolErrorView};
use crate::policy::{decide, Limits, Policy};
use crate::protocol::CommandRequest;
use crate::text::{decimal, digit_char, str_eq};
use crate::types::BackendKind;
use core::num::{IntErrorKind, ParseIntError};
use std::collections::BTreeMap;
use vstd::prelude::*;

verus! {

#[verifier::external_type_specification]
#[verifier::external_body]
pub struct ExParseIntError(ParseIntError);

/// An ASCII decimal digit.
pub open spec fn is_ascii_digit(c: char) -> bool {
    '0' <= c <= '9'
}

/// The value of a run of decimal digits.
pub open spec fn digits_value(d: Seq<char>) -> nat
    decreases d.len(),
{
    if d.len() == 0 {
        0
    } else {
        digits_value(d.drop_last()) * 10 + (d.last() as nat - '0' as nat) as nat
    }
}

/// The text after an optional leading `+` (a `+` alone stays as it is).
pub open spec fn unsigned_body(s: Seq<char>) -> Seq<char> {
    if s.len() > 1 && s[0] == '+' {
        s.drop_first()
    } else {
        s
    }
}

/// The value of an unsigned decimal text as the standard library reads it: an
/// optional `+`, then at least one ASCII digit and nothing else.
pub open spec fn unsigned_text_value(s: Seq<char>) -> Option<nat> {
    let d = unsigned_body(s);
    if d.len() > 0 && forall|i: int| 0 <= i < d.len() ==> is_ascii_digit(#[trigger] d[i]) {
        Some(digits_value(d))
    } else {
        None
    }
}

/// The decimal text of a number reads back as that number, and it has no
/// leading zero.
pub proof fn lemma_decimal_reads_back(n: nat)
    ensures
        unsigned_text_value(decimal(n)) == Some(n),
        decimal(n).len() > 1 ==> decimal(n)[0] != '0',
{
    lemma_decimal_digits(n);
    let d = decimal(n);
    assert(d[0] != '+');
    assert(unsigned_body(d) == d);
}

proof fn lemma_decimal_digits(n: nat)
    ensures
        decimal(n).len() >= 1,
        forall|i: int| 0 <= i < decimal(n).len() ==> is_ascii_digit(#[trigger] decimal(n)[i]),
        digits_value(decimal(n)) == n,
        decimal(n).len() > 1 ==> decimal(n)[0] != '0',
    decreases n,
{
    if n < 10 {
        let d = decimal(n);
        assert(d.drop_last() =~= Seq::<char>::empty());
        assert(d.last() == digit_char(n));
        assert(digit_char(n) as nat - '0' as nat == n);
        assert(digits_value(d) == digits_value(d.drop_last()) * 10 + (d.last() as nat - '0' as nat) as nat);
    } else {
        lemma_decimal_digits(n / 10);
        let p = decimal(n / 10);
        let d = decimal(n);
        assert(d == p.push(digit_char(n % 10)));
        assert(d.drop_last() =~= p);
        assert(digit_char(n % 10) as nat - '0' as nat == n % 10);
        assert((n / 10) * 10 + n % 10 == n) by (nonlinear_arith);
        assert(digits_value(d) == digits_value(p) * 10 + (d.last() as nat - '0' as nat) as nat);
        assert(forall|i: int| 0 <= i < p.len() ==> d[i] == p[i]);
        assert(d[0] == p[0]);
        if p.len() == 1 {
            assert(n / 10 < 10) by {
                if n / 10 >= 10 {
                    lemma_decimal_digits((n / 10) / 10);
                    assert(decimal(n / 10).len() == decimal((n / 10) / 10).len() + 1);
                }
            }
            assert(p[0] == digit_char(n / 10));
        }
    }
}

/// The longest run of ASCII digits that `d` starts with.
pub open spec fn digit_run(d: Seq<char>) -> Seq<char>
    decreases d.len(),
{
    if d.len() == 0 || !is_ascii_digit(d[0]) {
        Seq::empty()
    } else {
        seq![d[0]] + digit_run(d.drop_first())
    }
}

/// Why a text is not an unsigned number: the kinds of `ParseIntError` that
/// reading an unsigned integer can give.
#[derive(Debug, Clone, Copy, PartialEq, Eq, Structural)]
pub enum NumberFault {
    /// The text is empty.
    Empty,
    /// A character is not a digit where one is needed (a `+` alone counts).
    InvalidDigit,
    /// The number is larger than the largest value of the type, `max`.
    PosOverflow,
}

/// The faults that reading `s` as an unsigned number of at most `max` may give,
/// where `s` does not read as one. An empty text is `Empty`; a number that is
/// only too large is `PosOverflow`; a text with a character out of place is
/// `InvalidDigit` when the digits before it fit. When those digits are already
/// too large, either fault may come: which one is left open.
pub open spec fn number_fault_of(s: Seq<char>, max: nat, f: NumberFault) -> bool {
    if s.len() == 0 {
        f == NumberFault::Empty
    } else if unsigned_text_value(s) is Some {
        f == NumberFault::PosOverflow
    } else if digits_value(digit_run(unsigned_body(s))) <= max {
        f == NumberFault::InvalidDigit
    } else {
        f == NumberFault::InvalidDigit || f == NumberFault::PosOverflow
    }
}

/// `s.parse::<u32>()` of the standard library, with the error's `kind()`.
/// Claimed, as its documentation gives it: it succeeds exactly on an optional
/// `+` followed by ASCII digits whose value fits, and then returns that value;
/// otherwise the kind is as `number_fault_of` says.
#[verifier::external_body]
fn parse_u32(s: &str) -> (r: Result<u32, (ParseIntError, NumberFault)>)
    ensures
        r is Ok <==> (unsigned_text_value(s@) matches Some(v) && v <= u32::MAX),
        r matches Ok(v) ==> unsigned_text_value(s@) == Some(v as nat),
        r matches Err((_, f)) ==> number_fault_of(s@, u32::MAX as nat, f),
{
    match s.parse::<u32>() {
        Ok(v) => Ok(v),
        Err(e) => {
            let kind = e.kind().clone();
            match kind {
                IntErrorKind::Empty => Err((e, NumberFault::Empty)),
                IntErrorKind::PosOverflow => Err((e, NumberFault::PosOverflow)),
                _ => Err((e, NumberFault::InvalidDigit)),
            }
        },
    }
}

/// `s.parse::<u64>()` of the standard library, with the error's `kind()`.
/// Claimed, as its documentation gives it: it succeeds exactly on an optional
/// `+` followed by ASCII digits whose value fits, and then returns that value;
/// otherwise the kind is as `number_fault_of` says.
#[verifier::external_body]
fn parse_u64(s: &str) -> (r: Result<u64, (ParseIntError, NumberFault)>)
    ensures
        r is Ok <==> (unsigned_text_value(s@) matches Some(v) && v <= u64::MAX),
        r matches Ok(v) ==> unsigned_text_value(s@) == Some(v as nat),
        r matches Err((_, f)) ==> number_fault_of(s@, u64::MAX as nat, f),
{
    match s.parse::<u64>() {
        Ok(v) => Ok(v),
        Err(e) => {
            let kind = e.kind().clone();
            match kind {
                IntErrorKind::Empty => Err((e, NumberFault::Empty)),
                IntErrorKind::PosOverflow => Err((e, NumberFault::PosOverflow)),
                _ => Err((e, NumberFault::InvalidDigit)),
            }
        },
    }
}

/// An example policy; its numeric ceilings match the default policy file
/// (timeout 10000 ms, output 1048576 bytes).
pub fn builtin_policy() -> (p: Policy)
    ensures
        p.name@ == "builtin-default"@,
        p.allowed_backends@ == seq![BackendKind::Wasm, BackendKind::ProcessJail],
        p.max_timeout_ms == 10_000,
        p.max_output_bytes == 1_048_576,
        p.max_arg_count == 64,
        p.allow_args is None,
        p.deny_args@.len() == 3,
        p.deny_args@[0]@ == "rm -rf"@,
        p.deny_args@[1]@ == "sudo"@,
        p.deny_args@[2]@ == "--privileged"@,
{
    let mut allowed: Vec<BackendKind> = Vec::new();
    allowed.push(BackendKind::Wasm);
    allowed.push(BackendKind::ProcessJail);
    let mut deny: Vec<String> = Vec::new();
    deny.push(String::from_str("rm -rf"));
    deny.push(String::from_str("sudo"));
    deny.push(String::from_str("--privileged"));
    Policy {
        name: String::from_str("builtin-default"),
        allowed_backends: allowed,
        max_timeout_ms: 10_000,
        max_output_bytes: 1_048_576,
        max_arg_count: 64,
        allow_args: None,
        deny_args: deny,
    }
}

/// The backend that a command-line name stands for (lowercase, dashed; not the
/// serialized form).
pub open spec fn backend_of_name(s: Seq<char>) -> Option<BackendKind> {
    if s == "wasm"@ {
        Some(BackendKind::Wasm)
    } else if s == "process-jail"@ {
        Some(BackendKind::ProcessJail)
    } else if s == "firecracker"@ {
        Some(BackendKind::Firecracker)
    } else if s == "libkrun"@ {
        Some(BackendKind::Libkrun)
    } else if s == "remote"@ {
        Some(BackendKind::Remote)
    } else {
        None
    }
}

pub open spec fn unknown_backend_message(s: Seq<char>) -> Seq<char> {
    "unknown backend: "@ + s
}

pub fn parse_backend(s: &str) -> (r: Result<BackendKind, String>)
    ensures
        match backend_of_name(s@) {
            Some(b) => r == Ok::<BackendKind, String>(b),
            None => r matches Err(m) && m@ == unknown_backend_message(s@),
        },
{
    if str_eq(s, "wasm") {
        Ok(BackendKind::Wasm)
    } else if str_eq(s, "process-jail") {
        Ok(BackendKind::ProcessJail)
    } else if str_eq(s, "firecracker") {
        Ok(BackendKind::Firecracker)
    } else if str_eq(s, "libkrun") {
        Ok(BackendKind::Libkrun)
    } else if str_eq(s, "remote") {
        Ok(BackendKind::Remote)
    } else {
        let mut m = String::from_str("unknown backend: ");
        m.append(s);
        Err(m)
    }
}

/// The request that a policy check evaluates: only the arguments and bounds
/// are filled in.
pub fn build_req(argv: Vec<String>, timeout_ms: u32, maxout: u64) -> (r: CommandRequest)
    ensures
        r.request_id@ == Seq::<char>::empty(),
        r.lease_id@ == Seq::<char>::empty(),
        r.capability_token@ == Seq::<char>::empty(),
        r.argv == argv,
        r.env@ == Map::<String, String>::empty(),
        r.cwd is None,
        r.stdin is None,
        r.timeout_ms == timeout_ms,
        r.max_stdout_bytes == maxout,
        r.max_stderr_bytes == maxout,
        !r.stream,
{
    CommandRequest {
        request_id: String::new(),
        lease_id: String::new(),
        capability_token: String::new(),
        argv,
        env: BTreeMap::new(),
        cwd: None,
        stdin: None,
        timeout_ms,
        max_stdout_bytes: maxout,
        max_stderr_bytes: maxout,
        stream: false,
    }
}

/// The arguments to check: everything after a leading `--`, or all of them.
pub open spec fn check_args_of(rest: Seq<String>) -> Seq<String> {
    if rest.len() > 0 && rest[0]@ == "--"@ {
        rest.drop_first()
    } else {
        rest
    }
}

pub fn split_check(rest: &[String]) -> (r: Vec<String>)
    ensures
        r@ == check_args_of(rest@),
{
    let start: usize = if rest.len() > 0 && str_eq(rest[0].as_str(), "--") {
        1
    } else {
        0
    };
    let mut out: Vec<String> = Vec::new();
    let mut i: usize = start;
    while i < rest.len()
        invariant
            start <= i <= rest@.len(),
            out@ == rest@.subrange(start as int, i as int),
        decreases rest@.len() - i,
    {
        out.push(rest[i].clone());
        i = i + 1;
        assert(out@ =~= rest@.subrange(start as int, i as int));
    }
    assert(rest@.subrange(start as int, rest@.len() as int) =~= check_args_of(rest@));
    out
}

/// Why the command's text arguments could not be read.
#[derive(Debug)]
pub enum ArgsError {
    /// The backend name is unknown; the text says which.
    Backend(String),
    /// The timeout is not an unsigned 32-bit decimal: the error and its kind.
    Timeout(ParseIntError, NumberFault),
    /// The output bound is not an unsigned 64-bit decimal: the error and its kind.
    MaxOutput(ParseIntError, NumberFault),
}

/// The timeout text reads as a `u32`.
pub open spec fn u32_text_ok(s: Seq<char>) -> bool {
    unsigned_text_value(s) matches Some(v) && v <= u32::MAX
}

/// The output-bound text reads as a `u64`.
pub open spec fn u64_text_ok(s: Seq<char>) -> bool {
    unsigned_text_value(s) matches Some(v) && v <= u64::MAX
}

/// Reads the backend name, the timeout and the output bound, builds the request
/// and evaluates it: the backend and the decision, or what could not be read.
pub fn evaluate_args(
    policy: &Policy,
    backend_str: &str,
    timeout_str: &str,
    maxout_str: &str,
    check_args: Vec<String>,
) -> (r: Result<(BackendKind, Result<Limits, ToolError>), ArgsError>)
    ensures
        match backend_of_name(backend_str@) {
            None => r matches Err(ArgsError::Backend(m)) && m@ == unknown_backend_message(
                backend_str@,
            ),
            Some(b) => if !u32_text_ok(timeout_str@) {
                r matches Err(ArgsError::Timeout(_, f)) && number_fault_of(
                    timeout_str@,
                    u32::MAX as nat,
                    f,
                )
            } else if !u64_text_ok(maxout_str@) {
                r matches Err(ArgsError::MaxOutput(_, f)) && number_fault_of(
                    maxout_str@,
                    u64::MAX as nat,
                    f,
                )
            } else {
                r matches Ok((b2, res)) && b2 == b && match (
                    res,
                    decide(
                        *policy,
                        b,
                        check_args@,
                        unsigned_text_value(timeout_str@)->0 as u32,
                        unsigned_text_value(maxout_str@)->0 as u64,
                        unsigned_text_value(maxout_str@)->0 as u64,
                    ),
                ) {
                    (Ok(l), Ok(l2)) => l == l2,
                    (Err(e), Err(m)) => e@ == ToolErrorView::PolicyDenied(m),
                    _ => false,
                }
            },
        },
{
    let backend = match parse_backend(backend_str) {
        Ok(b) => b,
        Err(e) => {
            return Err(ArgsError::Backend(e));
        },
    };
    let timeout_ms = match parse_u32(timeout_str) {
        Ok(v) => v,
        Err((e, f)) => {
            return Err(ArgsError::Timeout(e, f));
        },
    };
    let maxout = match parse_u64(maxout_str) {
        Ok(v) => v,
        Err((e, f)) => {
            return Err(ArgsError::MaxOutput(e, f));
        },
    };
    let req = build_req(check_args, timeout_ms, maxout);
    let res = policy.evaluate(backend, &req);
    Ok((backend, res))
}

} // verus!
