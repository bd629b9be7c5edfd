use aimt::cli::{
    build_req, builtin_policy, evaluate_args, parse_backend, split_check, ArgsError, NumberFault,
};
use aimt::error::ToolError;
use aimt::policy::{matches_any, Limits, Policy};
use aimt::protocol::CommandRequest;
use aimt::types::BackendKind;
use std::collections::BTreeMap;

fn req(argv: &[&str], timeout_ms: u32) -> CommandRequest {
    CommandRequest {
        request_id: "r".into(),
        lease_id: "l".into(),
        capability_token: "t".into(),
        argv: argv.iter().map(|s| s.to_string()).collect(),
        env: BTreeMap::new(),
        cwd: None,
        stdin: None,
        timeout_ms,
        max_stdout_bytes: 9_999_999,
        max_stderr_bytes: 9_999_999,
        stream: false,
    }
}

fn pol() -> Policy {
    Policy {
        name: "default".into(),
        allowed_backends: vec![BackendKind::Wasm],
        max_timeout_ms: 10_000,
        max_output_bytes: 1_000_000,
        max_arg_count: 64,
        allow_args: None,
        deny_args: vec!["rm -rf".into(), "sudo".into()],
    }
}

#[test]
fn allowed_backend_passes_with_clamp() {
    let lim = pol().evaluate(BackendKind::Wasm, &req(&["halo"], 5000)).unwrap();
    assert_eq!(lim.timeout_ms, 5000);
    assert_eq!(lim.max_stdout_bytes, 1_000_000);
}

#[test]
fn backend_not_allowed_is_denied() {
    let err = pol().evaluate(BackendKind::Firecracker, &req(&["halo"], 1000)).unwrap_err();
    match err {
        ToolError::PolicyDenied(m) => assert!(m.contains("Firecracker")),
        e => panic!("salah varian: {e:?}"),
    }
}

#[test]
fn deny_pattern_is_denied() {
    let err = pol().evaluate(BackendKind::Wasm, &req(&["rm -rf /"], 1000)).unwrap_err();
    assert!(matches!(err, ToolError::PolicyDenied(_)));
}

#[test]
fn allowlist_rejects_unlisted() {
    let mut p = pol();
    p.allow_args = Some(vec!["halo".into()]);
    let err = p.evaluate(BackendKind::Wasm, &req(&["jahat"], 1000)).unwrap_err();
    assert!(matches!(err, ToolError::PolicyDenied(_)));
}

#[test]
fn allowlist_accepts_match() {
    let mut p = pol();
    p.allow_args = Some(vec!["halo".into()]);
    assert!(p.evaluate(BackendKind::Wasm, &req(&["halo dunia"], 1000)).is_ok());
}

#[test]
fn too_many_args_is_denied() {
    let mut p = pol();
    p.max_arg_count = 2;
    let err = p.evaluate(BackendKind::Wasm, &req(&["a", "b", "c"], 1000)).unwrap_err();
    assert!(matches!(err, ToolError::PolicyDenied(_)));
}

#[test]
fn clamp_timeout_and_output() {
    let lim = pol().evaluate(BackendKind::Wasm, &req(&["x"], 99_999)).unwrap();
    assert_eq!(lim.timeout_ms, 10_000);
    assert_eq!(lim.max_stderr_bytes, 1_000_000);
}

#[test]
fn denial_messages_are_exact() {
    let e = pol().evaluate(BackendKind::Firecracker, &req(&[], 1)).unwrap_err();
    assert_eq!(e, ToolError::PolicyDenied("backend 'Firecracker' tidak diizinkan oleh policy 'default'".into()));
    let mut p = pol();
    p.max_arg_count = 2;
    let e = p.evaluate(BackendKind::Wasm, &req(&["a", "b", "c"], 1)).unwrap_err();
    assert_eq!(e, ToolError::PolicyDenied("jumlah argumen 3 melebihi max_arg_count 2".into()));
    let e = pol().evaluate(BackendKind::Wasm, &req(&["ok", "sudo \"x\"", "rm -rf"], 1)).unwrap_err();
    assert_eq!(e, ToolError::PolicyDenied("argumen mengandung pola terlarang: \"sudo \\\"x\\\"\"".into()));
    let mut p = pol();
    p.allow_args = Some(vec!["halo".into()]);
    let e = p.evaluate(BackendKind::Wasm, &req(&["halo", "jahat"], 1)).unwrap_err();
    assert_eq!(e, ToolError::PolicyDenied("argumen tidak cocok allowlist: \"jahat\"".into()));
}

#[test]
fn deny_wins_over_allow() {
    let mut p = pol();
    p.allow_args = Some(vec!["sudo".into()]);
    let e = p.evaluate(BackendKind::Wasm, &req(&["sudo ls"], 1)).unwrap_err();
    assert!(matches!(e, ToolError::PolicyDenied(m) if m.starts_with("argumen mengandung")));
}

#[test]
fn limits_are_the_smaller_of_request_and_ceiling() {
    let mut r = req(&[], 7);
    r.max_stdout_bytes = 3;
    r.max_stderr_bytes = 2_000_000;
    let lim = pol().evaluate(BackendKind::Wasm, &r).unwrap();
    assert_eq!(lim, Limits { timeout_ms: 7, max_stdout_bytes: 3, max_stderr_bytes: 1_000_000 });
}

#[test]
fn matches_any_is_substring_search() {
    let pats: Vec<String> = vec!["rm -rf".into(), "ü".into()];
    assert!(matches_any("x rm -rf y", &pats));
    assert!(matches_any("grüß", &pats));
    assert!(!matches_any("rm -r", &pats));
    assert!(!matches_any("anything", &[]));
    assert!(matches_any("", &["".to_string()]));
}

#[test]
fn parse_backend_ok_and_err() {
    assert_eq!(parse_backend("wasm").unwrap(), BackendKind::Wasm);
    assert_eq!(parse_backend("firecracker").unwrap(), BackendKind::Firecracker);
    assert!(parse_backend("nope").is_err());
}

#[test]
fn parse_backend_every_name() {
    assert_eq!(parse_backend("process-jail"), Ok(BackendKind::ProcessJail));
    assert_eq!(parse_backend("libkrun"), Ok(BackendKind::Libkrun));
    assert_eq!(parse_backend("remote"), Ok(BackendKind::Remote));
    assert_eq!(parse_backend("Wasm"), Err("unknown backend: Wasm".to_string()));
}

#[test]
fn builtin_policy_values() {
    let p = builtin_policy();
    assert_eq!(p.name, "builtin-default");
    assert_eq!(p.allowed_backends, vec![BackendKind::Wasm, BackendKind::ProcessJail]);
    assert_eq!(p.max_timeout_ms, 10_000);
    assert_eq!(p.max_output_bytes, 1_048_576);
    assert_eq!(p.max_arg_count, 64);
    assert_eq!(p.allow_args, None);
    assert_eq!(p.deny_args, vec!["rm -rf".to_string(), "sudo".into(), "--privileged".into()]);
}

#[test]
fn split_check_drops_leading_separator() {
    let a: Vec<String> = vec!["--".into(), "x".into(), "--".into()];
    assert_eq!(split_check(&a), vec!["x".to_string(), "--".into()]);
    let b: Vec<String> = vec!["x".into(), "--".into()];
    assert_eq!(split_check(&b), b);
    assert_eq!(split_check(&[]), Vec::<String>::new());
}

#[test]
fn build_req_fills_bounds_only() {
    let r = build_req(vec!["a".into()], 12, 34);
    assert_eq!(r.argv, vec!["a".to_string()]);
    assert_eq!((r.timeout_ms, r.max_stdout_bytes, r.max_stderr_bytes), (12, 34, 34));
    assert!(r.request_id.is_empty() && r.env.is_empty() && r.cwd.is_none() && !r.stream);
}

#[test]
fn builtin_denies_dangerous_arg() {
    let r = evaluate_args(&builtin_policy(), "wasm", "5000", "1048576", vec!["rm -rf /".into()]);
    // the evaluation took place, and the decision is a denial
    let (b, res) = r.unwrap();
    assert_eq!(b, BackendKind::Wasm);
    assert!(matches!(res, Err(ToolError::PolicyDenied(_))));
}

#[test]
fn builtin_allows_safe_arg() {
    let (_, res) =
        evaluate_args(&builtin_policy(), "wasm", "5000", "1048576", vec!["halo".into()]).unwrap();
    assert!(res.is_ok());
    assert_eq!(res.unwrap().timeout_ms, 5000);
}

#[test]
fn builtin_denies_disallowed_backend() {
    let (_, res) =
        evaluate_args(&builtin_policy(), "firecracker", "5000", "1048576", vec!["halo".into()]).unwrap();
    assert!(matches!(res, Err(ToolError::PolicyDenied(_))));
}

#[test]
fn clamp_timeout_to_ceiling() {
    let (_, res) =
        evaluate_args(&builtin_policy(), "wasm", "99999", "1048576", vec!["x".into()]).unwrap();
    assert_eq!(res.unwrap().timeout_ms, 10000);
}

#[test]
fn invalid_backend_is_tool_error() {
    let e = evaluate_args(&builtin_policy(), "bogus", "5000", "1048576", vec![]).unwrap_err();
    assert!(matches!(e, ArgsError::Backend(m) if m == "unknown backend: bogus"));
}

#[test]
fn invalid_timeout_is_tool_error() {
    let e = evaluate_args(&builtin_policy(), "wasm", "abc", "1048576", vec![]).unwrap_err();
    assert!(matches!(e, ArgsError::Timeout(_, NumberFault::InvalidDigit)));
}

#[test]
fn check_input_errors() {
    let e = evaluate_args(&builtin_policy(), "wasm", "4294967296", "1", vec![]).unwrap_err();
    assert!(matches!(e, ArgsError::Timeout(_, NumberFault::PosOverflow)));
    let e = evaluate_args(&builtin_policy(), "wasm", "1", "-1", vec![]).unwrap_err();
    assert!(matches!(e, ArgsError::MaxOutput(_, NumberFault::InvalidDigit)));
    let e = evaluate_args(&builtin_policy(), "wasm", "+", "1", vec![]).unwrap_err();
    assert!(matches!(e, ArgsError::Timeout(_, NumberFault::InvalidDigit)));
    let e = evaluate_args(&builtin_policy(), "wasm", "", "1", vec![]).unwrap_err();
    assert!(matches!(e, ArgsError::Timeout(_, NumberFault::Empty)));
    let e = evaluate_args(&builtin_policy(), "wasm", "1", "18446744073709551616", vec![]).unwrap_err();
    assert!(matches!(e, ArgsError::MaxOutput(_, NumberFault::PosOverflow)));
    let (_, res) = evaluate_args(&builtin_policy(), "wasm", "+7", "1", vec![]).unwrap();
    assert_eq!(res.unwrap().timeout_ms, 7);
}
