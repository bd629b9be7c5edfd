use aimt::fs_tool::{
    check_write_len, entry_kind, parse_fs_args, read_text, read_up_to, sort_entries, stat_kind,
    EntryKind, FsCommand, WRITE_LIMIT,
};
use std::io::Cursor;

#[test]
fn read_up_to_under_limit() {
    let (b, t) = read_up_to(Cursor::new(b"abc"), 10).unwrap();
    assert_eq!(b, b"abc");
    assert!(!t);
}

#[test]
fn read_up_to_truncated() {
    let (b, t) = read_up_to(Cursor::new(b"abcdef"), 3).unwrap();
    assert_eq!(b, b"abc");
    assert!(t);
}

#[test]
fn read_up_to_exact_limit_not_truncated() {
    let (b, t) = read_up_to(Cursor::new(b"abc"), 3).unwrap();
    assert_eq!(b, b"abc");
    assert!(!t);
}

#[test]
fn read_up_to_many_chunks_and_zero_limit() {
    let data = vec![7u8; 10_000];
    let (b, t) = read_up_to(Cursor::new(data.clone()), 9_000).unwrap();
    assert_eq!(b, data[..9_000].to_vec());
    assert!(t);
    let (b, t) = read_up_to(Cursor::new(b"x"), 0).unwrap();
    assert!(b.is_empty() && t);
    let (b, t) = read_up_to(Cursor::new(Vec::<u8>::new()), 0).unwrap();
    assert!(b.is_empty() && !t);
}

#[test]
fn check_write_len_bounds() {
    assert!(check_write_len(0).is_ok());
    assert!(check_write_len(WRITE_LIMIT).is_ok());
    assert!(check_write_len(WRITE_LIMIT + 1).is_err());
}

#[test]
fn check_write_len_message() {
    assert_eq!(check_write_len(70000), Err("content too large (70000 > 65536)".to_string()));
}

fn args(a: &[&str]) -> Vec<String> {
    a.iter().map(|s| s.to_string()).collect()
}

#[test]
fn fs_args_dispatch() {
    assert_eq!(parse_fs_args(&args(&["wasm-fs"])), FsCommand::Usage);
    assert_eq!(parse_fs_args(&args(&["wasm-fs", "bogus", "/x"])), FsCommand::Usage);
    assert_eq!(
        parse_fs_args(&args(&["wasm-fs", "stat"])),
        FsCommand::Invalid { op: "stat".into(), message: "missing path argument".into() }
    );
    assert_eq!(parse_fs_args(&args(&["wasm-fs", "stat", "/a"])), FsCommand::Stat("/a".into()));
    assert_eq!(parse_fs_args(&args(&["wasm-fs", "read", "/a"])), FsCommand::Read("/a".into()));
    assert_eq!(parse_fs_args(&args(&["wasm-fs", "list", "/a"])), FsCommand::List("/a".into()));
    assert_eq!(
        parse_fs_args(&args(&["wasm-fs", "write", "/p"])),
        FsCommand::Invalid { op: "write".into(), message: "missing content argument".into() }
    );
    assert_eq!(
        parse_fs_args(&args(&["wasm-fs", "write"])),
        FsCommand::Invalid { op: "write".into(), message: "missing path argument".into() }
    );
    assert_eq!(
        parse_fs_args(&args(&["wasm-fs", "write", "/p", "hi", "extra"])),
        FsCommand::Write { path: "/p".into(), content: "hi".into() }
    );
}

/// The answer of the tool is a failure (`"ok": false`) for these commands.
fn answers_failure(c: &FsCommand) -> bool {
    matches!(c, FsCommand::Usage | FsCommand::Invalid { .. })
}

#[test]
fn dispatch_unknown_op() {
    let v = parse_fs_args(&["wasm-fs".into(), "bogus".into(), "/x".into()]);
    assert!(answers_failure(&v));
}

#[test]
fn dispatch_missing_path() {
    let v = parse_fs_args(&["wasm-fs".into(), "stat".into()]);
    assert!(answers_failure(&v));
}

#[test]
fn dispatch_write_missing_content() {
    let v = parse_fs_args(&["wasm-fs".into(), "write".into(), "/p".into()]);
    assert!(answers_failure(&v));
    assert!(matches!(v, FsCommand::Invalid { op, .. } if op == "write"));
}

#[test]
fn entries_sorted_by_name_as_str_orders_them() {
    let v = vec![
        ("b".to_string(), EntryKind::File, 1),
        ("a".to_string(), EntryKind::Dir, 2),
        ("ä".to_string(), EntryKind::Other, 3),
        ("Z".to_string(), EntryKind::Unknown, 0),
        ("ab".to_string(), EntryKind::File, 4),
    ];
    let mut expected = v.clone();
    expected.sort_by(|a, b| a.0.cmp(&b.0));
    assert_eq!(sort_entries(v), expected);
    assert_eq!(sort_entries(vec![]), vec![]);
}

#[test]
fn entry_kinds() {
    assert_eq!(entry_kind(None), EntryKind::Unknown);
    assert_eq!(entry_kind(Some((true, true))), EntryKind::Dir);
    assert_eq!(entry_kind(Some((false, true))), EntryKind::File);
    assert_eq!(entry_kind(Some((false, false))), EntryKind::Other);
    assert_eq!(EntryKind::Dir.name(), "dir");
    assert_eq!(EntryKind::Unknown.name(), "unknown");
}

#[test]
fn stat_kind_order() {
    assert_eq!(stat_kind(true, false, false), "file");
    assert_eq!(stat_kind(true, true, true), "file");
    assert_eq!(stat_kind(false, true, true), "dir");
    assert_eq!(stat_kind(false, false, true), "symlink");
    assert_eq!(stat_kind(false, false, false), "unknown");
}

#[test]
fn read_text_accepts_utf8_and_refuses_binary() {
    assert_eq!(read_text("h\u{e9}llo".as_bytes().to_vec()).unwrap(), "h\u{e9}llo");
    assert_eq!(read_text(Vec::new()).unwrap(), "");
    assert_eq!(read_text(vec![0x66, 0xff, 0x66]).unwrap_err(), "not utf-8 (binary file)");
    assert_eq!(read_text(vec![0xed, 0xa0, 0x80]).unwrap_err(), "not utf-8 (binary file)");
}
