use aimt::snapshot::SnapshotManifest;
use aimt::types::BackendKind;

fn mk(kernel: &str) -> SnapshotManifest {
    SnapshotManifest::new("p", BackendKind::Firecracker, kernel, "r", "pol", "ag", 1)
}

#[test]
fn deterministic() {
    assert_eq!(mk("k").content_id, mk("k").content_id);
}

#[test]
fn different_input_different_id() {
    assert_ne!(mk("k1").content_id, mk("k2").content_id);
}

#[test]
fn id_is_64_hex_chars() {
    let id = mk("k").content_id;
    assert_eq!(id.len(), 64);
    assert!(id.chars().all(|c| c.is_ascii_hexdigit()));
}

#[test]
fn id_is_sha256_of_the_canonical_text() {
    assert_eq!(mk("k").content_id, "09cf1d8b846b7da6e54d9f1b0131d874082d6068cd9626c9c6e04e1c38957cc8");
    let m = SnapshotManifest::new("p", BackendKind::Firecracker, "k", "r", "pol", "ag", 1234);
    assert_eq!(m.content_id, "dd6d2891366deb3f1f52be62243e5199953ef34bb006b04e9cd399d3d2e82e27");
}

#[test]
fn fields_are_kept() {
    let m = SnapshotManifest::new("prof", BackendKind::Wasm, "kk", "rr", "pp", "aa", 9);
    assert_eq!(
        (m.profile.as_str(), m.backend, m.kernel_sha256.as_str(), m.rootfs_sha256.as_str()),
        ("prof", BackendKind::Wasm, "kk", "rr")
    );
    assert_eq!((m.policy_sha256.as_str(), m.guest_agent_sha256.as_str(), m.version), ("pp", "aa", 9));
    assert!(m.content_id.chars().all(|c| c.is_ascii_digit() || ('a'..='f').contains(&c)));
}
