//! Snapshot identity is the hash of its content (kernel, rootfs, policy, agent):
//! the ground for golden snapshots and deterministic reset. Two identical
//! builds get the same id.
use crate::text::{decimal, push_decimal};
use crate::types::{backend_name, BackendKind};
use sha2::{Digest, Sha256};
use vstd::prelude::*;

verus! {

#[derive(Debug, Clone, PartialEq, Eq)]
pub struct SnapshotManifest {
    pub profile: String,
    pub backend: BackendKind,
    pub kernel_sha256: String,
    pub rootfs_sha256: String,
    pub policy_sha256: String,
    pub guest_agent_sha256: String,
    pub version: u32,
    /// Content-addressed id: SHA-256 of all the fields above, in lowercase hex.
    pub content_id: String,
}

/// The digest that SHA-256 gives for `data`.
pub uninterp spec fn sha256_of(data: Seq<u8>) -> Seq<u8>;

/// SHA-256 of `data`, computed by the `sha2` crate's `Sha256::digest`.
/// Claimed: the 32 bytes are `sha256_of(data)`, a function of the bytes alone.
#[verifier::external_body]
fn sha256(data: &[u8]) -> (out: [u8; 32])
    ensures
        out@ == sha256_of(data@),
{
    Sha256::digest(data).into()
}

/// The lowercase hex digit of `d`, for `d < 16`.
pub open spec fn hex_char(d: nat) -> char {
    if d < 10 {
        crate::text::digit_char(d)
    } else if d == 10 {
        'a'
    } else if d == 11 {
        'b'
    } else if d == 12 {
        'c'
    } else if d == 13 {
        'd'
    } else if d == 14 {
        'e'
    } else {
        'f'
    }
}

/// Lowercase hex of a byte sequence, two digits per byte, high nibble first.
pub open spec fn hex_text(bytes: Seq<u8>) -> Seq<char>
    decreases bytes.len(),
{
    if bytes.len() == 0 {
        Seq::empty()
    } else {
        hex_text(bytes.drop_last()) + seq![
            hex_char((bytes.last() / 16) as nat),
            hex_char((bytes.last() % 16) as nat),
        ]
    }
}

/// A lowercase hex digit.
pub open spec fn is_hex_digit(c: char) -> bool {
    ('0' <= c <= '9') || ('a' <= c <= 'f')
}

/// The text that is hashed: each field after its label, all separated by NUL,
/// so that no two field combinations run together.
pub open spec fn canonical_text(
    profile: Seq<char>,
    backend: BackendKind,
    kernel: Seq<char>,
    rootfs: Seq<char>,
    policy: Seq<char>,
    agent: Seq<char>,
    version: u32,
) -> Seq<char> {
    "profile\0"@ + profile + "\0backend\0"@ + backend_name(backend) + "\0kernel\0"@ + kernel
        + "\0rootfs\0"@ + rootfs + "\0policy\0"@ + policy + "\0agent\0"@ + agent + "\0version\0"@
        + decimal(version as nat)
}

/// The hashed text opens with the profile under its label, then names the
/// manifest's own backend as `{:?}` writes it (`Wasm`, `ProcessJail`,
/// `Firecracker`, `Libkrun`, `Remote`), followed by the kernel's label; in
/// all, it is each field after its label, in the order profile, backend,
/// kernel, rootfs, policy, agent, version, the version in decimal.
pub proof fn lemma_canonical_names_backend(
    profile: Seq<char>,
    backend: BackendKind,
    kernel: Seq<char>,
    rootfs: Seq<char>,
    policy: Seq<char>,
    agent: Seq<char>,
    version: u32,
)
    ensures
        ({
            let t = canonical_text(profile, backend, kernel, rootfs, policy, agent, version);
            let name = match backend {
                BackendKind::Wasm => "Wasm"@,
                BackendKind::ProcessJail => "ProcessJail"@,
                BackendKind::Firecracker => "Firecracker"@,
                BackendKind::Libkrun => "Libkrun"@,
                BackendKind::Remote => "Remote"@,
            };
            let start = profile.len() + 17int;
            let n = name.len() as int;
            &&& t.subrange(0, 8) == "profile\0"@
            &&& t.subrange(8, start - 9) == profile
            &&& t.subrange(start - 9, start) == "\0backend\0"@
            &&& t.subrange(start, start + n) == name
            &&& t.subrange(start + n, start + n + 8) == "\0kernel\0"@
            &&& t == "profile\0"@ + profile + "\0backend\0"@ + name + "\0kernel\0"@ + kernel
                + "\0rootfs\0"@ + rootfs + "\0policy\0"@ + policy + "\0agent\0"@ + agent
                + "\0version\0"@ + decimal(version as nat)
        }),
{
    reveal_strlit("profile\0");
    reveal_strlit("\0backend\0");
    reveal_strlit("\0kernel\0");
    reveal_strlit("Wasm");
    reveal_strlit("ProcessJail");
    reveal_strlit("Firecracker");
    reveal_strlit("Libkrun");
    reveal_strlit("Remote");
    let t = canonical_text(profile, backend, kernel, rootfs, policy, agent, version);
    let name = backend_name(backend);
    let head = "profile\0"@ + profile + "\0backend\0"@ + name + "\0kernel\0"@;
    let rest = kernel + "\0rootfs\0"@ + rootfs + "\0policy\0"@ + policy + "\0agent\0"@ + agent
        + "\0version\0"@ + decimal(version as nat);
    assert(t =~= head + rest);
    let start = profile.len() + 17int;
    let n = name.len() as int;
    assert(t.subrange(0, 8) =~= "profile\0"@);
    assert(t.subrange(8, start - 9) =~= profile);
    assert(t.subrange(start - 9, start) =~= "\0backend\0"@);
    assert(t.subrange(start, start + n) =~= name);
    assert(t.subrange(start + n, start + n + 8) =~= "\0kernel\0"@);
}

/// The content id of the fields: the hex of the SHA-256 of their canonical text.
pub open spec fn content_id_of(
    profile: Seq<char>,
    backend: BackendKind,
    kernel: Seq<char>,
    rootfs: Seq<char>,
    policy: Seq<char>,
    agent: Seq<char>,
    version: u32,
) -> Seq<char> {
    hex_text(
        sha256_of(
            vstd::utf8::encode_utf8(
                canonical_text(profile, backend, kernel, rootfs, policy, agent, version),
            ),
        ),
    )
}

fn hex_digit_str(d: u8) -> (r: &'static str)
    requires
        d < 16,
    ensures
        r@ == seq![hex_char(d as nat)],
{
    proof {
        reveal_strlit("0");
        reveal_strlit("1");
        reveal_strlit("2");
        reveal_strlit("3");
        reveal_strlit("4");
        reveal_strlit("5");
        reveal_strlit("6");
        reveal_strlit("7");
        reveal_strlit("8");
        reveal_strlit("9");
        reveal_strlit("a");
        reveal_strlit("b");
        reveal_strlit("c");
        reveal_strlit("d");
        reveal_strlit("e");
        reveal_strlit("f");
    }
    if d == 0 {
        "0"
    } else if d == 1 {
        "1"
    } else if d == 2 {
        "2"
    } else if d == 3 {
        "3"
    } else if d == 4 {
        "4"
    } else if d == 5 {
        "5"
    } else if d == 6 {
        "6"
    } else if d == 7 {
        "7"
    } else if d == 8 {
        "8"
    } else if d == 9 {
        "9"
    } else if d == 10 {
        "a"
    } else if d == 11 {
        "b"
    } else if d == 12 {
        "c"
    } else if d == 13 {
        "d"
    } else if d == 14 {
        "e"
    } else {
        "f"
    }
}

/// Lowercase hex of `bytes`.
fn hex_lower(bytes: &[u8]) -> (s: String)
    ensures
        s@ == hex_text(bytes@),
{
    let mut s = String::new();
    let mut i: usize = 0;
    while i < bytes.len()
        invariant
            i <= bytes@.len(),
            s@ == hex_text(bytes@.subrange(0, i as int)),
        decreases bytes@.len() - i,
    {
        let b = bytes[i];
        s.append(hex_digit_str(b / 16));
        s.append(hex_digit_str(b % 16));
        assert(bytes@.subrange(0, i + 1).drop_last() =~= bytes@.subrange(0, i as int));
        i = i + 1;
    }
    assert(bytes@.subrange(0, i as int) =~= bytes@);
    s
}

/// The hex of `n` bytes has `2 n` digits, each a lowercase hex digit.
pub proof fn lemma_hex_text_shape(bytes: Seq<u8>)
    ensures
        hex_text(bytes).len() == 2 * bytes.len(),
        forall|i: int| 0 <= i < hex_text(bytes).len() ==> is_hex_digit(#[trigger] hex_text(bytes)[i]),
    decreases bytes.len(),
{
    if bytes.len() > 0 {
        lemma_hex_text_shape(bytes.drop_last());
        let t = hex_text(bytes);
        let prev = hex_text(bytes.drop_last());
        assert forall|i: int| 0 <= i < t.len() implies is_hex_digit(#[trigger] t[i]) by {
            if i < prev.len() {
                assert(t[i] == prev[i]);
            }
        }
    }
}

/// The text holds no NUL character.
pub open spec fn nul_free(s: Seq<char>) -> bool {
    forall|i: int| 0 <= i < s.len() ==> s[i] != '\0'
}

proof fn lemma_split_at_nul(x1: Seq<char>, s1: Seq<char>, x2: Seq<char>, s2: Seq<char>)
    requires
        nul_free(x1),
        nul_free(x2),
        s1.len() > 0 && s1[0] == '\0',
        s2.len() > 0 && s2[0] == '\0',
        x1 + s1 == x2 + s2,
    ensures
        x1 == x2,
        s1 == s2,
{
    if x1.len() < x2.len() {
        assert((x1 + s1)[x1.len() as int] == '\0');
        assert((x2 + s2)[x1.len() as int] == x2[x1.len() as int]);
    } else if x2.len() < x1.len() {
        assert((x2 + s2)[x2.len() as int] == '\0');
        assert((x1 + s1)[x2.len() as int] == x1[x2.len() as int]);
    }
    assert(x1 =~= (x1 + s1).subrange(0, x1.len() as int));
    assert(x2 =~= (x2 + s2).subrange(0, x2.len() as int));
    assert(s1 =~= (x1 + s1).subrange(x1.len() as int, (x1 + s1).len() as int));
    assert(s2 =~= (x2 + s2).subrange(x2.len() as int, (x2 + s2).len() as int));
}

proof fn lemma_strip_prefix(p: Seq<char>, y1: Seq<char>, y2: Seq<char>)
    requires
        p + y1 == p + y2,
    ensures
        y1 == y2,
{
    assert(y1 =~= (p + y1).subrange(p.len() as int, (p + y1).len() as int));
    assert(y2 =~= (p + y2).subrange(p.len() as int, (p + y2).len() as int));
}

/// Everything after a field, from the next label on: label, then field, then the rest.
pub open spec fn labelled(label: Seq<char>, field: Seq<char>, rest: Seq<char>) -> Seq<char> {
    label + (field + rest)
}

/// The canonical text, nested from the right.
pub open spec fn canonical_nested(
    profile: Seq<char>,
    backend: BackendKind,
    kernel: Seq<char>,
    rootfs: Seq<char>,
    policy: Seq<char>,
    agent: Seq<char>,
    version: u32,
) -> Seq<char> {
    labelled(
        "profile\0"@,
        profile,
        labelled(
            "\0backend\0"@,
            backend_name(backend),
            labelled(
                "\0kernel\0"@,
                kernel,
                labelled(
                    "\0rootfs\0"@,
                    rootfs,
                    labelled(
                        "\0policy\0"@,
                        policy,
                        labelled("\0agent\0"@, agent, "\0version\0"@ + decimal(version as nat)),
                    ),
                ),
            ),
        ),
    )
}

proof fn lemma_labelled_step(
    label: Seq<char>,
    f1: Seq<char>,
    r1: Seq<char>,
    f2: Seq<char>,
    r2: Seq<char>,
)
    requires
        labelled(label, f1, r1) == labelled(label, f2, r2),
        nul_free(f1),
        nul_free(f2),
        r1.len() > 0 && r1[0] == '\0',
        r2.len() > 0 && r2[0] == '\0',
    ensures
        f1 == f2,
        r1 == r2,
{
    lemma_strip_prefix(label, f1 + r1, f2 + r2);
    lemma_split_at_nul(f1, r1, f2, r2);
}

proof fn lemma_canonical_is_nested(
    profile: Seq<char>,
    backend: BackendKind,
    kernel: Seq<char>,
    rootfs: Seq<char>,
    policy: Seq<char>,
    agent: Seq<char>,
    version: u32,
)
    ensures
        canonical_text(profile, backend, kernel, rootfs, policy, agent, version) == canonical_nested(
            profile,
            backend,
            kernel,
            rootfs,
            policy,
            agent,
            version,
        ),
{
    assert(canonical_text(profile, backend, kernel, rootfs, policy, agent, version)
        =~= canonical_nested(profile, backend, kernel, rootfs, policy, agent, version));
}

proof fn lemma_labels_start_with_nul()
    ensures
        "\0backend\0"@.len() > 0 && "\0backend\0"@[0] == '\0',
        "\0kernel\0"@.len() > 0 && "\0kernel\0"@[0] == '\0',
        "\0rootfs\0"@.len() > 0 && "\0rootfs\0"@[0] == '\0',
        "\0policy\0"@.len() > 0 && "\0policy\0"@[0] == '\0',
        "\0agent\0"@.len() > 0 && "\0agent\0"@[0] == '\0',
        "\0version\0"@.len() > 0 && "\0version\0"@[0] == '\0',
{
    reveal_strlit("\0backend\0");
    reveal_strlit("\0kernel\0");
    reveal_strlit("\0rootfs\0");
    reveal_strlit("\0policy\0");
    reveal_strlit("\0agent\0");
    reveal_strlit("\0version\0");
}

proof fn lemma_backend_names(b1: BackendKind, b2: BackendKind)
    ensures
        nul_free(backend_name(b1)),
        backend_name(b1) == backend_name(b2) ==> b1 == b2,
{
    reveal_strlit("Wasm");
    reveal_strlit("ProcessJail");
    reveal_strlit("Firecracker");
    reveal_strlit("Libkrun");
    reveal_strlit("Remote");
    let n1 = backend_name(b1);
    let n2 = backend_name(b2);
    if n1 == n2 {
        assert(n1.len() == n2.len());
        assert(n1[0] == n2[0]);
    }
}

/// Fields cannot run together: two manifests whose text fields hold no NUL
/// character have the same canonical text only when all their fields are equal.
pub proof fn lemma_canonical_injective(
    profile1: Seq<char>,
    backend1: BackendKind,
    kernel1: Seq<char>,
    rootfs1: Seq<char>,
    policy1: Seq<char>,
    agent1: Seq<char>,
    version1: u32,
    profile2: Seq<char>,
    backend2: BackendKind,
    kernel2: Seq<char>,
    rootfs2: Seq<char>,
    policy2: Seq<char>,
    agent2: Seq<char>,
    version2: u32,
)
    requires
        nul_free(profile1) && nul_free(kernel1) && nul_free(rootfs1) && nul_free(policy1)
            && nul_free(agent1),
        nul_free(profile2) && nul_free(kernel2) && nul_free(rootfs2) && nul_free(policy2)
            && nul_free(agent2),
        canonical_text(profile1, backend1, kernel1, rootfs1, policy1, agent1, version1)
            == canonical_text(profile2, backend2, kernel2, rootfs2, policy2, agent2, version2),
    ensures
        profile1 == profile2,
        backend1 == backend2,
        kernel1 == kernel2,
        rootfs1 == rootfs2,
        policy1 == policy2,
        agent1 == agent2,
        version1 == version2,
{
    lemma_labels_start_with_nul();
    lemma_backend_names(backend1, backend2);
    lemma_backend_names(backend2, backend1);
    lemma_canonical_is_nested(profile1, backend1, kernel1, rootfs1, policy1, agent1, version1);
    lemma_canonical_is_nested(profile2, backend2, kernel2, rootfs2, policy2, agent2, version2);
    let v1 = "\0version\0"@ + decimal(version1 as nat);
    let v2 = "\0version\0"@ + decimal(version2 as nat);
    let a1 = labelled("\0agent\0"@, agent1, v1);
    let a2 = labelled("\0agent\0"@, agent2, v2);
    let p1 = labelled("\0policy\0"@, policy1, a1);
    let p2 = labelled("\0policy\0"@, policy2, a2);
    let r1 = labelled("\0rootfs\0"@, rootfs1, p1);
    let r2 = labelled("\0rootfs\0"@, rootfs2, p2);
    let k1 = labelled("\0kernel\0"@, kernel1, r1);
    let k2 = labelled("\0kernel\0"@, kernel2, r2);
    let b1 = labelled("\0backend\0"@, backend_name(backend1), k1);
    let b2 = labelled("\0backend\0"@, backend_name(backend2), k2);
    lemma_labelled_step("profile\0"@, profile1, b1, profile2, b2);
    lemma_labelled_step("\0backend\0"@, backend_name(backend1), k1, backend_name(backend2), k2);
    lemma_labelled_step("\0kernel\0"@, kernel1, r1, kernel2, r2);
    lemma_labelled_step("\0rootfs\0"@, rootfs1, p1, rootfs2, p2);
    lemma_labelled_step("\0policy\0"@, policy1, a1, policy2, a2);
    lemma_labelled_step("\0agent\0"@, agent1, v1, agent2, v2);
    lemma_strip_prefix("\0version\0"@, decimal(version1 as nat), decimal(version2 as nat));
    crate::text::lemma_decimal_injective(version1 as nat, version2 as nat);
}

impl SnapshotManifest {
    pub fn new(
        profile: &str,
        backend: BackendKind,
        kernel_sha256: &str,
        rootfs_sha256: &str,
        policy_sha256: &str,
        guest_agent_sha256: &str,
        version: u32,
    ) -> (m: Self)
        ensures
            m.profile@ == profile@,
            m.backend == backend,
            m.kernel_sha256@ == kernel_sha256@,
            m.rootfs_sha256@ == rootfs_sha256@,
            m.policy_sha256@ == policy_sha256@,
            m.guest_agent_sha256@ == guest_agent_sha256@,
            m.version == version,
            m.content_id@ == content_id_of(
                profile@,
                backend,
                kernel_sha256@,
                rootfs_sha256@,
                policy_sha256@,
                guest_agent_sha256@,
                version,
            ),
            m.content_id@.len() == 64,
            forall|i: int| 0 <= i < 64 ==> is_hex_digit(#[trigger] m.content_id@[i]),
    {
        let mut m = SnapshotManifest {
            profile: String::from_str(profile),
            backend,
            kernel_sha256: String::from_str(kernel_sha256),
            rootfs_sha256: String::from_str(rootfs_sha256),
            policy_sha256: String::from_str(policy_sha256),
            guest_agent_sha256: String::from_str(guest_agent_sha256),
            version,
            content_id: String::new(),
        };
        m.content_id = m.compute_content_id();
        m
    }

    fn canonical(&self) -> (s: String)
        ensures
            s@ == canonical_text(
                self.profile@,
                self.backend,
                self.kernel_sha256@,
                self.rootfs_sha256@,
                self.policy_sha256@,
                self.guest_agent_sha256@,
                self.version,
            ),
    {
        let mut s = String::from_str("profile\0");
        s.append(self.profile.as_str());
        s.append("\0backend\0");
        s.append(self.backend.name());
        s.append("\0kernel\0");
        s.append(self.kernel_sha256.as_str());
        s.append("\0rootfs\0");
        s.append(self.rootfs_sha256.as_str());
        s.append("\0policy\0");
        s.append(self.policy_sha256.as_str());
        s.append("\0agent\0");
        s.append(self.guest_agent_sha256.as_str());
        s.append("\0version\0");
        push_decimal(&mut s, self.version as u64);
        s
    }

    fn compute_content_id(&self) -> (id: String)
        ensures
            id@ == content_id_of(
                self.profile@,
                self.backend,
                self.kernel_sha256@,
                self.rootfs_sha256@,
                self.policy_sha256@,
                self.guest_agent_sha256@,
                self.version,
            ),
            id@.len() == 64,
            forall|i: int| 0 <= i < 64 ==> is_hex_digit(#[trigger] id@[i]),
    {
        let text = self.canonical();
        let digest = sha256(text.as_str().as_bytes());
        let id = hex_lower(&digest);
        proof {
            lemma_hex_text_shape(digest@);
        }
        id
    }
}

} // verus!
