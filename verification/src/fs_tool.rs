//! The guest filesystem tool: its command line, its bounded read and its write
//! limit. The tool always answers with one JSON line; the filesystem calls
//! themselves are made by the program around this library.
use crate::text::{decimal, lemma_lex_total, lemma_lex_transitive, lex_le, push_decimal, str_eq, str_lex_le};
use std::io::Read;
use vstd::prelude::*;

verus! {

#[verifier::external_type_specification]
#[verifier::external_body]
pub struct ExIoError(std::io::Error);

/// Most bytes read per operation.
pub const READ_LIMIT: usize = 65_536;

/// Most bytes written per operation (this also bounds oversized arguments).
pub const WRITE_LIMIT: usize = 65_536;

pub open spec fn too_large_message(n: nat) -> Seq<char> {
    "content too large ("@ + decimal(n) + " > "@ + decimal(WRITE_LIMIT as nat) + ")"@
}

pub fn check_write_len(n: usize) -> (r: Result<(), String>)
    ensures
        n <= WRITE_LIMIT <==> r is Ok,
        r matches Err(m) ==> m@ == too_large_message(n as nat),
{
    if n > WRITE_LIMIT {
        let mut m = String::from_str("content too large (");
        push_decimal(&mut m, n as u64);
        m.append(" > ");
        push_decimal(&mut m, WRITE_LIMIT as u64);
        m.append(")");
        Err(m)
    } else {
        Ok(())
    }
}

/// One `Read::read` on the reader, into a fresh buffer of `want` bytes; the
/// reader comes back with the bytes it handed out (cut to the count it
/// reported) or its error. Claimed, as the trait's documentation requires of
/// every implementation: a successful read reports at most `want` bytes. Which
/// bytes, and whether the read fails, the reader decides.
#[verifier::external_body]
fn read_chunk<R: Read>(r: R, want: usize) -> (res: (R, Result<Vec<u8>, std::io::Error>))
    ensures
        res.1 matches Ok(chunk) ==> chunk@.len() <= want,
{
    let mut r = r;
    let mut buf = vec![0u8; want];
    match r.read(&mut buf) {
        Ok(n) => {
            buf.truncate(n);
            (r, Ok(buf))
        },
        Err(e) => (r, Err(e)),
    }
}

/// One read made on the way: the reader before, the size asked for, the reader
/// after, and what the read gave.
pub struct ReadCall<R> {
    pub before: R,
    pub want: usize,
    pub after: R,
    pub result: Result<Vec<u8>, std::io::Error>,
}

/// The bytes a read gave (none for a failed read).
pub open spec fn chunk_of<R>(c: ReadCall<R>) -> Seq<u8> {
    match c.result {
        Ok(v) => v@,
        Err(_) => Seq::empty(),
    }
}

/// The bytes that the first `k` reads gave, in order.
pub open spec fn bytes_before<R>(calls: Seq<ReadCall<R>>, k: int) -> Seq<u8>
    decreases k,
{
    if k <= 0 {
        Seq::empty()
    } else {
        bytes_before(calls, k - 1) + chunk_of(calls[k - 1])
    }
}

/// The size asked for when `done` of `limit` bytes are in: what is left, at most 4096.
pub open spec fn fill_want(done: nat, limit: usize) -> usize {
    if limit - done < 4096 {
        (limit - done) as usize
    } else {
        4096
    }
}

/// The reads that `read_up_to` makes on `r0` with `limit`: each read is an answer
/// that the reader can give in the state the previous read left it in; while
/// fewer than `limit` bytes are in, each read asks for what is left (at most
/// 4096) and all but the last gave at least one byte; once `limit` bytes are
/// in, the last read is a probe of 4096 bytes.
pub closed spec fn read_run<R: Read>(r0: R, limit: usize, calls: Seq<ReadCall<R>>) -> bool {
    let m = calls.len() - 1;
    let done = bytes_before(calls, m).len();
    &&& calls.len() >= 1
    &&& calls[0].before == r0
    &&& forall|k: int| 0 <= k < m ==> #[trigger] calls[k + 1].before == calls[k].after
    &&& forall|k: int|
        0 <= k < calls.len() ==> call_ensures(
            read_chunk::<R>,
            (calls[k].before, calls[k].want),
            (calls[k].after, #[trigger] calls[k].result),
        )
    &&& forall|k: int|
        0 <= k < m ==> {
            &&& (#[trigger] calls[k]).result is Ok
            &&& chunk_of(calls[k]).len() > 0
            &&& bytes_before(calls, k).len() < limit
            &&& calls[k].want == fill_want(bytes_before(calls, k).len(), limit)
        }
    &&& done <= limit
    &&& done < limit ==> calls[m].want == fill_want(done, limit)
    &&& done == limit ==> calls[m].want == 4096
}

/// What `read_up_to` answers after the reads `calls`: the bytes of all reads but
/// the last; the flag is set when the reader gave more on the probe after
/// `limit` bytes; an error is the last read's error.
pub closed spec fn read_outcome<R: Read>(
    r0: R,
    limit: usize,
    calls: Seq<ReadCall<R>>,
    res: Result<(Vec<u8>, bool), std::io::Error>,
) -> bool {
    let m = calls.len() - 1;
    let done = bytes_before(calls, m);
    &&& read_run(r0, limit, calls)
    &&& match res {
        Ok((out, truncated)) => {
            &&& calls[m].result is Ok
            &&& out@ == done
            &&& done.len() < limit ==> chunk_of(calls[m]).len() == 0 && !truncated
            &&& done.len() == limit ==> truncated == (chunk_of(calls[m]).len() > 0)
        },
        Err(e) => calls[m].result == Err::<Vec<u8>, std::io::Error>(e),
    }
}

/// What `read_outcome` says, apart from which answers the reader can give
/// (that part is stated over the private read of one chunk): the reads chain
/// reader states, every read but the last gave bytes while fewer than `limit`
/// were in, each asked for what was left (at most 4096), the bytes returned
/// are those of all reads but the last, and the flag tells whether the probe
/// after `limit` bytes gave more.
pub proof fn lemma_read_outcome<R: Read>(
    r0: R,
    limit: usize,
    calls: Seq<ReadCall<R>>,
    res: Result<(Vec<u8>, bool), std::io::Error>,
)
    requires
        read_outcome(r0, limit, calls, res),
    ensures
        calls.len() >= 1,
        calls[0].before == r0,
        forall|k: int| 0 <= k < calls.len() - 1 ==> #[trigger] calls[k + 1].before == calls[k].after,
        forall|k: int|
            0 <= k < calls.len() - 1 ==> {
                &&& (#[trigger] calls[k]).result is Ok
                &&& chunk_of(calls[k]).len() > 0
                &&& bytes_before(calls, k).len() < limit
                &&& calls[k].want == fill_want(bytes_before(calls, k).len(), limit)
            },
        ({
            let m = calls.len() - 1;
            let done = bytes_before(calls, m);
            &&& done.len() <= limit
            &&& done.len() < limit ==> calls[m].want == fill_want(done.len(), limit)
            &&& done.len() == limit ==> calls[m].want == 4096
            &&& match res {
                Ok((out, truncated)) => {
                    &&& calls[m].result is Ok
                    &&& out@ == done
                    &&& done.len() < limit ==> chunk_of(calls[m]).len() == 0 && !truncated
                    &&& done.len() == limit ==> truncated == (chunk_of(calls[m]).len() > 0)
                },
                Err(e) => calls[m].result == Err::<Vec<u8>, std::io::Error>(e),
            }
        }),
{
}

/// The reads `calls` are those of a reader that yields the bytes `s` and then
/// ends: none fails, each gives the bytes of `s` that come next, and one gives
/// nothing only when `s` is used up or nothing was asked for.
pub open spec fn stream_reads<R>(calls: Seq<ReadCall<R>>, s: Seq<u8>) -> bool {
    forall|k: int|
        0 <= k < calls.len() ==> {
            let got = bytes_before(calls, k + 1);
            &&& (#[trigger] calls[k]).result is Ok
            &&& got.len() <= s.len()
            &&& got == s.subrange(0, got.len() as int)
            &&& chunk_of(calls[k]).len() == 0 ==> (bytes_before(calls, k).len() == s.len()
                || calls[k].want == 0)
        }
}

/// On a reader that yields the bytes `s` and then ends (an in-memory cursor),
/// `read_up_to` gives the first `limit` bytes of `s`, and the flag tells whether
/// `s` is longer than `limit`.
pub proof fn lemma_read_stream<R: Read>(
    r0: R,
    limit: usize,
    calls: Seq<ReadCall<R>>,
    res: Result<(Vec<u8>, bool), std::io::Error>,
    s: Seq<u8>,
)
    requires
        read_outcome(r0, limit, calls, res),
        stream_reads(calls, s),
    ensures
        res matches Ok((out, truncated)) && out@ == s.subrange(
            0,
            if s.len() < limit {
                s.len() as int
            } else {
                limit as int
            },
        ) && truncated == (s.len() > limit),
{
    lemma_read_outcome(r0, limit, calls, res);
    let m = calls.len() - 1;
    let done = bytes_before(calls, m);
    assert(calls[m].result is Ok);
    assert(bytes_before(calls, m + 1) == done + chunk_of(calls[m]));
    if m > 0 {
        assert(bytes_before(calls, (m - 1) + 1) == done);
        assert(done == s.subrange(0, done.len() as int));
    } else {
        assert(done =~= s.subrange(0, 0));
    }
    if done.len() < limit {
        assert(calls[m].want > 0);
        assert(done.len() == s.len());
        assert(done =~= s.subrange(0, s.len() as int));
    } else {
        assert(calls[m].want == 4096);
        if s.len() == limit {
            assert(chunk_of(calls[m]).len() == 0);
        }
    }
}

/// Reads at most `limit` bytes; the flag tells whether the reader had more.
pub fn read_up_to<R: Read>(r: R, limit: usize) -> (res: Result<(Vec<u8>, bool), std::io::Error>)
    ensures
        exists|calls: Seq<ReadCall<R>>| #[trigger] read_outcome(r, limit, calls, res),
        res matches Ok((out, truncated)) ==> out@.len() <= limit && (truncated ==> out@.len()
            == limit),
{
    let ghost r0 = r;
    let mut reader = r;
    let ghost mut calls: Seq<ReadCall<R>> = Seq::empty();
    let mut out: Vec<u8> = Vec::new();
    let step = read_chunk::<R>;
    loop
        invariant
            out@.len() <= limit,
            out@ == bytes_before(calls, calls.len() as int),
            r0 == r,
            calls.len() == 0 ==> reader == r0,
            calls.len() > 0 ==> reader == calls.last().after && calls[0].before == r0,
            forall|k: int| 0 <= k < calls.len() - 1 ==> #[trigger] calls[k + 1].before
                == calls[k].after,
            forall|k: int|
                0 <= k < calls.len() ==> call_ensures(
                    read_chunk::<R>,
                    (calls[k].before, calls[k].want),
                    (calls[k].after, #[trigger] calls[k].result),
                ),
            forall|k: int|
                0 <= k < calls.len() ==> {
                    &&& (#[trigger] calls[k]).result is Ok
                    &&& chunk_of(calls[k]).len() > 0
                    &&& bytes_before(calls, k).len() < limit
                    &&& calls[k].want == fill_want(bytes_before(calls, k).len(), limit)
                },
            step == read_chunk::<R>,
        decreases limit - out@.len(),
    {
        let ghost before = reader;
        let want: usize = if out.len() >= limit {
            4096
        } else if limit - out.len() < 4096 {
            limit - out.len()
        } else {
            4096
        };
        let (r2, got) = step(reader, want);
        reader = r2;
        let ghost call = ReadCall { before, want, after: reader, result: got };
        let ghost prev = calls;
        proof {
            lemma_bytes_before_push(prev, call);
            calls = prev.push(call);
            assert(calls[calls.len() - 1] == call);
            assert forall|k: int| 0 <= k < prev.len() implies #[trigger] calls[k] == prev[k] by {}
            assert(bytes_before(calls, calls.len() - 1) == out@);
        }
        let chunk = match got {
            Ok(c) => c,
            Err(e) => {
                proof {
                    assert(read_run(r0, limit, calls));
                    assert(calls[calls.len() - 1].result == Err::<Vec<u8>, std::io::Error>(e));
                    assert(read_outcome(r0, limit, calls, Err(e)));
                }
                return Err(e);
            },
        };
        proof {
            assert(chunk_of(call) == chunk@);
        }
        if out.len() >= limit {
            proof {
                assert(read_run(r0, limit, calls));
                assert(read_outcome(r0, limit, calls, Ok((out, chunk.len() > 0))));
            }
            return Ok((out, chunk.len() > 0));
        }
        if chunk.len() == 0 {
            proof {
                assert(read_run(r0, limit, calls));
                assert(bytes_before(calls, calls.len() - 1).len() < limit);
                assert(chunk_of(calls[calls.len() - 1]).len() == 0);
                assert(calls[calls.len() - 1].result is Ok);
                assert(read_outcome(r0, limit, calls, Ok((out, false))));
            }
            return Ok((out, false));
        }
        let mut i: usize = 0;
        let ghost out0 = out@;
        while i < chunk.len()
            invariant
                i <= chunk@.len(),
                chunk@.len() <= want,
                out0.len() + want <= limit,
                out@ == out0 + chunk@.subrange(0, i as int),
            decreases chunk@.len() - i,
        {
            out.push(chunk[i]);
            i = i + 1;
            assert(out@ =~= out0 + chunk@.subrange(0, i as int));
        }
        assert(chunk@.subrange(0, i as int) =~= chunk@);
    }
}

proof fn lemma_bytes_before_push<R>(calls: Seq<ReadCall<R>>, c: ReadCall<R>)
    ensures
        forall|k: int| 0 <= k <= calls.len() ==> #[trigger] bytes_before(calls.push(c), k)
            == bytes_before(calls, k),
        bytes_before(calls.push(c), calls.len() + 1int) == bytes_before(calls, calls.len() as int)
            + chunk_of(c),
{
    assert forall|k: int| 0 <= k <= calls.len() implies #[trigger] bytes_before(calls.push(c), k)
        == bytes_before(calls, k) by {
        lemma_bytes_before_push_at(calls, c, k);
    }
    lemma_bytes_before_push_at(calls, c, calls.len() as int);
}

proof fn lemma_bytes_before_push_at<R>(calls: Seq<ReadCall<R>>, c: ReadCall<R>, k: int)
    requires
        0 <= k <= calls.len(),
    ensures
        bytes_before(calls.push(c), k) == bytes_before(calls, k),
    decreases k,
{
    if k > 0 {
        lemma_bytes_before_push_at(calls, c, k - 1);
        assert(calls.push(c)[k - 1] == calls[k - 1]);
    }
}

/// `String::from_utf8` of the standard library. Claimed, as its documentation
/// gives it: it succeeds exactly when the bytes are valid UTF-8, and the text is
/// then the characters they encode.
#[verifier::external_body]
fn utf8_string(bytes: Vec<u8>) -> (r: Option<String>)
    ensures
        r is Some <==> vstd::utf8::valid_utf8(bytes@),
        r matches Some(s) ==> s@ == vstd::utf8::decode_utf8(bytes@),
{
    String::from_utf8(bytes).ok()
}

pub open spec fn not_text_message() -> Seq<char> {
    "not utf-8 (binary file)"@
}

/// The content that `read` answers with: the bytes read as UTF-8 text, or the
/// refusal of a binary file.
pub fn read_text(bytes: Vec<u8>) -> (r: Result<String, &'static str>)
    ensures
        r is Ok <==> vstd::utf8::valid_utf8(bytes@),
        r matches Ok(s) ==> s@ == vstd::utf8::decode_utf8(bytes@),
        r matches Err(m) ==> m@ == not_text_message(),
{
    match utf8_string(bytes) {
        Some(s) => Ok(s),
        None => Err("not utf-8 (binary file)"),
    }
}

/// The kind that `stat` reports: a file first, then a directory, then a
/// symbolic link, else unknown.
pub fn stat_kind(is_file: bool, is_dir: bool, is_symlink: bool) -> (r: &'static str)
    ensures
        r@ == if is_file {
            "file"@
        } else if is_dir {
            "dir"@
        } else if is_symlink {
            "symlink"@
        } else {
            "unknown"@
        },
{
    if is_file {
        "file"
    } else if is_dir {
        "dir"
    } else if is_symlink {
        "symlink"
    } else {
        "unknown"
    }
}

/// What a directory entry is, as the listing reports it.
#[derive(Debug, Clone, Copy, PartialEq, Eq, Structural)]
pub enum EntryKind {
    Dir,
    File,
    Other,
    /// Its metadata could not be read.
    Unknown,
}

impl EntryKind {
    /// The word the listing shows for the kind.
    pub fn name(self) -> (r: &'static str)
        ensures
            r@ == match self {
                EntryKind::Dir => "dir"@,
                EntryKind::File => "file"@,
                EntryKind::Other => "other"@,
                EntryKind::Unknown => "unknown"@,
            },
    {
        match self {
            EntryKind::Dir => "dir",
            EntryKind::File => "file",
            EntryKind::Other => "other",
            EntryKind::Unknown => "unknown",
        }
    }
}

/// The kind of an entry from its metadata, if it could be read: whether it is
/// a directory and whether it is a file. A directory wins over a file.
pub fn entry_kind(meta: Option<(bool, bool)>) -> (k: EntryKind)
    ensures
        k == match meta {
            None => EntryKind::Unknown,
            Some((is_dir, is_file)) => if is_dir {
                EntryKind::Dir
            } else if is_file {
                EntryKind::File
            } else {
                EntryKind::Other
            },
        },
{
    match meta {
        None => EntryKind::Unknown,
        Some((is_dir, is_file)) => if is_dir {
            EntryKind::Dir
        } else if is_file {
            EntryKind::File
        } else {
            EntryKind::Other
        },
    }
}

/// The entries are in order of their names.
pub open spec fn sorted_by_name(s: Seq<(String, EntryKind, u64)>) -> bool {
    forall|i: int, j: int| 0 <= i < j < s.len() ==> lex_le(#[trigger] s[i].0@, #[trigger] s[j].0@)
}

/// The listing's entries in order of their names: the same entries, sorted.
pub fn sort_entries(v: Vec<(String, EntryKind, u64)>) -> (r: Vec<(String, EntryKind, u64)>)
    ensures
        r@.to_multiset() == v@.to_multiset(),
        sorted_by_name(r@),
{
    broadcast use vstd::seq_lib::group_to_multiset_ensures;
    broadcast use vstd::multiset::group_multiset_axioms;

    let ghost v0 = v@;
    let mut v = v;
    let mut r: Vec<(String, EntryKind, u64)> = Vec::new();
    while v.len() > 0
        invariant
            v@.to_multiset().add(r@.to_multiset()) == v0.to_multiset(),
            sorted_by_name(r@),
        decreases v@.len(),
    {
        let ghost vb = v@;
        let x = v.pop().unwrap();
        assert(vb == v@.push(x));
        let mut j: usize = 0;
        while j < r.len() && !str_lex_le(x.0.as_str(), r[j].0.as_str())
            invariant
                j <= r@.len(),
                forall|i: int| 0 <= i < j ==> lex_le(#[trigger] r@[i].0@, x.0@),
            decreases r@.len() - j,
        {
            proof {
                lemma_lex_total(x.0@, r@[j as int].0@);
            }
            j = j + 1;
        }
        let ghost rb = r@;
        r.insert(j, x);
        proof {
            let rn = r@;
            assert(rn == rb.insert(j as int, x));
            assert forall|a: int, b: int| 0 <= a < b < rn.len() implies lex_le(
                #[trigger] rn[a].0@,
                #[trigger] rn[b].0@,
            ) by {
                if a < j && b < j {
                    assert(rn[a] == rb[a] && rn[b] == rb[b]);
                } else if a < j && b == j {
                    assert(rn[a] == rb[a]);
                } else if a < j && b > j {
                    assert(rn[a] == rb[a] && rn[b] == rb[b - 1]);
                    assert(lex_le(x.0@, rb[j as int].0@));
                    if j < b - 1 {
                        lemma_lex_transitive(x.0@, rb[j as int].0@, rb[b - 1].0@);
                    }
                    lemma_lex_transitive(rb[a].0@, x.0@, rb[b - 1].0@);
                } else if a == j {
                    assert(rn[b] == rb[b - 1]);
                    assert(lex_le(x.0@, rb[j as int].0@));
                    if j < b - 1 {
                        lemma_lex_transitive(x.0@, rb[j as int].0@, rb[b - 1].0@);
                    }
                } else {
                    assert(rn[a] == rb[a - 1] && rn[b] == rb[b - 1]);
                }
            }
            vstd::seq_lib::to_multiset_build(v@, x);
            vstd::seq_lib::to_multiset_insert(rb, j as int, x);
            assert(vb.to_multiset() == v@.to_multiset().insert(x));
            assert(rn.to_multiset() == rb.to_multiset().insert(x));
            assert(v@.to_multiset().add(rn.to_multiset()) =~= vb.to_multiset().add(rb.to_multiset()));
        }
    }
    assert(v@ =~= Seq::<(String, EntryKind, u64)>::empty());
    assert(r@.to_multiset() =~= v0.to_multiset());
    r
}

/// One command of the filesystem tool, read from its arguments.
#[derive(Debug, PartialEq, Eq)]
pub enum FsCommand {
    /// No operation given, or an unknown one: print the usage.
    Usage,
    Stat(String),
    Read(String),
    List(String),
    /// Write `content` to `path`, replacing the file.
    Write { path: String, content: String },
    /// An argument is missing: the operation and the message.
    Invalid { op: String, message: String },
}

/// Reads the tool's arguments: `args[1]` is the operation, `args[2]` the path,
/// `args[3]` the content of a write.
pub fn parse_fs_args(args: &[String]) -> (r: FsCommand)
    ensures
        args@.len() < 2 ==> r is Usage,
        args@.len() >= 2 && args@[1]@ == "write"@ ==> {
            &&& args@.len() >= 4 ==> (r matches FsCommand::Write { path, content } && path@
                == args@[2]@ && content@ == args@[3]@)
            &&& args@.len() == 3 ==> (r matches FsCommand::Invalid { op, message } && op@
                == "write"@ && message@ == "missing content argument"@)
            &&& args@.len() == 2 ==> (r matches FsCommand::Invalid { op, message } && op@
                == "write"@ && message@ == "missing path argument"@)
        },
        args@.len() >= 2 && args@[1]@ != "write"@ ==> {
            &&& args@.len() == 2 ==> (r matches FsCommand::Invalid { op, message } && op@
                == args@[1]@ && message@ == "missing path argument"@)
            &&& args@.len() >= 3 && args@[1]@ == "stat"@ ==> (r matches FsCommand::Stat(p) && p@
                == args@[2]@)
            &&& args@.len() >= 3 && args@[1]@ == "read"@ ==> (r matches FsCommand::Read(p) && p@
                == args@[2]@)
            &&& args@.len() >= 3 && args@[1]@ == "list"@ ==> (r matches FsCommand::List(p) && p@
                == args@[2]@)
            &&& args@.len() >= 3 && args@[1]@ != "stat"@ && args@[1]@ != "read"@ && args@[1]@
                != "list"@ ==> r is Usage
        },
{
    if args.len() < 2 {
        return FsCommand::Usage;
    }
    let op = args[1].as_str();
    proof {
        reveal_strlit("write");
        reveal_strlit("stat");
        reveal_strlit("read");
        reveal_strlit("list");
        assert("write"@[0] != "stat"@[0] && "write"@[0] != "read"@[0] && "write"@[0] != "list"@[0]);
        assert("stat"@[0] != "read"@[0] && "stat"@[0] != "list"@[0] && "read"@[0] != "list"@[0]);
    }
    if str_eq(op, "write") {
        if args.len() >= 4 {
            FsCommand::Write { path: args[2].clone(), content: args[3].clone() }
        } else if args.len() == 3 {
            FsCommand::Invalid {
                op: String::from_str("write"),
                message: String::from_str("missing content argument"),
            }
        } else {
            FsCommand::Invalid {
                op: String::from_str("write"),
                message: String::from_str("missing path argument"),
            }
        }
    } else if args.len() == 2 {
        FsCommand::Invalid { op: args[1].clone(), message: String::from_str("missing path argument") }
    } else if str_eq(op, "stat") {
        FsCommand::Stat(args[2].clone())
    } else if str_eq(op, "read") {
        FsCommand::Read(args[2].clone())
    } else if str_eq(op, "list") {
        FsCommand::List(args[2].clone())
    } else {
        FsCommand::Usage
    }
}

} // verus!
