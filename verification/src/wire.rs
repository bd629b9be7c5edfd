//! Binary framing for requests and results across the host/guest boundary.
//!
//! A frame is a fixed 24-byte little-endian header followed by the payload:
//!
//! | bytes  | field                       |
//! |--------|-----------------------------|
//! | 0..4   | magic `0x4149_4D57`         |
//! | 4..6   | wire version                |
//! | 6      | message type                |
//! | 7      | flags (always 0)            |
//! | 8..16  | request id                  |
//! | 16..20 | payload length              |
//! | 20..24 | reserved (always 0)         |
//!
//! Host and guest must agree on this layout: it is part of the ABI.
use vstd::bytes::*;
use vstd::prelude::*;
use vstd::slice::slice_subrange;
use vstd::slice::slice_to_vec;

verus! {

pub const MAGIC: u32 = 0x4149_4D57;

pub const VERSION: u16 = 1;

pub const HEADER_LEN: usize = 24;

/// Frames whose payload is larger than this are refused on both sides.
pub const MAX_PAYLOAD: u32 = 16 * 1024 * 1024;

#[derive(Debug, Clone, Copy, PartialEq, Eq, Structural)]
pub enum MsgType {
    Request,
    Response,
}

/// The byte that stands for a message type in the header.
pub open spec fn msg_type_code(t: MsgType) -> u8 {
    match t {
        MsgType::Request => 1,
        MsgType::Response => 2,
    }
}

/// The message type that a header byte stands for, if any.
pub open spec fn msg_type_of_code(v: u8) -> Option<MsgType> {
    if v == 1 {
        Some(MsgType::Request)
    } else if v == 2 {
        Some(MsgType::Response)
    } else {
        None
    }
}

impl MsgType {
    pub fn from_u8(v: u8) -> (r: Option<Self>)
        ensures
            r == msg_type_of_code(v),
    {
        match v {
            1 => Some(MsgType::Request),
            2 => Some(MsgType::Response),
            _ => None,
        }
    }
}

#[derive(Debug, PartialEq, Eq)]
pub enum WireError {
    Truncated,
    InvalidMagic,
    UnsupportedVersion,
    UnknownMsgType,
    PayloadTooLarge,
    InvalidPayload(String),
}

#[derive(Debug, Clone, PartialEq, Eq)]
pub struct DecodedFrame {
    pub msg_type: MsgType,
    pub request_id: u64,
    pub payload: Vec<u8>,
}

/// The 24 header bytes of a frame of type `t`, id `id` and payload length `len`.
pub open spec fn frame_header(t: MsgType, id: u64, len: u32) -> Seq<u8> {
    spec_u32_to_le_bytes(MAGIC) + spec_u16_to_le_bytes(VERSION) + seq![msg_type_code(t), 0u8]
        + spec_u64_to_le_bytes(id) + spec_u32_to_le_bytes(len) + spec_u32_to_le_bytes(0)
}

/// The whole frame that carries `payload`.
pub open spec fn frame_bytes(t: MsgType, id: u64, payload: Seq<u8>) -> Seq<u8> {
    frame_header(t, id, payload.len() as u32) + payload
}

/// What reading a frame from the front of `buf` gives: the message type, the
/// request id and the payload, or the first check that fails.
pub open spec fn decode_spec(buf: Seq<u8>) -> Result<(MsgType, u64, Seq<u8>), WireError> {
    if buf.len() < HEADER_LEN {
        Err(WireError::Truncated)
    } else if spec_u32_from_le_bytes(buf.subrange(0, 4)) != MAGIC {
        Err(WireError::InvalidMagic)
    } else if spec_u16_from_le_bytes(buf.subrange(4, 6)) != VERSION {
        Err(WireError::UnsupportedVersion)
    } else if msg_type_of_code(buf[6]) is None {
        Err(WireError::UnknownMsgType)
    } else {
        let len = spec_u32_from_le_bytes(buf.subrange(16, 20));
        if len > MAX_PAYLOAD {
            Err(WireError::PayloadTooLarge)
        } else if buf.len() < HEADER_LEN + len {
            Err(WireError::Truncated)
        } else {
            Ok(
                (
                    msg_type_of_code(buf[6])->0,
                    spec_u64_from_le_bytes(buf.subrange(8, 16)),
                    buf.subrange(HEADER_LEN as int, HEADER_LEN + len),
                ),
            )
        }
    }
}

/// `s` with the bytes from `off` on replaced by `t`.
pub open spec fn splice(s: Seq<u8>, off: int, t: Seq<u8>) -> Seq<u8> {
    s.subrange(0, off) + t + s.subrange(off + t.len(), s.len() as int)
}

fn write_at(h: &mut Vec<u8>, off: usize, src: &Vec<u8>)
    requires
        off + src.len() <= old(h).len(),
    ensures
        final(h)@ == splice(old(h)@, off as int, src@),
{
    let ghost h0 = h@;
    let mut i: usize = 0;
    while i < src.len()
        invariant
            off + src.len() <= h.len(),
            h@.len() == h0.len(),
            i <= src.len(),
            forall|j: int| 0 <= j < off ==> h@[j] == h0[j],
            forall|j: int| off + src.len() <= j < h0.len() ==> h@[j] == h0[j],
            forall|j: int| off <= j < off + i ==> h@[j] == src@[j - off],
        decreases src.len() - i,
    {
        h.set(off + i, src[i]);
        i = i + 1;
    }
    assert(h@ =~= splice(h0, off as int, src@));
}

fn put_u32(h: &mut Vec<u8>, off: usize, v: u32)
    requires
        off + 4 <= old(h).len(),
    ensures
        final(h)@ == splice(old(h)@, off as int, spec_u32_to_le_bytes(v)),
{
    let b = u32_to_le_bytes(v);
    write_at(h, off, &b);
}

fn put_u16(h: &mut Vec<u8>, off: usize, v: u16)
    requires
        off + 2 <= old(h).len(),
    ensures
        final(h)@ == splice(old(h)@, off as int, spec_u16_to_le_bytes(v)),
{
    let b = u16_to_le_bytes(v);
    write_at(h, off, &b);
}

fn put_u64(h: &mut Vec<u8>, off: usize, v: u64)
    requires
        off + 8 <= old(h).len(),
    ensures
        final(h)@ == splice(old(h)@, off as int, spec_u64_to_le_bytes(v)),
{
    let b = u64_to_le_bytes(v);
    write_at(h, off, &b);
}

fn get_u32(b: &[u8], off: usize) -> (r: u32)
    requires
        off + 4 <= b.len(),
    ensures
        r == spec_u32_from_le_bytes(b@.subrange(off as int, off + 4)),
{
    u32_from_le_bytes(slice_subrange(b, off, off + 4))
}

fn get_u16(b: &[u8], off: usize) -> (r: u16)
    requires
        off + 2 <= b.len(),
    ensures
        r == spec_u16_from_le_bytes(b@.subrange(off as int, off + 2)),
{
    u16_from_le_bytes(slice_subrange(b, off, off + 2))
}

fn get_u64(b: &[u8], off: usize) -> (r: u64)
    requires
        off + 8 <= b.len(),
    ensures
        r == spec_u64_from_le_bytes(b@.subrange(off as int, off + 8)),
{
    u64_from_le_bytes(slice_subrange(b, off, off + 8))
}

/// Builds one frame; a payload over `MAX_PAYLOAD` is refused on the sending side.
pub fn encode_frame(msg_type: MsgType, request_id: u64, payload: &[u8]) -> (r: Result<
    Vec<u8>,
    WireError,
>)
    ensures
        payload@.len() > MAX_PAYLOAD <==> r is Err,
        r matches Err(e) ==> e == WireError::PayloadTooLarge,
        r matches Ok(out) ==> out@ == frame_bytes(msg_type, request_id, payload@),
{
    if payload.len() > MAX_PAYLOAD as usize {
        return Err(WireError::PayloadTooLarge);
    }
    proof {
        lemma_auto_spec_u16_to_from_le_bytes();
        lemma_auto_spec_u32_to_from_le_bytes();
        lemma_auto_spec_u64_to_from_le_bytes();
    }
    let mut h: Vec<u8> = vec![0u8; HEADER_LEN];
    let ghost zeros = h@;
    assert(zeros =~= Seq::new(24, |i: int| 0u8));
    put_u32(&mut h, 0, MAGIC);
    put_u16(&mut h, 4, VERSION);
    let code: u8 = match msg_type {
        MsgType::Request => 1,
        MsgType::Response => 2,
    };
    h.set(6, code);
    h.set(7, 0);
    put_u64(&mut h, 8, request_id);
    put_u32(&mut h, 16, payload.len() as u32);
    put_u32(&mut h, 20, 0);
    assert(h@ =~= frame_header(msg_type, request_id, payload@.len() as u32));
    let mut out = h;
    let mut body = slice_to_vec(payload);
    out.append(&mut body);
    Ok(out)
}

/// Reads one frame from the front of `buf`; bytes after the frame are ignored.
pub fn decode_frame(buf: &[u8]) -> (r: Result<DecodedFrame, WireError>)
    ensures
        match (r, decode_spec(buf@)) {
            (Ok(f), Ok((t, id, p))) => f.msg_type == t && f.request_id == id && f.payload@ == p,
            (Err(e), Err(e2)) => e == e2,
            _ => false,
        },
{
    if buf.len() < HEADER_LEN {
        return Err(WireError::Truncated);
    }
    if get_u32(buf, 0) != MAGIC {
        return Err(WireError::InvalidMagic);
    }
    if get_u16(buf, 4) != VERSION {
        return Err(WireError::UnsupportedVersion);
    }
    let msg_type = match MsgType::from_u8(buf[6]) {
        Some(t) => t,
        None => {
            return Err(WireError::UnknownMsgType);
        },
    };
    let request_id = get_u64(buf, 8);
    let payload_len = get_u32(buf, 16);
    if payload_len > MAX_PAYLOAD {
        return Err(WireError::PayloadTooLarge);
    }
    let end = HEADER_LEN + payload_len as usize;
    if buf.len() < end {
        return Err(WireError::Truncated);
    }
    Ok(
        DecodedFrame {
            msg_type,
            request_id,
            payload: slice_to_vec(slice_subrange(buf, HEADER_LEN, end)),
        },
    )
}

/// The message that refuses a frame of the other type where `expected` was wanted.
pub open spec fn wrong_type_message(expected: MsgType) -> Seq<char> {
    match expected {
        MsgType::Request => "expected Request frame"@,
        MsgType::Response => "expected Response frame"@,
    }
}

/// What reading a frame of type `expected` from the front of `buf` gives: the
/// request id and the payload bytes, or the error.
pub open spec fn typed_frame_ok(buf: Seq<u8>, expected: MsgType, r: Result<(u64, Vec<u8>), WireError>) -> bool {
    match decode_spec(buf) {
        Ok((t, id, p)) => if t == expected {
            r matches Ok((rid, rp)) && rid == id && rp@ == p
        } else {
            r matches Err(WireError::InvalidPayload(m)) && m@ == wrong_type_message(expected)
        },
        Err(e) => r matches Err(e2) && e2 == e,
    }
}

fn expect_frame(buf: &[u8], expected: MsgType) -> (r: Result<(u64, Vec<u8>), WireError>)
    ensures
        typed_frame_ok(buf@, expected, r),
{
    let f = match decode_frame(buf) {
        Ok(f) => f,
        Err(e) => {
            return Err(e);
        },
    };
    if f.msg_type != expected {
        let m = match expected {
            MsgType::Request => String::from_str("expected Request frame"),
            MsgType::Response => String::from_str("expected Response frame"),
        };
        return Err(WireError::InvalidPayload(m));
    }
    Ok((f.request_id, f.payload))
}

/// Reads a request frame; the caller turns its payload into a request.
pub fn decode_request_frame(buf: &[u8]) -> (r: Result<(u64, Vec<u8>), WireError>)
    ensures
        typed_frame_ok(buf@, MsgType::Request, r),
{
    expect_frame(buf, MsgType::Request)
}

/// Reads a response frame; the caller turns its payload into a result.
pub fn decode_response_frame(buf: &[u8]) -> (r: Result<(u64, Vec<u8>), WireError>)
    ensures
        typed_frame_ok(buf@, MsgType::Response, r),
{
    expect_frame(buf, MsgType::Response)
}

/// Encoding then decoding gives back the message type, the request id and the
/// payload, whatever bytes follow the frame in the buffer.
pub proof fn lemma_frame_roundtrip(t: MsgType, id: u64, payload: Seq<u8>, rest: Seq<u8>)
    requires
        payload.len() <= MAX_PAYLOAD,
    ensures
        decode_spec(frame_bytes(t, id, payload) + rest) == Ok::<
            (MsgType, u64, Seq<u8>),
            WireError,
        >((t, id, payload)),
        frame_bytes(t, id, payload).len() == HEADER_LEN + payload.len(),
{
    lemma_auto_spec_u16_to_from_le_bytes();
    lemma_auto_spec_u32_to_from_le_bytes();
    lemma_auto_spec_u64_to_from_le_bytes();
    let len = payload.len() as u32;
    let buf = frame_bytes(t, id, payload) + rest;
    let h = frame_header(t, id, len);
    assert(h.len() == 24);
    assert(buf.subrange(0, 4) =~= spec_u32_to_le_bytes(MAGIC));
    assert(buf.subrange(4, 6) =~= spec_u16_to_le_bytes(VERSION));
    assert(buf[6] == msg_type_code(t));
    assert(buf.subrange(8, 16) =~= spec_u64_to_le_bytes(id));
    assert(buf.subrange(16, 20) =~= spec_u32_to_le_bytes(len));
    assert(buf.subrange(24, 24 + len) =~= payload);
}

/// Encoding a frame and decoding it gives back exactly what was encoded.
pub proof fn lemma_encoded_frame_decodes(t: MsgType, id: u64, payload: Seq<u8>)
    requires
        payload.len() <= MAX_PAYLOAD,
    ensures
        decode_spec(frame_bytes(t, id, payload)) == Ok::<(MsgType, u64, Seq<u8>), WireError>(
            (t, id, payload),
        ),
{
    lemma_frame_roundtrip(t, id, payload, Seq::empty());
    assert(frame_bytes(t, id, payload) + Seq::<u8>::empty() =~= frame_bytes(t, id, payload));
}

/// A frame read back as the type it was written with gives its request id and
/// payload; read back as the other type it is refused.
pub proof fn lemma_typed_frame_roundtrip(
    t: MsgType,
    expected: MsgType,
    id: u64,
    payload: Seq<u8>,
    rest: Seq<u8>,
    r: Result<(u64, Vec<u8>), WireError>,
)
    requires
        payload.len() <= MAX_PAYLOAD,
        typed_frame_ok(frame_bytes(t, id, payload) + rest, expected, r),
    ensures
        t == expected ==> (r matches Ok((rid, rp)) && rid == id && rp@ == payload),
        t != expected ==> (r matches Err(WireError::InvalidPayload(m)) && m@ == wrong_type_message(
            expected,
        )),
{
    lemma_frame_roundtrip(t, id, payload, rest);
}

} // verus!
