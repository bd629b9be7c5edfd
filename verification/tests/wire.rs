use aimt::wire::{
    decode_frame, decode_request_frame, decode_response_frame, encode_frame, DecodedFrame, MsgType,
    WireError, HEADER_LEN, MAGIC, MAX_PAYLOAD, VERSION,
};

fn hdr(version: u16, msg_type: u8, payload_len: u32) -> [u8; HEADER_LEN] {
    let mut h = [0u8; HEADER_LEN];
    h[0..4].copy_from_slice(&MAGIC.to_le_bytes());
    h[4..6].copy_from_slice(&version.to_le_bytes());
    h[6] = msg_type;
    h[7] = 0;
    h[8..16].copy_from_slice(&1u64.to_le_bytes());
    h[16..20].copy_from_slice(&payload_len.to_le_bytes());
    h[20..24].copy_from_slice(&0u32.to_le_bytes());
    h
}

#[test]
fn unsupported_version() {
    let h = hdr(2, 1, 0);
    assert_eq!(decode_frame(&h).unwrap_err(), WireError::UnsupportedVersion);
}

#[test]
fn unknown_msg_type() {
    let h = hdr(1, 99, 0);
    assert_eq!(decode_frame(&h).unwrap_err(), WireError::UnknownMsgType);
}

#[test]
fn truncated_header() {
    assert_eq!(decode_frame(&[0u8; 10]).unwrap_err(), WireError::Truncated);
}

#[test]
fn payload_too_large_rejected() {
    assert_eq!(
        encode_frame(MsgType::Request, 1, &vec![0; MAX_PAYLOAD as usize + 1]).unwrap_err(),
        WireError::PayloadTooLarge
    );
    let h = hdr(1, 1, MAX_PAYLOAD + 1);
    assert_eq!(decode_frame(&h).unwrap_err(), WireError::PayloadTooLarge);
}

#[test]
fn frame_layout_is_little_endian_header_then_payload() {
    let bytes = encode_frame(MsgType::Response, 0x0102_0304_0506_0708, b"abc").unwrap();
    assert_eq!(bytes.len(), HEADER_LEN + 3);
    assert_eq!(&bytes[0..4], &[0x57, 0x4D, 0x49, 0x41]);
    assert_eq!(&bytes[4..6], &VERSION.to_le_bytes());
    assert_eq!(bytes[6], 2);
    assert_eq!(bytes[7], 0);
    assert_eq!(&bytes[8..16], &[8, 7, 6, 5, 4, 3, 2, 1]);
    assert_eq!(&bytes[16..20], &[3, 0, 0, 0]);
    assert_eq!(&bytes[20..24], &[0, 0, 0, 0]);
    assert_eq!(&bytes[24..], b"abc");
}

#[test]
fn frame_roundtrip_with_trailing_bytes() {
    let mut bytes = encode_frame(MsgType::Request, 42, &[9, 8, 7]).unwrap();
    bytes.extend_from_slice(&[1, 2, 3, 4]);
    let f = decode_frame(&bytes).unwrap();
    assert_eq!(f, DecodedFrame { msg_type: MsgType::Request, request_id: 42, payload: vec![9, 8, 7] });
}

#[test]
fn empty_and_maximal_payload_roundtrip() {
    let bytes = encode_frame(MsgType::Response, 7, &[]).unwrap();
    assert_eq!(bytes.len(), HEADER_LEN);
    assert_eq!(decode_frame(&bytes).unwrap().payload, Vec::<u8>::new());
    let big = vec![0xAB; MAX_PAYLOAD as usize];
    let bytes = encode_frame(MsgType::Request, 1, &big).unwrap();
    assert_eq!(decode_frame(&bytes).unwrap().payload.len(), MAX_PAYLOAD as usize);
}

/// The JSON text of the sample request, as serde_json writes it: fields in
/// declaration order, no spaces.
const REQ_JSON: &str = r#"{"request_id":"r1","lease_id":"l1","capability_token":"tok","argv":["/bin/probe","--x"],"env":{"APP_ENV":"sandbox"},"cwd":"/tmp","stdin":[9,8,7],"timeout_ms":5000,"max_stdout_bytes":1024,"max_stderr_bytes":1024,"stream":false}"#;

fn encode_request_bytes(request_id: u64) -> Vec<u8> {
    encode_frame(MsgType::Request, request_id, REQ_JSON.as_bytes()).unwrap()
}

#[test]
fn invalid_magic() {
    let mut bytes = encode_request_bytes(1);
    bytes[0] = 0;
    assert_eq!(decode_frame(&bytes).unwrap_err(), WireError::InvalidMagic);
}

#[test]
fn truncated_payload() {
    let mut bytes = encode_request_bytes(1);
    let cut = HEADER_LEN + 2;
    bytes.truncate(cut);
    assert_eq!(decode_frame(&bytes).unwrap_err(), WireError::Truncated);
}

#[test]
fn msg_type_from_u8() {
    assert_eq!(MsgType::from_u8(1), Some(MsgType::Request));
    assert_eq!(MsgType::from_u8(2), Some(MsgType::Response));
    assert_eq!(MsgType::from_u8(0), None);
    assert_eq!(MsgType::from_u8(3), None);
}

#[test]
fn typed_frames_check_their_type() {
    let req = encode_frame(MsgType::Request, 5, b"xy").unwrap();
    assert_eq!(decode_request_frame(&req).unwrap(), (5, b"xy".to_vec()));
    assert_eq!(
        decode_response_frame(&req).unwrap_err(),
        WireError::InvalidPayload("expected Response frame".into())
    );
    let res = encode_frame(MsgType::Response, 6, b"z").unwrap();
    assert_eq!(decode_response_frame(&res).unwrap(), (6, b"z".to_vec()));
    assert_eq!(
        decode_request_frame(&res).unwrap_err(),
        WireError::InvalidPayload("expected Request frame".into())
    );
    assert_eq!(decode_request_frame(&[0u8; 3]).unwrap_err(), WireError::Truncated);
}
