use async_ws::frame::max_payload_len;
use async_ws::frame::{
    close_body_valid, payload_mask, FrameHead, FrameHeadParseError, WsControlFrame,
    WsControlFrameKind, WsFrame, WsFrameKind, WsOpcode,
};

fn head(fin: bool, opcode: WsOpcode, mask: [u8; 4], payload_len: u64) -> FrameHead {
    FrameHead { fin, opcode, mask, payload_len }
}

fn roundtrip(h: FrameHead) -> FrameHead {
    let encoded = h.encode();
    assert_eq!(encoded.len(), h.len_bytes());
    FrameHead::parse(&encoded).expect("canonical header must parse")
}

#[test]
fn head_reserialize_boundary_lengths() {
    for len in [0u64, 125, 126, 65535, 65536, 1 << 20] {
        let h = head(true, WsOpcode::Binary, [0, 0, 0, 0], len);
        let encoded = h.encode();
        let parsed = FrameHead::parse(&encoded).unwrap();
        assert_eq!(parsed.payload_len, len);
        assert!(parsed.fin);
        assert_eq!(parsed.mask, [0, 0, 0, 0]);
        // Reserialize: byte-for-byte the same wire form.
        assert_eq!(parsed.encode(), encoded);
    }
}

#[test]
fn head_length_forms() {
    assert_eq!(head(true, WsOpcode::Binary, [0; 4], 125).encode()[1], 125);
    assert_eq!(head(true, WsOpcode::Binary, [0; 4], 126).encode()[1], 126);
    assert_eq!(head(true, WsOpcode::Binary, [0; 4], 65535).encode()[1], 126);
    assert_eq!(head(true, WsOpcode::Binary, [0; 4], 65536).encode()[1], 127);
    assert_eq!(head(true, WsOpcode::Binary, [0; 4], 125).len_bytes(), 2);
    assert_eq!(head(true, WsOpcode::Binary, [0; 4], 65535).len_bytes(), 4);
    assert_eq!(head(true, WsOpcode::Binary, [0; 4], 65536).len_bytes(), 10);
    assert_eq!(head(true, WsOpcode::Binary, [1, 2, 3, 4], 125).len_bytes(), 6);
}

#[test]
fn masked_head_roundtrip() {
    let h = head(false, WsOpcode::Text, [9, 8, 7, 6], 300);
    let parsed = roundtrip(h);
    assert_eq!(parsed.mask, [9, 8, 7, 6]);
    assert_eq!(parsed.payload_len, 300);
    assert!(!parsed.fin);
}

#[test]
fn control_payload_125_is_legal_126_is_not() {
    let ok = head(true, WsOpcode::Ping, [0; 4], 125);
    assert!(FrameHead::parse(&ok.encode()).is_ok());
    // A control header declaring 126 bytes is refused at parse.
    let bad = vec![0x89u8, 126, 0, 126];
    assert!(matches!(
        FrameHead::parse(&bad),
        Err(FrameHeadParseError::PayloadLengthTooLong)
    ));
}

#[test]
fn fragmented_control_is_refused() {
    // fin=0 Ping.
    let bad = vec![0x09u8, 0];
    assert!(matches!(
        FrameHead::parse(&bad),
        Err(FrameHeadParseError::FragmentedControl)
    ));
}

#[test]
fn reserved_bits_and_opcodes_are_refused() {
    assert!(matches!(
        FrameHead::parse(&vec![0xC1u8, 0]),
        Err(FrameHeadParseError::RsvBit)
    ));
    assert!(matches!(
        FrameHead::parse(&vec![0x83u8, 0]),
        Err(FrameHeadParseError::InvalidOpcode(3))
    ));
}

#[test]
fn incomplete_reports_needed_length() {
    assert!(matches!(
        FrameHead::parse(&vec![]),
        Err(FrameHeadParseError::Incomplete(2))
    ));
    // 126-form needs 4 bytes before the header is complete.
    assert!(matches!(
        FrameHead::parse(&vec![0x81u8, 126]),
        Err(FrameHeadParseError::Incomplete(4))
    ));
    // Masked 127-form needs 14.
    assert!(matches!(
        FrameHead::parse(&vec![0x81u8, 255]),
        Err(FrameHeadParseError::Incomplete(14))
    ));
}

#[test]
fn zero_key_masked_head_is_accepted_as_unmasked() {
    // Mask bit set, but the key on the wire is all zero: accepted, and the
    // parsed header is equivalent to an unmasked one.
    let wire = vec![0x81u8, 0x85, 0, 0, 0, 0, b'H', b'e', b'l', b'l', b'o'];
    let parsed = FrameHead::parse(&wire).unwrap();
    assert_eq!(parsed.mask, [0, 0, 0, 0]);
    assert!(!parsed.masked());
    let mut payload = wire[6..].to_vec();
    payload_mask(parsed.mask, 0, &mut payload);
    assert_eq!(payload, b"Hello".to_vec());
}

#[test]
fn masking_is_self_inverse() {
    let key = [0x01u8, 0x02, 0x03, 0x04];
    let plain: Vec<u8> = (0u8..=255).collect();
    let mut buf = plain.clone();
    payload_mask(key, 7, &mut buf);
    assert_ne!(buf, plain);
    payload_mask(key, 7, &mut buf);
    assert_eq!(buf, plain);
}

#[test]
fn masking_offset_cycles_through_the_key() {
    let key = [1u8, 2, 4, 8];
    let mut buf = vec![0u8; 6];
    payload_mask(key, 2, &mut buf);
    assert_eq!(buf, vec![4, 8, 1, 2, 4, 8]);
}

#[test]
fn whole_frame_encoding_masks_the_payload() {
    let h = head(true, WsOpcode::Text, [1, 2, 3, 4], 5);
    let payload = b"Hello".to_vec();
    let wire = WsFrame::encode_vec(h, &payload);
    assert_eq!(&wire[0..6], &[0x81, 0x85, 1, 2, 3, 4]);
    assert_eq!(&wire[6..], &[0x49, 0x67, 0x6F, 0x68, 0x6E]);
    // Unmasked server frame.
    let h2 = head(true, WsOpcode::Text, [0, 0, 0, 0], 5);
    let wire2 = WsFrame::encode_vec(h2, &payload);
    assert_eq!(wire2, vec![0x81, 0x05, b'H', b'e', b'l', b'l', b'o']);
}

#[test]
fn close_body_rules() {
    // Empty body is legal.
    assert!(close_body_valid(&vec![]));
    // One stray byte is malformed.
    assert!(!close_body_valid(&vec![3]));
    // Code 1005 is reserved and malformed on the wire.
    assert!(!close_body_valid(&vec![0x03, 0xED]));
    // Code 1000 with an empty reason is legal.
    assert!(close_body_valid(&vec![0x03, 0xE8]));
    // Code 1000 with a UTF-8 reason is legal; with broken UTF-8 it is not.
    assert!(close_body_valid(&vec![0x03, 0xE8, b'o', b'k']));
    assert!(!close_body_valid(&vec![0x03, 0xE8, 0xC3, 0x28]));
    // Codes 0-999, 1004-1006, 1016-2999 are out; 3000 and up are in.
    assert!(!close_body_valid(&vec![0x00, 0x00]));
    assert!(!close_body_valid(&vec![0x03, 0xEC]));
    assert!(!close_body_valid(&vec![0x0B, 0xB7]));
    assert!(close_body_valid(&vec![0x0B, 0xB8]));
}

#[test]
fn control_frame_payload_is_capped() {
    let long: Vec<u8> = vec![7u8; 200];
    let frame = WsControlFrame::new(WsControlFrameKind::Ping, &long);
    assert_eq!(frame.payload().len(), 125);
    assert_eq!(frame.kind(), WsControlFrameKind::Ping);
}

#[test]
fn frame_kind_payload_caps() {
    assert_eq!(WsFrameKind::Control(WsControlFrameKind::Ping).max_payload_len(), 125);
    assert_eq!(
        WsFrameKind::Data(async_ws::frame::WsDataFrameKind::Binary).max_payload_len(),
        1073741824
    );
}

#[test]
fn max_payload_len_boundaries() {
    assert_eq!(max_payload_len(true, 6), 0);
    assert_eq!(max_payload_len(true, 7), 1);
    assert_eq!(max_payload_len(true, 132), 126);
    assert_eq!(max_payload_len(true, 135), 127);
    assert_eq!(max_payload_len(false, 3), 1);
    assert_eq!(max_payload_len(false, 128), 126);
    assert_eq!(max_payload_len(false, 65539), 65536);
    assert_eq!(max_payload_len(false, 3000000000), 2147483647);
}
