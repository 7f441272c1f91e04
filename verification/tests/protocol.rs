use mip_client::protocol::header::{FrameFlags, FrameType, Header, HeaderError, HEADER_SIZE};
use mip_client::{MSG_KIND_EVENT, MSIP_MAGIC, MSIP_VERSION};

fn sample_header() -> Header {
    Header::new(FrameType::Publish, 1, 5, 0x0102_0304_0506_0708, FrameFlags::ack_required())
}

#[test]
fn header_encodes_big_endian_layout() {
    let bytes = sample_header().encode();
    assert_eq!(
        bytes,
        vec![
            0x4D, 0x53, 0x49, 0x50, 1, 1, 0x00, 0x04, 0x00, 0x01, 0, 0, 0, 0, 0, 5, 1, 2, 3, 4, 5,
            6, 7, 8
        ]
    );
    assert_eq!(bytes.len(), HEADER_SIZE);
}

#[test]
fn header_decodes_what_it_encodes() {
    let h = sample_header();
    let mut bytes = h.encode();
    bytes.extend_from_slice(&[9, 9, 9]);
    assert_eq!(Header::decode(&bytes), Ok(h));
}

#[test]
fn header_new_uses_protocol_version() {
    let h = Header::new(FrameType::Ping, MSG_KIND_EVENT, 0, 7, FrameFlags::none());
    assert_eq!(h.version, MSIP_VERSION);
    assert_eq!(h.message_kind, 1);
    assert_eq!(h.payload_length, 0);
    assert_eq!(h.msg_id, 7);
}

#[test]
fn header_decode_truncated() {
    let bytes = sample_header().encode();
    assert_eq!(Header::decode(&bytes[..23]), Err(HeaderError::Truncated));
}

#[test]
fn header_decode_bad_magic() {
    let mut bytes = sample_header().encode();
    bytes[0] = b'X';
    assert_eq!(Header::decode(&bytes), Err(HeaderError::InvalidMagic(0x5853_4950)));
}

#[test]
fn header_decode_unknown_frame_type() {
    let mut bytes = sample_header().encode();
    bytes[6] = 0;
    bytes[7] = 0x0B;
    assert_eq!(Header::decode(&bytes), Err(HeaderError::UnknownFrameType(11)));
}

#[test]
fn header_decode_ignores_reserved_bytes() {
    let h = sample_header();
    let mut bytes = h.encode();
    bytes[10] = 0xAA;
    bytes[11] = 0xBB;
    assert_eq!(Header::decode(&bytes), Ok(h));
}

#[test]
fn magic_constant_is_msip() {
    assert_eq!(MSIP_MAGIC, u32::from_be_bytes(*b"MSIP"));
}

#[test]
fn frame_type_codes() {
    let all = [
        (FrameType::Hello, 1u16),
        (FrameType::Subscribe, 2),
        (FrameType::Unsubscribe, 3),
        (FrameType::Publish, 4),
        (FrameType::Event, 5),
        (FrameType::Ack, 6),
        (FrameType::Error, 7),
        (FrameType::Ping, 8),
        (FrameType::Pong, 9),
        (FrameType::Close, 10),
    ];
    for (ft, code) in all {
        assert_eq!(ft.code(), code);
        assert_eq!(FrameType::from_code(code), Some(ft));
    }
    assert_eq!(FrameType::from_code(0), None);
    assert_eq!(FrameType::from_code(11), None);
}

#[test]
fn frame_flags_values() {
    assert_eq!(FrameFlags::none().bits(), 0);
    assert_eq!(FrameFlags::ack_required().bits(), 1);
    assert_eq!(FrameFlags::compressed().bits(), 2);
    assert_eq!(FrameFlags::urgent().bits(), 4);
    let both = FrameFlags::urgent().union(FrameFlags::ack_required());
    assert_eq!(both.bits(), 5);
    assert!(both.contains(FrameFlags::urgent()));
    assert!(both.contains(FrameFlags::ack_required()));
    assert!(!both.contains(FrameFlags::compressed()));
    assert_eq!(FrameFlags::from_bits(0x80).bits(), 0x80);
}

#[test]
fn header_error_texts() {
    assert_eq!(HeaderError::Truncated.describe(), "header shorter than 24 bytes");
    assert_eq!(HeaderError::InvalidMagic(42).describe(), "invalid magic number: 42");
    assert_eq!(HeaderError::UnknownFrameType(11).describe(), "unknown frame type: 11");
}
