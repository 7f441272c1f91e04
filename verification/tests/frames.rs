use mip_client::client::internals::{
    build_header, build_publish_payload, drain_frames, encode_frame, generate_msg_id, handle_data,
    parse_message, process_frame, StreamItem,
};
use mip_client::{ClientEvent, FrameFlags, FrameType, Header, HeaderError, MIPError, MSIP_VERSION};

fn frame(ft: FrameType, payload: &[u8], id: u64) -> Vec<u8> {
    encode_frame(ft, payload, FrameFlags::none(), id)
}

fn header_of(ft: FrameType, len: u32, id: u64) -> Header {
    build_header(ft, len, FrameFlags::none(), id)
}

#[test]
fn msg_id_is_time_plus_count() {
    assert_eq!(generate_msg_id(5, 1_000_000), 1_000_005);
    assert_eq!(generate_msg_id(0, 42), 42);
}

#[test]
fn build_header_fields() {
    let h = build_header(FrameType::Subscribe, 9, FrameFlags::urgent(), 77);
    assert_eq!(h.version, MSIP_VERSION);
    assert_eq!(h.frame_type, FrameType::Subscribe);
    assert_eq!(h.message_kind, 1);
    assert_eq!(h.payload_length, 9);
    assert_eq!(h.msg_id, 77);
    assert_eq!(h.flags, FrameFlags::urgent());
}

#[test]
fn encode_frame_is_header_then_payload() {
    let f = frame(FrameType::Subscribe, b"abc", 3);
    let mut expected = header_of(FrameType::Subscribe, 3, 3).encode();
    expected.extend_from_slice(b"abc");
    assert_eq!(f, expected);
}

#[test]
fn publish_payload_layout() {
    assert_eq!(build_publish_payload("a/b", "hi"), vec![0, 3, b'a', b'/', b'b', b'h', b'i']);
    assert_eq!(build_publish_payload("", ""), vec![0, 0]);
}

#[test]
fn parse_message_round_trip() {
    let h = header_of(FrameType::Publish, 0, 1);
    let payload = build_publish_payload("news/é", "bonjour");
    let msg = parse_message(&h, &payload).unwrap();
    assert_eq!(msg.topic, "news/é");
    assert_eq!(msg.message, "bonjour");
    assert_eq!(msg.header, h);
}

#[test]
fn parse_message_too_short() {
    let h = header_of(FrameType::Publish, 0, 1);
    assert_eq!(parse_message(&h, &[]), None);
    assert_eq!(parse_message(&h, &[0]), None);
    assert_eq!(parse_message(&h, &[0, 4, b'a', b'b', b'c']), None);
}

#[test]
fn parse_message_empty_topic_and_lossy_text() {
    let h = header_of(FrameType::Event, 0, 1);
    let msg = parse_message(&h, &[0, 0, 0xFF]).unwrap();
    assert_eq!(msg.topic, "");
    assert_eq!(msg.message, "\u{FFFD}");
}

#[test]
fn process_event_frame() {
    let payload = build_publish_payload("t", "m");
    let h = header_of(FrameType::Event, payload.len() as u32, 10);
    let events = process_frame(h, payload.clone());
    assert_eq!(events.len(), 3);
    assert_eq!(events[0], ClientEvent::Frame(h, payload));
    match (&events[1], &events[2]) {
        (ClientEvent::Event(a), ClientEvent::Message(b)) => {
            assert_eq!(a, b);
            assert_eq!(a.topic, "t");
            assert_eq!(a.message, "m");
        }
        other => panic!("unexpected events {:?}", other),
    }
}

#[test]
fn process_publish_frame() {
    let payload = build_publish_payload("t", "m");
    let h = header_of(FrameType::Publish, payload.len() as u32, 10);
    let events = process_frame(h, payload);
    assert_eq!(events.len(), 2);
    match &events[1] {
        ClientEvent::Message(m) => assert_eq!((m.topic.as_str(), m.message.as_str()), ("t", "m")),
        other => panic!("unexpected event {:?}", other),
    }
}

#[test]
fn process_publish_frame_with_bad_payload() {
    let h = header_of(FrameType::Publish, 1, 10);
    let events = process_frame(h, vec![7]);
    assert_eq!(events, vec![ClientEvent::Frame(h, vec![7])]);
}

#[test]
fn process_ack_pong_error_close() {
    let h = header_of(FrameType::Ack, 0, 99);
    assert_eq!(process_frame(h, vec![]), vec![ClientEvent::Frame(h, vec![]), ClientEvent::Ack(99)]);
    let h = header_of(FrameType::Pong, 0, 1);
    assert_eq!(process_frame(h, vec![]), vec![ClientEvent::Frame(h, vec![]), ClientEvent::Pong]);
    let h = header_of(FrameType::Error, 4, 1);
    assert_eq!(
        process_frame(h, b"oops".to_vec()),
        vec![
            ClientEvent::Frame(h, b"oops".to_vec()),
            ClientEvent::Error(MIPError::ServerError("oops".to_string()))
        ]
    );
    let h = header_of(FrameType::Close, 0, 1);
    assert_eq!(process_frame(h, vec![]), vec![ClientEvent::Frame(h, vec![])]);
    let h = header_of(FrameType::Hello, 0, 1);
    assert_eq!(process_frame(h, vec![]), vec![ClientEvent::Frame(h, vec![])]);
}

#[test]
fn drain_two_frames_and_keep_partial() {
    let mut buffer = frame(FrameType::Ack, &[], 1);
    buffer.extend(frame(FrameType::Subscribe, b"xy", 2));
    buffer.extend_from_slice(&[0x4D, 0x53]);
    let items = drain_frames(&mut buffer);
    assert_eq!(
        items,
        vec![
            StreamItem::Frame(header_of(FrameType::Ack, 0, 1), vec![]),
            StreamItem::Frame(header_of(FrameType::Subscribe, 2, 2), b"xy".to_vec()),
        ]
    );
    assert_eq!(buffer, vec![0x4D, 0x53]);
}

#[test]
fn drain_waits_for_whole_payload() {
    let full = frame(FrameType::Publish, b"hello", 5);
    let mut buffer = full[..full.len() - 1].to_vec();
    let items = drain_frames(&mut buffer);
    assert!(items.is_empty());
    assert_eq!(buffer, full[..full.len() - 1].to_vec());
}

#[test]
fn drain_invalid_magic_clears_buffer() {
    let mut buffer = frame(FrameType::Ack, &[], 1);
    buffer[0] = 0;
    buffer.extend(frame(FrameType::Ack, &[], 2));
    let items = drain_frames(&mut buffer);
    assert_eq!(items, vec![StreamItem::InvalidMagic(0x0053_4950)]);
    assert!(buffer.is_empty());
}

#[test]
fn drain_skips_undecodable_header() {
    let mut bad = frame(FrameType::Ack, &[], 1);
    bad[7] = 0x20;
    let mut buffer = bad.clone();
    buffer.extend(frame(FrameType::Pong, &[], 2));
    let items = drain_frames(&mut buffer);
    assert_eq!(
        items,
        vec![
            StreamItem::BadHeader(HeaderError::UnknownFrameType(0x20)),
            StreamItem::Frame(header_of(FrameType::Pong, 0, 2), vec![]),
        ]
    );
    assert!(buffer.is_empty());
}

#[test]
fn drain_in_chunks_matches_whole() {
    let mut whole = frame(FrameType::Publish, &build_publish_payload("a", "b"), 1);
    whole.extend(frame(FrameType::Ack, &[], 2));
    whole.extend(frame(FrameType::Pong, &[], 3));
    let mut at_once = whole.clone();
    let expected = drain_frames(&mut at_once);
    for cut in 0..whole.len() {
        let mut buffer = whole[..cut].to_vec();
        let mut items = drain_frames(&mut buffer);
        buffer.extend_from_slice(&whole[cut..]);
        items.extend(drain_frames(&mut buffer));
        assert_eq!(items, expected);
        assert!(buffer.is_empty());
    }
}

#[test]
fn handle_data_reports_events_in_order() {
    let payload = build_publish_payload("room", "hi");
    let mut buffer = frame(FrameType::Publish, &payload, 1);
    let mut bad = frame(FrameType::Ack, &[], 2);
    bad[7] = 0x30;
    buffer.extend(bad);
    buffer.extend(frame(FrameType::Ack, &[], 3));
    let events = handle_data(&mut buffer);
    assert_eq!(events.len(), 5);
    assert!(matches!(&events[1], ClientEvent::Message(m) if m.topic == "room" && m.message == "hi"));
    assert_eq!(
        events[2],
        ClientEvent::Error(MIPError::Protocol("unknown frame type: 48".to_string()))
    );
    assert_eq!(events[4], ClientEvent::Ack(3));
}

#[test]
fn handle_data_invalid_magic_error() {
    let mut buffer = vec![0u8; 30];
    let events = handle_data(&mut buffer);
    assert_eq!(events, vec![ClientEvent::Error(MIPError::InvalidMagic(0))]);
    assert!(buffer.is_empty());
}
