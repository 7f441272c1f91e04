//! Frame building, the receive-side framing of the byte stream, and frame dispatch.
use vstd::prelude::*;
use vstd::slice::slice_subrange;
use vstd::string::*;

use crate::protocol::header::{
    lemma_decode_encoded_header, lemma_read_be16, be16, get_be32, header_bytes, magic_bytes,
    read_be16, read_be32, spec_decode_header, header_error_text, HeaderError, HEADER_SIZE, FrameFlags, FrameType, Header, MSG_KIND_EVENT, MSIP_VERSION,
};
use crate::text::{lemma_lossy_text_of_encoding, lossy_string, lossy_text};
use vstd::utf8::encode_utf8;
use super::events::{ClientEvent, EventView, events_view};
use super::types::{ErrorView, MIPError, MIPMessage, MessageView};

verus! {

// ============================================================================
// Message ID Generation
// ============================================================================

/// The id of a new message: the current time in microseconds plus the number of ids handed
/// out before it.
pub fn generate_msg_id(count: u64, timestamp_micros: u64) -> (id: u64)
    requires
        timestamp_micros + count <= u64::MAX,
    ensures
        id == timestamp_micros + count,
{
    timestamp_micros + count
}

// ============================================================================
// Header and Frame Building
// ============================================================================

/// The header the client puts on an outgoing frame.
pub open spec fn spec_build_header(
    frame_type: FrameType,
    payload_length: u32,
    flags: FrameFlags,
    msg_id: u64,
) -> Header {
    Header {
        version: MSIP_VERSION,
        flags,
        frame_type,
        message_kind: MSG_KIND_EVENT,
        payload_length,
        msg_id,
    }
}

/// Builds the header of an outgoing frame.
pub fn build_header(frame_type: FrameType, payload_length: u32, flags: FrameFlags, msg_id: u64) -> (h:
    Header)
    ensures
        h == spec_build_header(frame_type, payload_length, flags, msg_id),
{
    Header::new(frame_type, MSG_KIND_EVENT, payload_length, msg_id, flags)
}

/// The bytes of a frame: its header followed by its payload.
pub open spec fn frame_bytes(h: Header, payload: Seq<u8>) -> Seq<u8> {
    header_bytes(h) + payload
}

/// The bytes of the outgoing frame with the given type, payload, flags and id. The payload
/// length field holds the payload's length truncated to 32 bits.
pub open spec fn outgoing_frame(
    frame_type: FrameType,
    payload: Seq<u8>,
    flags: FrameFlags,
    msg_id: u64,
) -> Seq<u8> {
    frame_bytes(spec_build_header(frame_type, payload.len() as u32, flags, msg_id), payload)
}

/// Appends `src[start..end]` to `out`.
fn extend_range(out: &mut Vec<u8>, src: &[u8], start: usize, end: usize)
    requires
        start <= end <= src@.len(),
    ensures
        final(out)@ == old(out)@ + src@.subrange(start as int, end as int),
{
    let mut i = start;
    while i < end
        invariant
            start <= i <= end,
            end <= src@.len(),
            out@ == old(out)@ + src@.subrange(start as int, i as int),
        decreases end - i,
    {
        out.push(src[i]);
        i += 1;
        assert(out@ =~= old(out)@ + src@.subrange(start as int, i as int));
    }
}

/// A copy of `src[start..end]`.
fn copy_range(src: &[u8], start: usize, end: usize) -> (out: Vec<u8>)
    requires
        start <= end <= src@.len(),
    ensures
        out@ == src@.subrange(start as int, end as int),
{
    let mut out: Vec<u8> = Vec::new();
    extend_range(&mut out, src, start, end);
    assert(out@ =~= src@.subrange(start as int, end as int));
    out
}

/// Encodes an outgoing frame: the header built for it, then the payload.
pub fn encode_frame(frame_type: FrameType, payload: &[u8], flags: FrameFlags, msg_id: u64) -> (frame:
    Vec<u8>)
    ensures
        frame@ == outgoing_frame(frame_type, payload@, flags, msg_id),
{
    let header = build_header(frame_type, payload.len() as u32, flags, msg_id);
    let mut frame = header.encode();
    extend_range(&mut frame, payload, 0, payload.len());
    assert(payload@.subrange(0, payload@.len() as int) =~= payload@);
    frame
}

// ============================================================================
// Publish Payload
// ============================================================================

/// A PUBLISH payload: the topic's length as a big-endian `u16` (truncated to 16 bits), the
/// topic's bytes, then the message's bytes.
pub open spec fn publish_payload(topic: Seq<u8>, message: Seq<u8>) -> Seq<u8> {
    be16(topic.len() as u16) + topic + message
}

/// Builds the payload of a PUBLISH frame from the UTF-8 bytes of a topic and a message.
pub fn build_publish_payload(topic: &str, message: &str) -> (payload: Vec<u8>)
    ensures
        payload@ == publish_payload(topic.spec_bytes(), message.spec_bytes()),
{
    let topic_bytes = topic.as_bytes();
    let message_bytes = message.as_bytes();
    let topic_len = topic_bytes.len() as u16;
    let mut payload: Vec<u8> = Vec::new();
    payload.push((topic_len >> 8u16) as u8);
    payload.push((topic_len & 0xffu16) as u8);
    extend_range(&mut payload, topic_bytes, 0, topic_bytes.len());
    extend_range(&mut payload, message_bytes, 0, message_bytes.len());
    assert(topic_bytes@.subrange(0, topic_bytes@.len() as int) =~= topic_bytes@);
    assert(message_bytes@.subrange(0, message_bytes@.len() as int) =~= message_bytes@);
    assert(payload@ =~= publish_payload(topic.spec_bytes(), message.spec_bytes()));
    payload
}

// ============================================================================
// Message Parsing
// ============================================================================

/// What a PUBLISH or EVENT payload carries: `None` when it is shorter than the two length
/// bytes or than the topic length they give; otherwise the topic and the rest as the message,
/// each decoded as lossy UTF-8.
pub open spec fn spec_parse_message(header: Header, payload: Seq<u8>) -> Option<MessageView> {
    if payload.len() < 2 {
        None
    } else {
        let topic_len = read_be16(payload, 0) as int;
        if payload.len() < 2 + topic_len {
            None
        } else {
            Some(
                MessageView {
                    header,
                    topic: lossy_text(payload.subrange(2, 2 + topic_len)),
                    message: lossy_text(payload.subrange(2 + topic_len, payload.len() as int)),
                },
            )
        }
    }
}

/// The view of an optional message.
pub open spec fn message_opt_view(m: Option<MIPMessage>) -> Option<MessageView> {
    match m {
        Some(m) => Some(m@),
        None => None,
    }
}

/// Parses the topic and message out of a PUBLISH or EVENT payload.
pub fn parse_message(header: &Header, payload: &[u8]) -> (m: Option<MIPMessage>)
    ensures
        message_opt_view(m) == spec_parse_message(*header, payload@),
{
    if payload.len() < 2 {
        return None;
    }
    let topic_len = (((payload[0] as u16) << 8u16) | (payload[1] as u16)) as usize;
    if payload.len() - 2 < topic_len {
        return None;
    }
    let topic = lossy_string(slice_subrange(payload, 2, 2 + topic_len));
    let message = lossy_string(slice_subrange(payload, 2 + topic_len, payload.len()));
    Some(MIPMessage { header: *header, topic, message })
}

/// A message published on a topic whose UTF-8 encoding fits the 16-bit length field is
/// parsed back with the same topic and message.
pub proof fn lemma_parse_published(header: Header, topic: Seq<char>, message: Seq<char>)
    requires
        encode_utf8(topic).len() <= u16::MAX,
    ensures
        spec_parse_message(header, publish_payload(encode_utf8(topic), encode_utf8(message)))
            == Some(MessageView { header, topic, message }),
{
    let tb = encode_utf8(topic);
    let mb = encode_utf8(message);
    let p = publish_payload(tb, mb);
    let n = tb.len() as int;
    assert((n as u16) as int == n);
    assert(p.subrange(0, 2) =~= be16(n as u16));
    lemma_read_be16(p, 0, n as u16);
    assert(p.subrange(2, 2 + n) =~= tb);
    assert(p.subrange(2 + n, p.len() as int) =~= mb);
    lemma_lossy_text_of_encoding(topic);
    lemma_lossy_text_of_encoding(message);
}

// ============================================================================
// Receive-side framing
// ============================================================================

/// One unit read off the byte stream.
#[derive(Debug, PartialEq, Eq)]
pub enum StreamItem {
    /// A complete frame: its header and payload.
    Frame(Header, Vec<u8>),
    /// The bytes at a frame boundary were not the magic number; carries them.
    InvalidMagic(u32),
    /// A header with the right magic number could not be decoded.
    BadHeader(HeaderError),
}

/// The mathematical value of a [`StreamItem`].
pub enum StreamItemView {
    Frame(Header, Seq<u8>),
    InvalidMagic(u32),
    BadHeader(HeaderError),
}

impl View for StreamItem {
    type V = StreamItemView;

    open spec fn view(&self) -> StreamItemView {
        match self {
            StreamItem::Frame(h, p) => StreamItemView::Frame(*h, p@),
            StreamItem::InvalidMagic(m) => StreamItemView::InvalidMagic(*m),
            StreamItem::BadHeader(e) => StreamItemView::BadHeader(*e),
        }
    }
}

/// The views of a sequence of stream items.
pub open spec fn items_view(items: Seq<StreamItem>) -> Seq<StreamItemView> {
    items.map_values(|i: StreamItem| i@)
}

/// What the receive buffer `buf` yields, and what stays buffered:
/// - fewer than [`HEADER_SIZE`] bytes: nothing yet, all bytes stay;
/// - no magic number at the start: an `InvalidMagic` item, and the buffer is emptied;
/// - a payload length that the buffer does not hold yet: nothing yet, all bytes stay;
/// - a header that does not decode: a `BadHeader` item, and the header's bytes are skipped;
/// - otherwise a `Frame` item, and the frame's bytes are consumed;
/// then the same again on what remains.
#[verifier::opaque]
pub open spec fn spec_drain(buf: Seq<u8>) -> (Seq<StreamItemView>, Seq<u8>)
    decreases buf.len(),
{
    if buf.len() < HEADER_SIZE {
        (seq![], buf)
    } else if buf.subrange(0, 4) != magic_bytes() {
        (seq![StreamItemView::InvalidMagic(read_be32(buf, 0))], seq![])
    } else {
        let len = read_be32(buf, 12) as int;
        if buf.len() < HEADER_SIZE + len {
            (seq![], buf)
        } else {
            match spec_decode_header(buf) {
                Err(e) => {
                    let rest = spec_drain(buf.subrange(HEADER_SIZE as int, buf.len() as int));
                    (seq![StreamItemView::BadHeader(e)] + rest.0, rest.1)
                },
                Ok(h) => {
                    let rest = spec_drain(
                        buf.subrange(HEADER_SIZE + len, buf.len() as int),
                    );
                    (
                        seq![
                            StreamItemView::Frame(
                                h,
                                buf.subrange(HEADER_SIZE as int, HEADER_SIZE + len),
                            ),
                        ] + rest.0,
                        rest.1,
                    )
                },
            }
        }
    }
}

/// Decoding looks at the first [`HEADER_SIZE`] bytes only.
proof fn lemma_decode_prefix(s: Seq<u8>, t: Seq<u8>)
    requires
        s.len() >= HEADER_SIZE,
        t.len() >= HEADER_SIZE,
        s.subrange(0, HEADER_SIZE as int) == t.subrange(0, HEADER_SIZE as int),
    ensures
        spec_decode_header(s) == spec_decode_header(t),
{
    assert forall|i: int| 0 <= i < HEADER_SIZE implies s[i] == t[i] by {
        assert(s[i] == s.subrange(0, HEADER_SIZE as int)[i]);
        assert(t[i] == t.subrange(0, HEADER_SIZE as int)[i]);
    }
    assert(s.subrange(0, 4) =~= t.subrange(0, 4));
}

/// Takes the complete frames off the front of the receive buffer, leaving what is not yet
/// a complete frame. Stops at the first missing magic number and empties the buffer there.
pub fn drain_frames(buffer: &mut Vec<u8>) -> (items: Vec<StreamItem>)
    ensures
        (items_view(items@), final(buffer)@) == spec_drain(old(buffer)@),
{
    let ghost orig = buffer@;
    proof {
        reveal(spec_drain);
    }
    let mut items: Vec<StreamItem> = Vec::new();
    let len = buffer.len();
    let mut pos: usize = 0;
    assert(orig.subrange(0, len as int) =~= orig);
    assert(items_view(items@) + spec_drain(orig).0 =~= spec_drain(orig).0);
    loop
        invariant
            pos <= len,
            len == buffer@.len(),
            buffer@ == orig,
            orig == old(buffer)@,
            spec_drain(orig) == (
                items_view(items@) + spec_drain(orig.subrange(pos as int, len as int)).0,
                spec_drain(orig.subrange(pos as int, len as int)).1,
            ),
        ensures
            pos <= len,
            buffer@ == orig,
            spec_drain(orig) == (items_view(items@), orig.subrange(pos as int, len as int)),
        decreases len - pos,
    {
        let ghost rest = orig.subrange(pos as int, len as int);
        let ghost old_items = items@;
        proof {
            reveal(spec_drain);
        }
        if len - pos < HEADER_SIZE {
            assert(items_view(items@) + seq![] =~= items_view(items@));
            break;
        }
        let slice = buffer.as_slice();
        if !(slice[pos] == 0x4Du8 && slice[pos + 1] == 0x53u8 && slice[pos + 2] == 0x49u8 && slice[pos
            + 3] == 0x50u8) {
            assert(rest.subrange(0, 4)[0] == rest[0]);
            assert(rest.subrange(0, 4)[1] == rest[1]);
            assert(rest.subrange(0, 4)[2] == rest[2]);
            assert(rest.subrange(0, 4)[3] == rest[3]);
            let magic = get_be32(slice, pos);
            assert(read_be32(rest, 0) == magic);
            items.push(StreamItem::InvalidMagic(magic));
            buffer.clear();
            assert(spec_drain(rest) == (seq![StreamItemView::InvalidMagic(magic)], Seq::<u8>::empty()));
            assert(items_view(items@) =~= items_view(old_items) + seq![
                StreamItemView::InvalidMagic(magic),
            ]);
            assert(buffer@ =~= Seq::<u8>::empty());
            assert(spec_drain(orig).0 =~= items_view(items@));
            assert(spec_drain(orig).1 =~= buffer@);
            return items;
        }
        assert(rest.subrange(0, 4) =~= magic_bytes());
        let payload_length = get_be32(slice, pos + 12);
        assert(read_be32(rest, 12) == payload_length);
        if ((len - pos) as u64) < (HEADER_SIZE as u64) + (payload_length as u64) {
            assert(items_view(items@) + seq![] =~= items_view(items@));
            break;
        }
        let end = pos + HEADER_SIZE + payload_length as usize;
        let header_slice = slice_subrange(slice, pos, pos + HEADER_SIZE);
        proof {
            assert(header_slice@ =~= rest.subrange(0, HEADER_SIZE as int));
            assert(header_slice@.subrange(0, HEADER_SIZE as int) =~= header_slice@);
            lemma_decode_prefix(header_slice@, rest);
        }
        match Header::decode(header_slice) {
            Err(e) => {
                items.push(StreamItem::BadHeader(e));
                proof {
                    assert(items_view(items@) =~= items_view(old_items) + seq![
                        StreamItemView::BadHeader(e),
                    ]);
                    assert(rest.subrange(HEADER_SIZE as int, rest.len() as int) =~= orig.subrange(
                        pos + HEADER_SIZE,
                        len as int,
                    ));
                }
                pos = pos + HEADER_SIZE;
            },
            Ok(header) => {
                let payload = copy_range(slice, pos + HEADER_SIZE, end);
                items.push(StreamItem::Frame(header, payload));
                proof {
                    assert(payload@ =~= rest.subrange(
                        HEADER_SIZE as int,
                        HEADER_SIZE + payload_length,
                    ));
                    assert(items_view(items@) =~= items_view(old_items) + seq![
                        StreamItemView::Frame(header, payload@),
                    ]);
                    assert(rest.subrange(HEADER_SIZE + payload_length, rest.len() as int)
                        =~= orig.subrange(end as int, len as int));
                }
                pos = end;
            },
        }
    }
    let remaining = copy_range(buffer.as_slice(), pos, len);
    *buffer = remaining;
    items
}

/// The bytes of a sequence of frames, one after the other.
pub open spec fn frames_bytes(frames: Seq<(Header, Seq<u8>)>) -> Seq<u8>
    decreases frames.len(),
{
    if frames.len() == 0 {
        seq![]
    } else {
        frame_bytes(frames[0].0, frames[0].1) + frames_bytes(frames.drop_first())
    }
}

/// The stream items of a sequence of frames.
pub open spec fn frames_items(frames: Seq<(Header, Seq<u8>)>) -> Seq<StreamItemView> {
    frames.map_values(|f: (Header, Seq<u8>)| StreamItemView::Frame(f.0, f.1))
}

/// Each frame's header gives its payload's length.
pub open spec fn lengths_match(frames: Seq<(Header, Seq<u8>)>) -> bool {
    forall|i: int| 0 <= i < frames.len() ==> #[trigger] frames[i].0.payload_length == frames[i].1.len()
}

/// A frame followed by more bytes is read as that frame, then as what the bytes after it give.
pub proof fn lemma_drain_one_frame(h: Header, p: Seq<u8>, after: Seq<u8>)
    requires
        h.payload_length == p.len(),
    ensures
        spec_drain(frame_bytes(h, p) + after) == (
            seq![StreamItemView::Frame(h, p)] + spec_drain(after).0,
            spec_drain(after).1,
        ),
{
    reveal(spec_drain);
    let buf = frame_bytes(h, p) + after;
    assert(buf =~= header_bytes(h) + (p + after));
    lemma_decode_encoded_header(h, p + after);
    assert(buf.subrange(0, 4) =~= header_bytes(h).subrange(0, 4));
    let len = p.len() as int;
    assert(buf.subrange(HEADER_SIZE as int, HEADER_SIZE + len) =~= p);
    assert(buf.subrange(HEADER_SIZE + len, buf.len() as int) =~= after);
}

/// Frames written one after the other, followed by fewer bytes than a header, are read back
/// as exactly those frames, and the trailing bytes stay buffered.
pub proof fn lemma_drain_written_frames(frames: Seq<(Header, Seq<u8>)>, tail: Seq<u8>)
    requires
        lengths_match(frames),
        tail.len() < HEADER_SIZE,
    ensures
        spec_drain(frames_bytes(frames) + tail) == (frames_items(frames), tail),
    decreases frames.len(),
{
    reveal(spec_drain);
    if frames.len() == 0 {
        assert(frames_bytes(frames) + tail =~= tail);
        assert(frames_items(frames) =~= Seq::<StreamItemView>::empty());
    } else {
        let h = frames[0].0;
        let p = frames[0].1;
        let rest = frames.drop_first();
        assert(lengths_match(rest)) by {
            assert forall|i: int| 0 <= i < rest.len() implies #[trigger] rest[i].0.payload_length
                == rest[i].1.len() by {
                assert(rest[i] == frames[i + 1]);
            }
        }
        assert(h.payload_length == p.len());
        lemma_drain_written_frames(rest, tail);
        let after = frames_bytes(rest) + tail;
        assert(frames_bytes(frames) + tail =~= frame_bytes(h, p) + after);
        lemma_drain_one_frame(h, p, after);
        assert(frames_items(frames) =~= seq![StreamItemView::Frame(h, p)] + frames_items(rest));
    }
}

/// No item reports a missing magic number.
pub open spec fn no_invalid_magic(items: Seq<StreamItemView>) -> bool {
    forall|i: int| 0 <= i < items.len() ==> !(#[trigger] items[i] is InvalidMagic)
}

/// Reading the stream in two parts yields what reading it at once yields: the items of the
/// first part, then the items of what stayed buffered followed by the second part. This holds
/// whenever the first part hits no missing magic number (which empties the buffer).
pub proof fn lemma_drain_in_parts(a: Seq<u8>, b: Seq<u8>)
    requires
        no_invalid_magic(spec_drain(a).0),
    ensures
        spec_drain(a + b) == (
            spec_drain(a).0 + spec_drain(spec_drain(a).1 + b).0,
            spec_drain(spec_drain(a).1 + b).1,
        ),
    decreases a.len(),
{
    reveal(spec_drain);
    let ab = a + b;
    if a.len() < HEADER_SIZE {
        assert(spec_drain(a).0 + spec_drain(a + b).0 =~= spec_drain(a + b).0);
    } else {
        assert(ab.subrange(0, 4) =~= a.subrange(0, 4));
        if a.subrange(0, 4) != magic_bytes() {
            assert(spec_drain(a).0[0] is InvalidMagic);
        } else {
            assert(read_be32(ab, 12) == read_be32(a, 12));
            let len = read_be32(a, 12) as int;
            if a.len() < HEADER_SIZE + len {
                assert(spec_drain(a).0 + spec_drain(a + b).0 =~= spec_drain(a + b).0);
            } else {
                assert(ab.subrange(0, HEADER_SIZE as int) =~= a.subrange(0, HEADER_SIZE as int));
                lemma_decode_prefix(ab, a);
                match spec_decode_header(a) {
                    Err(e) => {
                        let a2 = a.subrange(HEADER_SIZE as int, a.len() as int);
                        assert(ab.subrange(HEADER_SIZE as int, ab.len() as int) =~= a2 + b);
                        let r = spec_drain(a2);
                        assert(spec_drain(a).0 == seq![StreamItemView::BadHeader(e)] + r.0);
                        assert(no_invalid_magic(r.0)) by {
                            assert forall|i: int| 0 <= i < r.0.len() implies !(
                            #[trigger] r.0[i] is InvalidMagic) by {
                                assert(r.0[i] == spec_drain(a).0[i + 1]);
                            }
                        }
                        lemma_drain_in_parts(a2, b);
                        assert(spec_drain(ab).0 =~= spec_drain(a).0 + spec_drain(
                            spec_drain(a).1 + b,
                        ).0);
                    },
                    Ok(h) => {
                        let a2 = a.subrange(HEADER_SIZE + len, a.len() as int);
                        assert(ab.subrange(HEADER_SIZE + len, ab.len() as int) =~= a2 + b);
                        assert(ab.subrange(HEADER_SIZE as int, HEADER_SIZE + len) =~= a.subrange(
                            HEADER_SIZE as int,
                            HEADER_SIZE + len,
                        ));
                        let r = spec_drain(a2);
                        assert(spec_drain(a).0 == seq![
                            StreamItemView::Frame(
                                h,
                                a.subrange(HEADER_SIZE as int, HEADER_SIZE + len),
                            ),
                        ] + r.0);
                        assert(no_invalid_magic(r.0)) by {
                            assert forall|i: int| 0 <= i < r.0.len() implies !(
                            #[trigger] r.0[i] is InvalidMagic) by {
                                assert(r.0[i] == spec_drain(a).0[i + 1]);
                            }
                        }
                        lemma_drain_in_parts(a2, b);
                        assert(spec_drain(ab).0 =~= spec_drain(a).0 + spec_drain(
                            spec_drain(a).1 + b,
                        ).0);
                    },
                }
            }
        }
    }
}

// ============================================================================
// Frame Processing
// ============================================================================

/// The events a received frame produces, in order: the raw frame; then, for an EVENT frame
/// whose payload parses, the event and the message; for a PUBLISH frame whose payload parses,
/// the message; for an ACK, the acknowledged id; for a PONG, a pong; for an ERROR frame, a
/// server error with the payload as lossy UTF-8 text; nothing more for any other frame.
pub open spec fn spec_frame_events(h: Header, p: Seq<u8>) -> Seq<EventView> {
    let raw = seq![EventView::Frame(h, p)];
    match h.frame_type {
        FrameType::Event => match spec_parse_message(h, p) {
            Some(m) => raw + seq![EventView::Event(m), EventView::Message(m)],
            None => raw,
        },
        FrameType::Publish => match spec_parse_message(h, p) {
            Some(m) => raw + seq![EventView::Message(m)],
            None => raw,
        },
        FrameType::Ack => raw + seq![EventView::Ack(h.msg_id)],
        FrameType::Pong => raw + seq![EventView::Pong],
        FrameType::Error => raw + seq![EventView::Error(ErrorView::ServerError(lossy_text(p)))],
        _ => raw,
    }
}

/// The events that a received frame produces.
pub fn process_frame(header: Header, payload: Vec<u8>) -> (events: Vec<ClientEvent>)
    ensures
        events_view(events@) == spec_frame_events(header, payload@),
{
    let mut events: Vec<ClientEvent> = Vec::new();
    let raw = copy_range(payload.as_slice(), 0, payload.len());
    assert(raw@ =~= payload@);
    events.push(ClientEvent::Frame(header, raw));
    match header.frame_type {
        FrameType::Event => {
            if let Some(msg) = parse_message(&header, payload.as_slice()) {
                events.push(ClientEvent::Event(msg.clone()));
                events.push(ClientEvent::Message(msg));
            }
        },
        FrameType::Publish => {
            if let Some(msg) = parse_message(&header, payload.as_slice()) {
                events.push(ClientEvent::Message(msg));
            }
        },
        FrameType::Ack => {
            events.push(ClientEvent::Ack(header.msg_id));
        },
        FrameType::Pong => {
            events.push(ClientEvent::Pong);
        },
        FrameType::Error => {
            let text = lossy_string(payload.as_slice());
            events.push(ClientEvent::Error(MIPError::ServerError(text)));
        },
        _ => {},
    }
    assert(events_view(events@) =~= spec_frame_events(header, payload@));
    events
}

/// The events a stream item produces: a frame's events; a missing magic number as an
/// `InvalidMagic` error; an undecodable header as a `Protocol` error with its text.
pub open spec fn spec_item_events(item: StreamItemView) -> Seq<EventView> {
    match item {
        StreamItemView::Frame(h, p) => spec_frame_events(h, p),
        StreamItemView::InvalidMagic(m) => seq![EventView::Error(ErrorView::InvalidMagic(m))],
        StreamItemView::BadHeader(e) => seq![
            EventView::Error(ErrorView::Protocol(header_error_text(e))),
        ],
    }
}

/// The events of a sequence of stream items, one item after the other.
pub open spec fn spec_items_events(items: Seq<StreamItemView>) -> Seq<EventView>
    decreases items.len(),
{
    if items.len() == 0 {
        seq![]
    } else {
        spec_items_events(items.drop_last()) + spec_item_events(items.last())
    }
}

/// The events that one stream item produces.
pub fn item_events(item: &StreamItem) -> (events: Vec<ClientEvent>)
    ensures
        events_view(events@) == spec_item_events(item@),
{
    match item {
        StreamItem::Frame(header, payload) => {
            let p = copy_range(payload.as_slice(), 0, payload.len());
            assert(p@ =~= payload@);
            process_frame(*header, p)
        },
        StreamItem::InvalidMagic(m) => {
            let mut events: Vec<ClientEvent> = Vec::new();
            events.push(ClientEvent::Error(MIPError::InvalidMagic(*m)));
            assert(events_view(events@) =~= spec_item_events(item@));
            events
        },
        StreamItem::BadHeader(e) => {
            let mut events: Vec<ClientEvent> = Vec::new();
            events.push(ClientEvent::Error(MIPError::Protocol(e.describe())));
            assert(events_view(events@) =~= spec_item_events(item@));
            events
        },
    }
}

/// Takes the complete frames off the front of the receive buffer and returns the events they
/// produce, in order; what is not yet a complete frame stays buffered.
pub fn handle_data(buffer: &mut Vec<u8>) -> (events: Vec<ClientEvent>)
    ensures
        events_view(events@) == spec_items_events(spec_drain(old(buffer)@).0),
        final(buffer)@ == spec_drain(old(buffer)@).1,
{
    let items = drain_frames(buffer);
    let ghost iv = items_view(items@);
    let mut events: Vec<ClientEvent> = Vec::new();
    let mut i: usize = 0;
    assert(iv.take(0) =~= Seq::<StreamItemView>::empty());
    assert(events_view(events@) =~= Seq::<EventView>::empty());
    while i < items.len()
        invariant
            i <= items@.len(),
            iv == items_view(items@),
            events_view(events@) == spec_items_events(iv.take(i as int)),
        decreases items@.len() - i,
    {
        let mut more = item_events(&items[i]);
        let ghost before = events@;
        let ghost added = more@;
        events.append(&mut more);
        proof {
            assert(iv.take(i + 1).drop_last() =~= iv.take(i as int));
            assert(iv.take(i + 1).last() == items@[i as int]@);
            assert(events_view(events@) =~= events_view(before) + events_view(added));
        }
        i += 1;
    }
    assert(iv.take(items@.len() as int) =~= iv);
    events
}

/// The events reported when reading from the connection fails: an I/O error with the
/// failure's text.
pub fn read_error_events(error_text: String) -> (events: Vec<ClientEvent>)
    ensures
        events_view(events@) == seq![EventView::Error(ErrorView::Io(error_text@))],
{
    let mut events: Vec<ClientEvent> = Vec::new();
    events.push(ClientEvent::Error(MIPError::Io(error_text)));
    assert(events_view(events@) =~= seq![EventView::Error(ErrorView::Io(error_text@))]);
    events
}

/// The events of two item sequences, one after the other, are the events of each in turn.
pub proof fn lemma_items_events_append(x: Seq<StreamItemView>, y: Seq<StreamItemView>)
    ensures
        spec_items_events(x + y) == spec_items_events(x) + spec_items_events(y),
    decreases y.len(),
{
    if y.len() == 0 {
        assert(x + y =~= x);
        assert(spec_items_events(x) + spec_items_events(y) =~= spec_items_events(x));
    } else {
        lemma_items_events_append(x, y.drop_last());
        assert((x + y).drop_last() =~= x + y.drop_last());
        assert((x + y).last() == y.last());
        assert(spec_items_events(x + y) =~= spec_items_events(x) + spec_items_events(y));
    }
}

/// Any prefix of a stream of frames written one after the other hits no missing magic number.
pub proof fn lemma_prefix_of_frames_no_invalid_magic(frames: Seq<(Header, Seq<u8>)>, k: int)
    requires
        lengths_match(frames),
        0 <= k <= frames_bytes(frames).len(),
    ensures
        no_invalid_magic(spec_drain(frames_bytes(frames).subrange(0, k)).0),
    decreases frames.len(),
{
    reveal(spec_drain);
    let s = frames_bytes(frames);
    let a = s.subrange(0, k);
    if k < HEADER_SIZE || frames.len() == 0 {
        if frames.len() == 0 {
            assert(a.len() == 0);
        }
        assert(spec_drain(a).0 =~= Seq::<StreamItemView>::empty());
    } else {
        let h = frames[0].0;
        let p = frames[0].1;
        let rest = frames.drop_first();
        assert(lengths_match(rest)) by {
            assert forall|i: int| 0 <= i < rest.len() implies #[trigger] rest[i].0.payload_length
                == rest[i].1.len() by {
                assert(rest[i] == frames[i + 1]);
            }
        }
        assert(h.payload_length == p.len());
        let hb = header_bytes(h);
        assert(s =~= hb + (p + frames_bytes(rest)));
        assert(a.subrange(0, HEADER_SIZE as int) =~= hb);
        assert(a.subrange(0, 4) =~= magic_bytes());
        lemma_decode_encoded_header(h, Seq::<u8>::empty());
        assert(hb + Seq::<u8>::empty() =~= hb);
        assert(hb.subrange(0, HEADER_SIZE as int) =~= hb);
        lemma_decode_prefix(a, hb);
        let len = p.len() as int;
        assert(read_be32(a, 12) == h.payload_length);
        if k < HEADER_SIZE + len {
            assert(spec_drain(a).0 =~= Seq::<StreamItemView>::empty());
        } else {
            let k2 = k - HEADER_SIZE - len;
            assert(a.subrange(HEADER_SIZE + len, a.len() as int) =~= frames_bytes(rest).subrange(
                0,
                k2,
            ));
            lemma_prefix_of_frames_no_invalid_magic(rest, k2);
            let r = spec_drain(frames_bytes(rest).subrange(0, k2));
            assert(spec_drain(a).0 == seq![
                StreamItemView::Frame(h, a.subrange(HEADER_SIZE as int, HEADER_SIZE + len)),
            ] + r.0);
            assert forall|i: int| 0 <= i < spec_drain(a).0.len() implies !(
            #[trigger] spec_drain(a).0[i] is InvalidMagic) by {
                if i > 0 {
                    assert(spec_drain(a).0[i] == r.0[i - 1]);
                }
            }
        }
    }
}

/// A stream of frames written one after the other, received in two reads split at any
/// point, yields exactly those frames and their events, in order, each once, and leaves
/// nothing buffered, as when it is received in one read.
pub proof fn lemma_frames_split_anywhere(frames: Seq<(Header, Seq<u8>)>, k: int)
    requires
        lengths_match(frames),
        0 <= k <= frames_bytes(frames).len(),
    ensures
        ({
            let s = frames_bytes(frames);
            let first = spec_drain(s.subrange(0, k));
            let second = spec_drain(first.1 + s.subrange(k, s.len() as int));
            &&& first.0 + second.0 == frames_items(frames)
            &&& second.1 == Seq::<u8>::empty()
            &&& spec_items_events(first.0) + spec_items_events(second.0) == spec_items_events(
                frames_items(frames),
            )
            &&& spec_drain(s) == (frames_items(frames), Seq::<u8>::empty())
        }),
{
    let s = frames_bytes(frames);
    let a = s.subrange(0, k);
    let b = s.subrange(k, s.len() as int);
    assert(a + b =~= s);
    lemma_prefix_of_frames_no_invalid_magic(frames, k);
    lemma_drain_in_parts(a, b);
    lemma_drain_written_frames(frames, Seq::<u8>::empty());
    assert(s + Seq::<u8>::empty() =~= s);
    let first = spec_drain(a);
    let second = spec_drain(first.1 + b);
    lemma_items_events_append(first.0, second.0);
}

/// An outgoing frame is its 24-byte header followed by the payload; the header decodes to
/// the requested frame type and flags, the current version (1), the event message kind (1),
/// the payload's length and the message id.
pub proof fn lemma_outgoing_frame_fields(
    frame_type: FrameType,
    payload: Seq<u8>,
    flags: FrameFlags,
    msg_id: u64,
)
    ensures
        ({
            let f = outgoing_frame(frame_type, payload, flags, msg_id);
            &&& f.len() == 24 + payload.len()
            &&& f.subrange(24, f.len() as int) == payload
            &&& f[5] == flags.bits
            &&& spec_decode_header(f) == Ok::<Header, HeaderError>(
                Header {
                    version: 1u8,
                    flags,
                    frame_type,
                    message_kind: 1u16,
                    payload_length: payload.len() as u32,
                    msg_id,
                },
            )
        }),
{
    let h = spec_build_header(frame_type, payload.len() as u32, flags, msg_id);
    let f = outgoing_frame(frame_type, payload, flags, msg_id);
    lemma_decode_encoded_header(h, payload);
    assert(f.subrange(24, f.len() as int) =~= payload);
    assert(f[5] == header_bytes(h)[5]);
}

/// What each kind of received frame reports: always the raw frame first and only there; a
/// pong only for a PONG frame; an acknowledgement, of the frame's own id, only for an ACK
/// frame; a server error, with the payload's text, only for an ERROR frame; an event only for
/// an EVENT frame and a message only for an EVENT or PUBLISH frame, exactly when the payload
/// parses; nothing beyond the raw frame for HELLO, SUBSCRIBE, UNSUBSCRIBE, PING and CLOSE; and
/// never a connection event.
pub proof fn lemma_frame_events_by_type(h: Header, p: Seq<u8>)
    ensures
        ({
            let e = spec_frame_events(h, p);
            let ft = h.frame_type;
            &&& e.len() >= 1
            &&& e[0] == EventView::Frame(h, p)
            &&& forall|i: int| 1 <= i < e.len() ==> !(#[trigger] e[i] is Frame)
            &&& forall|i: int| 0 <= i < e.len() ==> !(#[trigger] e[i] is Connect) && !(
            e[i] is Disconnect) && !(e[i] is Reconnecting)
            &&& forall|i: int| 0 <= i < e.len() && #[trigger] e[i] is Pong ==> ft == FrameType::Pong
            &&& ft == FrameType::Pong ==> e == seq![EventView::Frame(h, p), EventView::Pong]
            &&& forall|i: int| 0 <= i < e.len() && #[trigger] e[i] is Ack ==> ft == FrameType::Ack
                && e[i] == EventView::Ack(h.msg_id)
            &&& ft == FrameType::Ack ==> e == seq![EventView::Frame(h, p), EventView::Ack(h.msg_id)]
            &&& forall|i: int| 0 <= i < e.len() && #[trigger] e[i] is Error ==> ft
                == FrameType::Error
            &&& ft == FrameType::Error ==> e == seq![
                EventView::Frame(h, p),
                EventView::Error(ErrorView::ServerError(lossy_text(p))),
            ]
            &&& forall|i: int| 0 <= i < e.len() && #[trigger] e[i] is Event ==> ft
                == FrameType::Event
            &&& forall|i: int| 0 <= i < e.len() && #[trigger] e[i] is Message ==> (ft
                == FrameType::Event || ft == FrameType::Publish)
            &&& (ft == FrameType::Hello || ft == FrameType::Subscribe || ft
                == FrameType::Unsubscribe || ft == FrameType::Ping || ft == FrameType::Close)
                ==> e == seq![EventView::Frame(h, p)]
            &&& ft == FrameType::Publish ==> match spec_parse_message(h, p) {
                Some(m) => e == seq![EventView::Frame(h, p), EventView::Message(m)],
                None => e == seq![EventView::Frame(h, p)],
            }
            &&& ft == FrameType::Event ==> match spec_parse_message(h, p) {
                Some(m) => e == seq![EventView::Frame(h, p), EventView::Event(m), EventView::Message(m)],
                None => e == seq![EventView::Frame(h, p)],
            }
        }),
{
    let e = spec_frame_events(h, p);
    match h.frame_type {
        FrameType::Event => {
            match spec_parse_message(h, p) {
                Some(m) => {
                    assert(e =~= seq![
                        EventView::Frame(h, p),
                        EventView::Event(m),
                        EventView::Message(m),
                    ]);
                },
                None => {
                    assert(e =~= seq![EventView::Frame(h, p)]);
                },
            }
        },
        FrameType::Publish => {
            match spec_parse_message(h, p) {
                Some(m) => {
                    assert(e =~= seq![EventView::Frame(h, p), EventView::Message(m)]);
                },
                None => {
                    assert(e =~= seq![EventView::Frame(h, p)]);
                },
            }
        },
        FrameType::Ack => {
            assert(e =~= seq![EventView::Frame(h, p), EventView::Ack(h.msg_id)]);
        },
        FrameType::Pong => {
            assert(e =~= seq![EventView::Frame(h, p), EventView::Pong]);
        },
        FrameType::Error => {
            assert(e =~= seq![
                EventView::Frame(h, p),
                EventView::Error(ErrorView::ServerError(lossy_text(p))),
            ]);
        },
        _ => {
            assert(e =~= seq![EventView::Frame(h, p)]);
        },
    }
}

/// The layout of a PUBLISH payload: when the topic's length fits in 16 bits, the first two
/// bytes give it big-endian, then come the topic's bytes, then the message's bytes.
pub proof fn lemma_publish_payload_layout(topic: Seq<u8>, message: Seq<u8>)
    requires
        topic.len() <= u16::MAX,
    ensures
        ({
            let p = publish_payload(topic, message);
            &&& p.len() == 2 + topic.len() + message.len()
            &&& p[0] * 256 + p[1] == topic.len()
            &&& p.subrange(2, 2 + topic.len() as int) == topic
            &&& p.subrange(2 + topic.len() as int, p.len() as int) == message
        }),
{
    let p = publish_payload(topic, message);
    let n = topic.len() as int;
    assert(p.subrange(0, 2) =~= be16(n as u16));
    lemma_read_be16(p, 0, n as u16);
    crate::protocol::header::lemma_read_be16_value(p, 0);
    assert(p.subrange(2, 2 + n) =~= topic);
    assert(p.subrange(2 + n, p.len() as int) =~= message);
}

/// When a PUBLISH or EVENT payload parses, and what it gives: it needs the two length bytes
/// and at least as many bytes after them as they say; the topic is the text of those bytes
/// and the message the text of the rest.
pub proof fn lemma_parse_message_layout(h: Header, p: Seq<u8>)
    ensures
        spec_parse_message(h, p) is Some <==> (p.len() >= 2 && p.len() >= 2 + p[0] * 256 + p[1]),
        spec_parse_message(h, p) matches Some(m) ==> ({
            let n = p[0] * 256 + p[1];
            &&& m.header == h
            &&& m.topic == lossy_text(p.subrange(2, 2 + n))
            &&& m.message == lossy_text(p.subrange(2 + n, p.len() as int))
        }),
{
    if p.len() >= 2 {
        crate::protocol::header::lemma_read_be16_value(p, 0);
    }
}

} // verus!
