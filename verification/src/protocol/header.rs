//! The fixed 24-byte frame header and its big-endian encoding.
//!
//! Layout (all multi-byte fields big-endian):
//!
//! | offset | size | field          |
//! |--------|------|----------------|
//! | 0      | 4    | magic `"MSIP"` |
//! | 4      | 1    | version        |
//! | 5      | 1    | flags          |
//! | 6      | 2    | frame type     |
//! | 8      | 2    | message kind   |
//! | 10     | 2    | reserved (0)   |
//! | 12     | 4    | payload length |
//! | 16     | 8    | message id     |
use vstd::prelude::*;
use vstd::string::*;

use crate::text::{decimal, decimal_string};

verus! {

/// Size in bytes of a frame header.
pub const HEADER_SIZE: usize = 24;

/// The magic number `"MSIP"` read as a big-endian `u32`.
pub const MSIP_MAGIC: u32 = 0x4D53_4950;

/// Protocol version written into every header this library builds.
pub const MSIP_VERSION: u8 = 1;

/// Message kind written into the headers the client sends.
pub const MSG_KIND_EVENT: u16 = 1;

// ---------------------------------------------------------------------------
// Big-endian integers
// ---------------------------------------------------------------------------

/// Big-endian bytes of a `u16`.
pub open spec fn be16(v: u16) -> Seq<u8> {
    seq![(v >> 8u16) as u8, (v & 0xffu16) as u8]
}

/// Big-endian bytes of a `u32`.
pub open spec fn be32(v: u32) -> Seq<u8> {
    seq![(v >> 24u32) as u8, (v >> 16u32) as u8, (v >> 8u32) as u8, (v & 0xffu32) as u8]
}

/// Big-endian bytes of a `u64`.
pub open spec fn be64(v: u64) -> Seq<u8> {
    seq![
        (v >> 56u64) as u8,
        (v >> 48u64) as u8,
        (v >> 40u64) as u8,
        (v >> 32u64) as u8,
        (v >> 24u64) as u8,
        (v >> 16u64) as u8,
        (v >> 8u64) as u8,
        (v & 0xffu64) as u8,
    ]
}

/// The `u16` stored big-endian at `s[i..i + 2]`.
pub open spec fn read_be16(s: Seq<u8>, i: int) -> u16 {
    ((s[i] as u16) << 8u16) | (s[i + 1] as u16)
}

/// The `u32` stored big-endian at `s[i..i + 4]`.
pub open spec fn read_be32(s: Seq<u8>, i: int) -> u32 {
    ((s[i] as u32) << 24u32) | ((s[i + 1] as u32) << 16u32) | ((s[i + 2] as u32) << 8u32) | (s[i
        + 3] as u32)
}

/// The `u64` stored big-endian at `s[i..i + 8]`.
pub open spec fn read_be64(s: Seq<u8>, i: int) -> u64 {
    ((s[i] as u64) << 56u64) | ((s[i + 1] as u64) << 48u64) | ((s[i + 2] as u64) << 40u64) | ((s[i
        + 3] as u64) << 32u64) | ((s[i + 4] as u64) << 24u64) | ((s[i + 5] as u64) << 16u64) | ((s[i
        + 6] as u64) << 8u64) | (s[i + 7] as u64)
}

proof fn lemma_u16_bytes(v: u16)
    ensures
        ((((v >> 8u16) as u8) as u16) << 8u16) | (((v & 0xffu16) as u8) as u16) == v,
{
    assert(((((v >> 8u16) as u8) as u16) << 8u16) | (((v & 0xffu16) as u8) as u16) == v)
        by (bit_vector);
}

proof fn lemma_u32_bytes(v: u32)
    ensures
        ((((v >> 24u32) as u8) as u32) << 24u32) | ((((v >> 16u32) as u8) as u32) << 16u32) | ((((v
            >> 8u32) as u8) as u32) << 8u32) | (((v & 0xffu32) as u8) as u32) == v,
{
    assert(((((v >> 24u32) as u8) as u32) << 24u32) | ((((v >> 16u32) as u8) as u32) << 16u32) | ((((
    v >> 8u32) as u8) as u32) << 8u32) | (((v & 0xffu32) as u8) as u32) == v) by (bit_vector);
}

proof fn lemma_u64_bytes(v: u64)
    ensures
        ((((v >> 56u64) as u8) as u64) << 56u64) | ((((v >> 48u64) as u8) as u64) << 48u64) | ((((v
            >> 40u64) as u8) as u64) << 40u64) | ((((v >> 32u64) as u8) as u64) << 32u64) | ((((v
            >> 24u64) as u8) as u64) << 24u64) | ((((v >> 16u64) as u8) as u64) << 16u64) | ((((v
            >> 8u64) as u8) as u64) << 8u64) | (((v & 0xffu64) as u8) as u64) == v,
{
    assert(((((v >> 56u64) as u8) as u64) << 56u64) | ((((v >> 48u64) as u8) as u64) << 48u64) | ((((
    v >> 40u64) as u8) as u64) << 40u64) | ((((v >> 32u64) as u8) as u64) << 32u64) | ((((v
        >> 24u64) as u8) as u64) << 24u64) | ((((v >> 16u64) as u8) as u64) << 16u64) | ((((v
        >> 8u64) as u8) as u64) << 8u64) | (((v & 0xffu64) as u8) as u64) == v) by (bit_vector);
}

/// Reading back the big-endian bytes of a `u16` gives the `u16`.
pub proof fn lemma_read_be16(s: Seq<u8>, i: int, v: u16)
    requires
        0 <= i,
        i + 2 <= s.len(),
        s.subrange(i, i + 2) == be16(v),
    ensures
        read_be16(s, i) == v,
{
    assert(s[i] == be16(v)[0] && s[i + 1] == be16(v)[1]);
    lemma_u16_bytes(v);
}

/// Reading back the big-endian bytes of a `u32` gives the `u32`.
pub proof fn lemma_read_be32(s: Seq<u8>, i: int, v: u32)
    requires
        0 <= i,
        i + 4 <= s.len(),
        s.subrange(i, i + 4) == be32(v),
    ensures
        read_be32(s, i) == v,
{
    assert(s[i] == be32(v)[0] && s[i + 1] == be32(v)[1] && s[i + 2] == be32(v)[2] && s[i + 3]
        == be32(v)[3]);
    lemma_u32_bytes(v);
}

/// Reading back the big-endian bytes of a `u64` gives the `u64`.
pub proof fn lemma_read_be64(s: Seq<u8>, i: int, v: u64)
    requires
        0 <= i,
        i + 8 <= s.len(),
        s.subrange(i, i + 8) == be64(v),
    ensures
        read_be64(s, i) == v,
{
    assert(s[i] == be64(v)[0] && s[i + 1] == be64(v)[1] && s[i + 2] == be64(v)[2] && s[i + 3]
        == be64(v)[3] && s[i + 4] == be64(v)[4] && s[i + 5] == be64(v)[5] && s[i + 6] == be64(
        v,
    )[6] && s[i + 7] == be64(v)[7]);
    lemma_u64_bytes(v);
}


// ---------------------------------------------------------------------------
// Flags
// ---------------------------------------------------------------------------

/// Frame flags: a set of bits, kept as received.
#[derive(Clone, Copy, Debug, PartialEq, Eq, Structural)]
pub struct FrameFlags {
    pub bits: u8,
}

impl FrameFlags {
    /// The empty flag set.
    pub open spec fn spec_none() -> FrameFlags {
        FrameFlags { bits: 0 }
    }

    /// No flags.
    pub fn none() -> (f: FrameFlags)
        ensures
            f == FrameFlags::spec_none(),
    {
        FrameFlags { bits: 0 }
    }

    /// The receiver is asked to acknowledge the frame.
    pub fn ack_required() -> (f: FrameFlags)
        ensures
            f.bits == 1,
    {
        FrameFlags { bits: 1 }
    }

    /// The payload is compressed.
    pub fn compressed() -> (f: FrameFlags)
        ensures
            f.bits == 2,
    {
        FrameFlags { bits: 2 }
    }

    /// The message is urgent.
    pub fn urgent() -> (f: FrameFlags)
        ensures
            f.bits == 4,
    {
        FrameFlags { bits: 4 }
    }

    /// The flags with exactly the given bits.
    pub fn from_bits(bits: u8) -> (f: FrameFlags)
        ensures
            f.bits == bits,
    {
        FrameFlags { bits }
    }

    /// The raw bits.
    pub fn bits(&self) -> (b: u8)
        ensures
            b == self.bits,
    {
        self.bits
    }

    /// The flags set in either `self` or `other`.
    pub fn union(self, other: FrameFlags) -> (f: FrameFlags)
        ensures
            f.bits == self.bits | other.bits,
    {
        FrameFlags { bits: self.bits | other.bits }
    }

    /// Whether every flag of `other` is set in `self`.
    pub fn contains(&self, other: FrameFlags) -> (r: bool)
        ensures
            r == (self.bits & other.bits == other.bits),
    {
        self.bits & other.bits == other.bits
    }
}

// ---------------------------------------------------------------------------
// Frame types
// ---------------------------------------------------------------------------

/// The type of a frame.
#[derive(Clone, Copy, Debug, PartialEq, Eq, Structural)]
pub enum FrameType {
    Hello,
    Subscribe,
    Unsubscribe,
    Publish,
    Event,
    Ack,
    Error,
    Ping,
    Pong,
    Close,
}

impl FrameType {
    /// The wire code of a frame type.
    pub open spec fn spec_code(self) -> u16 {
        match self {
            FrameType::Hello => 0x0001,
            FrameType::Subscribe => 0x0002,
            FrameType::Unsubscribe => 0x0003,
            FrameType::Publish => 0x0004,
            FrameType::Event => 0x0005,
            FrameType::Ack => 0x0006,
            FrameType::Error => 0x0007,
            FrameType::Ping => 0x0008,
            FrameType::Pong => 0x0009,
            FrameType::Close => 0x000A,
        }
    }

    /// The frame type with a given wire code, if there is one.
    pub open spec fn spec_from_code(code: u16) -> Option<FrameType> {
        if code == 0x0001 {
            Some(FrameType::Hello)
        } else if code == 0x0002 {
            Some(FrameType::Subscribe)
        } else if code == 0x0003 {
            Some(FrameType::Unsubscribe)
        } else if code == 0x0004 {
            Some(FrameType::Publish)
        } else if code == 0x0005 {
            Some(FrameType::Event)
        } else if code == 0x0006 {
            Some(FrameType::Ack)
        } else if code == 0x0007 {
            Some(FrameType::Error)
        } else if code == 0x0008 {
            Some(FrameType::Ping)
        } else if code == 0x0009 {
            Some(FrameType::Pong)
        } else if code == 0x000A {
            Some(FrameType::Close)
        } else {
            None
        }
    }

    /// The wire code of this frame type.
    pub fn code(&self) -> (c: u16)
        ensures
            c == self.spec_code(),
    {
        match self {
            FrameType::Hello => 0x0001,
            FrameType::Subscribe => 0x0002,
            FrameType::Unsubscribe => 0x0003,
            FrameType::Publish => 0x0004,
            FrameType::Event => 0x0005,
            FrameType::Ack => 0x0006,
            FrameType::Error => 0x0007,
            FrameType::Ping => 0x0008,
            FrameType::Pong => 0x0009,
            FrameType::Close => 0x000A,
        }
    }

    /// The frame type with the given wire code, or `None` for an unknown code.
    pub fn from_code(code: u16) -> (r: Option<FrameType>)
        ensures
            r == FrameType::spec_from_code(code),
    {
        if code == 0x0001 {
            Some(FrameType::Hello)
        } else if code == 0x0002 {
            Some(FrameType::Subscribe)
        } else if code == 0x0003 {
            Some(FrameType::Unsubscribe)
        } else if code == 0x0004 {
            Some(FrameType::Publish)
        } else if code == 0x0005 {
            Some(FrameType::Event)
        } else if code == 0x0006 {
            Some(FrameType::Ack)
        } else if code == 0x0007 {
            Some(FrameType::Error)
        } else if code == 0x0008 {
            Some(FrameType::Ping)
        } else if code == 0x0009 {
            Some(FrameType::Pong)
        } else if code == 0x000A {
            Some(FrameType::Close)
        } else {
            None
        }
    }
}

/// Decoding a frame type's code gives the frame type back.
pub proof fn lemma_frame_type_code(ft: FrameType)
    ensures
        FrameType::spec_from_code(ft.spec_code()) == Some(ft),
{
}

// ---------------------------------------------------------------------------
// Header
// ---------------------------------------------------------------------------

/// A decoded frame header.
#[derive(Clone, Copy, Debug, PartialEq, Eq, Structural)]
pub struct Header {
    pub version: u8,
    pub flags: FrameFlags,
    pub frame_type: FrameType,
    pub message_kind: u16,
    pub payload_length: u32,
    pub msg_id: u64,
}

/// Why a header could not be decoded.
#[derive(Clone, Copy, Debug, PartialEq, Eq, Structural)]
pub enum HeaderError {
    /// Fewer than [`HEADER_SIZE`] bytes were given.
    Truncated,
    /// The first four bytes are not `"MSIP"`; carries them as a big-endian `u32`.
    InvalidMagic(u32),
    /// The frame type code is not one of the known frame types.
    UnknownFrameType(u16),
}

/// The four magic bytes `"MSIP"`.
pub open spec fn magic_bytes() -> Seq<u8> {
    seq![0x4Du8, 0x53u8, 0x49u8, 0x50u8]
}

/// The 24 bytes that encode a header.
pub open spec fn header_bytes(h: Header) -> Seq<u8> {
    magic_bytes() + seq![h.version, h.flags.bits] + be16(h.frame_type.spec_code()) + be16(
        h.message_kind,
    ) + seq![0u8, 0u8] + be32(h.payload_length) + be64(h.msg_id)
}

/// What decoding the first [`HEADER_SIZE`] bytes of `s` gives.
pub open spec fn spec_decode_header(s: Seq<u8>) -> Result<Header, HeaderError> {
    if s.len() < HEADER_SIZE {
        Err(HeaderError::Truncated)
    } else if s.subrange(0, 4) != magic_bytes() {
        Err(HeaderError::InvalidMagic(read_be32(s, 0)))
    } else {
        match FrameType::spec_from_code(read_be16(s, 6)) {
            None => Err(HeaderError::UnknownFrameType(read_be16(s, 6))),
            Some(ft) => Ok(
                Header {
                    version: s[4],
                    flags: FrameFlags { bits: s[5] },
                    frame_type: ft,
                    message_kind: read_be16(s, 8),
                    payload_length: read_be32(s, 12),
                    msg_id: read_be64(s, 16),
                },
            ),
        }
    }
}

fn push_be16(out: &mut Vec<u8>, v: u16)
    ensures
        final(out)@ == old(out)@ + be16(v),
{
    out.push((v >> 8u16) as u8);
    out.push((v & 0xffu16) as u8);
}

fn push_be32(out: &mut Vec<u8>, v: u32)
    ensures
        final(out)@ == old(out)@ + be32(v),
{
    out.push((v >> 24u32) as u8);
    out.push((v >> 16u32) as u8);
    out.push((v >> 8u32) as u8);
    out.push((v & 0xffu32) as u8);
}

fn push_be64(out: &mut Vec<u8>, v: u64)
    ensures
        final(out)@ == old(out)@ + be64(v),
{
    out.push((v >> 56u64) as u8);
    out.push((v >> 48u64) as u8);
    out.push((v >> 40u64) as u8);
    out.push((v >> 32u64) as u8);
    out.push((v >> 24u64) as u8);
    out.push((v >> 16u64) as u8);
    out.push((v >> 8u64) as u8);
    out.push((v & 0xffu64) as u8);
}

fn get_be16(s: &[u8], i: usize) -> (v: u16)
    requires
        i + 2 <= s@.len(),
    ensures
        v == read_be16(s@, i as int),
{
    ((s[i] as u16) << 8u16) | (s[i + 1] as u16)
}

/// The big-endian `u32` at `s[i..i + 4]`.
pub fn get_be32(s: &[u8], i: usize) -> (v: u32)
    requires
        i + 4 <= s@.len(),
    ensures
        v == read_be32(s@, i as int),
{
    ((s[i] as u32) << 24u32) | ((s[i + 1] as u32) << 16u32) | ((s[i + 2] as u32) << 8u32) | (s[i
        + 3] as u32)
}

fn get_be64(s: &[u8], i: usize) -> (v: u64)
    requires
        i + 8 <= s@.len(),
    ensures
        v == read_be64(s@, i as int),
{
    ((s[i] as u64) << 56u64) | ((s[i + 1] as u64) << 48u64) | ((s[i + 2] as u64) << 40u64) | ((s[i
        + 3] as u64) << 32u64) | ((s[i + 4] as u64) << 24u64) | ((s[i + 5] as u64) << 16u64) | ((s[i
        + 6] as u64) << 8u64) | (s[i + 7] as u64)
}

impl Header {
    /// A header of the current protocol version.
    pub fn new(
        frame_type: FrameType,
        message_kind: u16,
        payload_length: u32,
        msg_id: u64,
        flags: FrameFlags,
    ) -> (h: Header)
        ensures
            h == (Header {
                version: MSIP_VERSION,
                flags,
                frame_type,
                message_kind,
                payload_length,
                msg_id,
            }),
    {
        Header { version: MSIP_VERSION, flags, frame_type, message_kind, payload_length, msg_id }
    }

    /// The 24 bytes that encode this header.
    pub fn encode(&self) -> (bytes: Vec<u8>)
        ensures
            bytes@ == header_bytes(*self),
            bytes@.len() == HEADER_SIZE,
    {
        let mut out: Vec<u8> = Vec::with_capacity(HEADER_SIZE);
        out.push(0x4Du8);
        out.push(0x53u8);
        out.push(0x49u8);
        out.push(0x50u8);
        out.push(self.version);
        out.push(self.flags.bits);
        push_be16(&mut out, self.frame_type.code());
        push_be16(&mut out, self.message_kind);
        out.push(0u8);
        out.push(0u8);
        push_be32(&mut out, self.payload_length);
        push_be64(&mut out, self.msg_id);
        assert(out@ =~= header_bytes(*self));
        out
    }

    /// Decodes the header in the first [`HEADER_SIZE`] bytes of `bytes`.
    pub fn decode(bytes: &[u8]) -> (r: Result<Header, HeaderError>)
        ensures
            r == spec_decode_header(bytes@),
    {
        if bytes.len() < HEADER_SIZE {
            return Err(HeaderError::Truncated);
        }
        if !(bytes[0] == 0x4Du8 && bytes[1] == 0x53u8 && bytes[2] == 0x49u8 && bytes[3] == 0x50u8) {
            assert(bytes@.subrange(0, 4)[0] == bytes@[0]);
            assert(bytes@.subrange(0, 4)[1] == bytes@[1]);
            assert(bytes@.subrange(0, 4)[2] == bytes@[2]);
            assert(bytes@.subrange(0, 4)[3] == bytes@[3]);
            return Err(HeaderError::InvalidMagic(get_be32(bytes, 0)));
        }
        assert(bytes@.subrange(0, 4) =~= magic_bytes());
        let code = get_be16(bytes, 6);
        match FrameType::from_code(code) {
            None => Err(HeaderError::UnknownFrameType(code)),
            Some(frame_type) => Ok(
                Header {
                    version: bytes[4],
                    flags: FrameFlags { bits: bytes[5] },
                    frame_type,
                    message_kind: get_be16(bytes, 8),
                    payload_length: get_be32(bytes, 12),
                    msg_id: get_be64(bytes, 16),
                },
            ),
        }
    }
}

/// Decoding the bytes of an encoded header, whatever follows them, gives the header back.
pub proof fn lemma_decode_encoded_header(h: Header, rest: Seq<u8>)
    ensures
        spec_decode_header(header_bytes(h) + rest) == Ok::<Header, HeaderError>(h),
{
    let s = header_bytes(h) + rest;
    let hb = header_bytes(h);
    assert(hb.len() == 24);
    assert(s.subrange(0, 4) =~= magic_bytes());
    assert(s.subrange(6, 8) =~= be16(h.frame_type.spec_code()));
    assert(s.subrange(8, 10) =~= be16(h.message_kind));
    assert(s.subrange(12, 16) =~= be32(h.payload_length));
    assert(s.subrange(16, 24) =~= be64(h.msg_id));
    lemma_read_be16(s, 6, h.frame_type.spec_code());
    lemma_read_be16(s, 8, h.message_kind);
    lemma_read_be32(s, 12, h.payload_length);
    lemma_read_be64(s, 16, h.msg_id);
    lemma_frame_type_code(h.frame_type);
}

proof fn lemma_bytes_u16(a: u8, b: u8)
    ensures
        be16(((a as u16) << 8u16) | (b as u16)) == seq![a, b],
{
    let v = ((a as u16) << 8u16) | (b as u16);
    assert((v >> 8u16) as u8 == a && (v & 0xffu16) as u8 == b) by (bit_vector)
        requires
            v == ((a as u16) << 8u16) | (b as u16),
    ;
    assert(be16(v) =~= seq![a, b]);
}

proof fn lemma_bytes_u32(a: u8, b: u8, c: u8, d: u8)
    ensures
        be32(((a as u32) << 24u32) | ((b as u32) << 16u32) | ((c as u32) << 8u32) | (d as u32))
            == seq![a, b, c, d],
{
    let v = ((a as u32) << 24u32) | ((b as u32) << 16u32) | ((c as u32) << 8u32) | (d as u32);
    assert((v >> 24u32) as u8 == a && (v >> 16u32) as u8 == b && (v >> 8u32) as u8 == c && (v
        & 0xffu32) as u8 == d) by (bit_vector)
        requires
            v == ((a as u32) << 24u32) | ((b as u32) << 16u32) | ((c as u32) << 8u32) | (d as u32),
    ;
    assert(be32(v) =~= seq![a, b, c, d]);
}

proof fn lemma_bytes_u64(a: u8, b: u8, c: u8, d: u8, e: u8, f: u8, g: u8, h: u8)
    ensures
        be64(
            ((a as u64) << 56u64) | ((b as u64) << 48u64) | ((c as u64) << 40u64) | ((d as u64)
                << 32u64) | ((e as u64) << 24u64) | ((f as u64) << 16u64) | ((g as u64) << 8u64) | (h
                as u64),
        ) == seq![a, b, c, d, e, f, g, h],
{
    let v = ((a as u64) << 56u64) | ((b as u64) << 48u64) | ((c as u64) << 40u64) | ((d as u64)
        << 32u64) | ((e as u64) << 24u64) | ((f as u64) << 16u64) | ((g as u64) << 8u64) | (h as u64);
    assert((v >> 56u64) as u8 == a && (v >> 48u64) as u8 == b && (v >> 40u64) as u8 == c && (v
        >> 32u64) as u8 == d && (v >> 24u64) as u8 == e && (v >> 16u64) as u8 == f && (v >> 8u64)
        as u8 == g && (v & 0xffu64) as u8 == h) by (bit_vector)
        requires
            v == ((a as u64) << 56u64) | ((b as u64) << 48u64) | ((c as u64) << 40u64) | ((d as u64)
                << 32u64) | ((e as u64) << 24u64) | ((f as u64) << 16u64) | ((g as u64) << 8u64) | (h
                as u64),
    ;
    assert(be64(v) =~= seq![a, b, c, d, e, f, g, h]);
}

/// Encoding a decoded header gives back the bytes it was decoded from, with the reserved
/// bytes (offsets 10 and 11) written as zero.
pub proof fn lemma_encode_decoded_header(s: Seq<u8>)
    requires
        spec_decode_header(s) is Ok,
    ensures
        header_bytes(spec_decode_header(s)->Ok_0) == s.subrange(0, 10) + seq![0u8, 0u8]
            + s.subrange(12, 24),
{
    let h = spec_decode_header(s)->Ok_0;
    lemma_bytes_u16(s[6], s[7]);
    lemma_bytes_u16(s[8], s[9]);
    lemma_bytes_u32(s[12], s[13], s[14], s[15]);
    lemma_bytes_u64(s[16], s[17], s[18], s[19], s[20], s[21], s[22], s[23]);
    let code = read_be16(s, 6);
    assert(h.frame_type.spec_code() == code);
    assert(s.subrange(0, 4)[0] == s[0] && s.subrange(0, 4)[1] == s[1] && s.subrange(0, 4)[2]
        == s[2] && s.subrange(0, 4)[3] == s[3]);
    assert(header_bytes(h) =~= s.subrange(0, 10) + seq![0u8, 0u8] + s.subrange(12, 24));
}

/// The human-readable text of a header error.
pub open spec fn header_error_text(e: HeaderError) -> Seq<char> {
    match e {
        HeaderError::Truncated => "header shorter than 24 bytes"@,
        HeaderError::InvalidMagic(m) => "invalid magic number: "@ + decimal(m as nat),
        HeaderError::UnknownFrameType(c) => "unknown frame type: "@ + decimal(c as nat),
    }
}

impl HeaderError {
    /// The human-readable text of this error.
    pub fn describe(&self) -> (text: String)
        ensures
            text@ == header_error_text(*self),
    {
        match self {
            HeaderError::Truncated => String::from_str("header shorter than 24 bytes"),
            HeaderError::InvalidMagic(m) => {
                let digits = decimal_string(*m as u64);
                String::from_str("invalid magic number: ").concat(digits.as_str())
            },
            HeaderError::UnknownFrameType(c) => {
                let digits = decimal_string(*c as u64);
                String::from_str("unknown frame type: ").concat(digits.as_str())
            },
        }
    }
}

// ---------------------------------------------------------------------------
// The header layout, byte by byte
// ---------------------------------------------------------------------------

proof fn lemma_be16_value(a: u8, b: u8)
    ensures
        ((a as u16) << 8u16) | (b as u16) == (a as u16) * 256 + (b as u16),
{
    assert(((a as u16) << 8u16) | (b as u16) == (a as u16) * 256 + (b as u16)) by (bit_vector);
}

proof fn lemma_be32_value(a: u8, b: u8, c: u8, d: u8)
    ensures
        ((a as u32) << 24u32) | ((b as u32) << 16u32) | ((c as u32) << 8u32) | (d as u32) == (a
            as u32) * 16777216 + (b as u32) * 65536 + (c as u32) * 256 + (d as u32),
{
    assert(((a as u32) << 24u32) | ((b as u32) << 16u32) | ((c as u32) << 8u32) | (d as u32) == (a
        as u32) * 16777216 + (b as u32) * 65536 + (c as u32) * 256 + (d as u32)) by (bit_vector);
}

proof fn lemma_be64_value(a: u8, b: u8, c: u8, d: u8, e: u8, f: u8, g: u8, h: u8)
    ensures
        ((a as u64) << 56u64) | ((b as u64) << 48u64) | ((c as u64) << 40u64) | ((d as u64)
            << 32u64) | ((e as u64) << 24u64) | ((f as u64) << 16u64) | ((g as u64) << 8u64) | (h
            as u64) == (a as u64) * 72057594037927936 + (b as u64) * 281474976710656 + (c as u64)
            * 1099511627776 + (d as u64) * 4294967296 + (e as u64) * 16777216 + (f as u64) * 65536
            + (g as u64) * 256 + (h as u64),
{
    assert(((a as u64) << 56u64) | ((b as u64) << 48u64) | ((c as u64) << 40u64) | ((d as u64)
        << 32u64) | ((e as u64) << 24u64) | ((f as u64) << 16u64) | ((g as u64) << 8u64) | (h
        as u64) == (a as u64) * 72057594037927936 + (b as u64) * 281474976710656 + (c as u64)
        * 1099511627776 + (d as u64) * 4294967296 + (e as u64) * 16777216 + (f as u64) * 65536 + (g
        as u64) * 256 + (h as u64)) by (bit_vector);
}

/// The value of the big-endian `u16` at offset `i`.
pub proof fn lemma_read_be16_value(s: Seq<u8>, i: int)
    requires
        0 <= i,
        i + 2 <= s.len(),
    ensures
        read_be16(s, i) == s[i] * 256 + s[i + 1],
{
    lemma_be16_value(s[i], s[i + 1]);
}

/// The value of the big-endian `u32` at offset `i`.
pub proof fn lemma_read_be32_value(s: Seq<u8>, i: int)
    requires
        0 <= i,
        i + 4 <= s.len(),
    ensures
        read_be32(s, i) == s[i] * 16777216 + s[i + 1] * 65536 + s[i + 2] * 256 + s[i + 3],
{
    lemma_be32_value(s[i], s[i + 1], s[i + 2], s[i + 3]);
}

/// The value of the big-endian `u64` at offset `i`.
pub proof fn lemma_read_be64_value(s: Seq<u8>, i: int)
    requires
        0 <= i,
        i + 8 <= s.len(),
    ensures
        read_be64(s, i) == s[i] * 72057594037927936 + s[i + 1] * 281474976710656 + s[i + 2]
            * 1099511627776 + s[i + 3] * 4294967296 + s[i + 4] * 16777216 + s[i + 5] * 65536 + s[i
            + 6] * 256 + s[i + 7],
{
    lemma_be64_value(s[i], s[i + 1], s[i + 2], s[i + 3], s[i + 4], s[i + 5], s[i + 6], s[i + 7]);
}

/// What a decoded header says of the bytes it came from: they start with `"MSIP"`; the
/// version and flags are bytes 4 and 5; bytes 6-7 hold the frame type's code (HELLO 0x0001,
/// SUBSCRIBE 0x0002, UNSUBSCRIBE 0x0003, PUBLISH 0x0004, EVENT 0x0005, ACK 0x0006,
/// ERROR 0x0007, PING 0x0008, PONG 0x0009, CLOSE 0x000A); the message kind, payload length
/// and message id are the big-endian numbers at offsets 8, 12 and 16.
pub proof fn lemma_decoded_header_fields(s: Seq<u8>)
    requires
        spec_decode_header(s) is Ok,
    ensures
        ({
            let h = spec_decode_header(s)->Ok_0;
            &&& s.len() >= 24
            &&& s[0] == 0x4D && s[1] == 0x53 && s[2] == 0x49 && s[3] == 0x50
            &&& h.version == s[4]
            &&& h.flags.bits == s[5]
            &&& s[6] == 0
            &&& (h.frame_type == FrameType::Hello <==> s[7] == 0x01)
            &&& (h.frame_type == FrameType::Subscribe <==> s[7] == 0x02)
            &&& (h.frame_type == FrameType::Unsubscribe <==> s[7] == 0x03)
            &&& (h.frame_type == FrameType::Publish <==> s[7] == 0x04)
            &&& (h.frame_type == FrameType::Event <==> s[7] == 0x05)
            &&& (h.frame_type == FrameType::Ack <==> s[7] == 0x06)
            &&& (h.frame_type == FrameType::Error <==> s[7] == 0x07)
            &&& (h.frame_type == FrameType::Ping <==> s[7] == 0x08)
            &&& (h.frame_type == FrameType::Pong <==> s[7] == 0x09)
            &&& (h.frame_type == FrameType::Close <==> s[7] == 0x0A)
            &&& h.message_kind == s[8] * 256 + s[9]
            &&& h.payload_length == s[12] * 16777216 + s[13] * 65536 + s[14] * 256 + s[15]
            &&& h.msg_id == s[16] * 72057594037927936 + s[17] * 281474976710656 + s[18]
                * 1099511627776 + s[19] * 4294967296 + s[20] * 16777216 + s[21] * 65536 + s[22]
                * 256 + s[23]
        }),
{
    assert(s.subrange(0, 4)[0] == s[0] && s.subrange(0, 4)[1] == s[1] && s.subrange(0, 4)[2]
        == s[2] && s.subrange(0, 4)[3] == s[3]);
    lemma_read_be16_value(s, 6);
    lemma_read_be16_value(s, 8);
    lemma_read_be32_value(s, 12);
    lemma_read_be64_value(s, 16);
}

/// When decoding fails, and why: fewer than 24 bytes; else a first four bytes other than
/// `"MSIP"` (reported as their big-endian value); else a frame type code outside 1..=10
/// (reported as its value). Otherwise decoding succeeds.
pub proof fn lemma_decode_errors(s: Seq<u8>)
    ensures
        s.len() < 24 <==> spec_decode_header(s) == Err::<Header, HeaderError>(
            HeaderError::Truncated,
        ),
        s.len() >= 24 && !(s[0] == 0x4D && s[1] == 0x53 && s[2] == 0x49 && s[3] == 0x50)
            ==> spec_decode_header(s) == Err::<Header, HeaderError>(
            HeaderError::InvalidMagic(
                (s[0] * 16777216 + s[1] * 65536 + s[2] * 256 + s[3]) as u32,
            ),
        ),
        s.len() >= 24 && (s[0] == 0x4D && s[1] == 0x53 && s[2] == 0x49 && s[3] == 0x50) && !(s[6]
            == 0 && 1 <= s[7] <= 10) ==> spec_decode_header(s) == Err::<Header, HeaderError>(
            HeaderError::UnknownFrameType((s[6] * 256 + s[7]) as u16),
        ),
        s.len() >= 24 && (s[0] == 0x4D && s[1] == 0x53 && s[2] == 0x49 && s[3] == 0x50) && (s[6]
            == 0 && 1 <= s[7] <= 10) ==> spec_decode_header(s) is Ok,
{
    if s.len() >= 24 {
        assert(s.subrange(0, 4)[0] == s[0] && s.subrange(0, 4)[1] == s[1] && s.subrange(0, 4)[2]
            == s[2] && s.subrange(0, 4)[3] == s[3]);
        if s[0] == 0x4D && s[1] == 0x53 && s[2] == 0x49 && s[3] == 0x50 {
            assert(s.subrange(0, 4) =~= magic_bytes());
        }
        lemma_read_be32_value(s, 0);
        lemma_read_be16_value(s, 6);
    }
}

/// The 24 bytes of an encoded header: `"MSIP"`, the version, the flags, the frame type's code
/// (HELLO 0x0001 ... CLOSE 0x000A), the message kind, two zero bytes, the payload length and
/// the message id, all big-endian.
pub proof fn lemma_header_bytes_layout(h: Header)
    ensures
        ({
            let b = header_bytes(h);
            &&& b.len() == 24
            &&& b[0] == 0x4D && b[1] == 0x53 && b[2] == 0x49 && b[3] == 0x50
            &&& b[4] == h.version
            &&& b[5] == h.flags.bits
            &&& b[6] == 0
            &&& (h.frame_type == FrameType::Hello ==> b[7] == 0x01)
            &&& (h.frame_type == FrameType::Subscribe ==> b[7] == 0x02)
            &&& (h.frame_type == FrameType::Unsubscribe ==> b[7] == 0x03)
            &&& (h.frame_type == FrameType::Publish ==> b[7] == 0x04)
            &&& (h.frame_type == FrameType::Event ==> b[7] == 0x05)
            &&& (h.frame_type == FrameType::Ack ==> b[7] == 0x06)
            &&& (h.frame_type == FrameType::Error ==> b[7] == 0x07)
            &&& (h.frame_type == FrameType::Ping ==> b[7] == 0x08)
            &&& (h.frame_type == FrameType::Pong ==> b[7] == 0x09)
            &&& (h.frame_type == FrameType::Close ==> b[7] == 0x0A)
            &&& b[8] * 256 + b[9] == h.message_kind
            &&& b[10] == 0 && b[11] == 0
            &&& b[12] * 16777216 + b[13] * 65536 + b[14] * 256 + b[15] == h.payload_length
            &&& b[16] * 72057594037927936 + b[17] * 281474976710656 + b[18] * 1099511627776 + b[19]
                * 4294967296 + b[20] * 16777216 + b[21] * 65536 + b[22] * 256 + b[23] == h.msg_id
        }),
{
    let b = header_bytes(h);
    lemma_decode_encoded_header(h, Seq::<u8>::empty());
    assert(b + Seq::<u8>::empty() =~= b);
    lemma_decoded_header_fields(b);
}

} // verus!
