//! Wire format of the control messages exchanged between server and client.
//!
//! A message is a 32-bit little-endian variant tag followed by the fields of
//! the variant, each a fixed-width little-endian integer. A colour channel
//! travels as the 32-bit pattern of its IEEE-754 single-precision value; a
//! player id travels as 64 bits. Bytes after a complete message are ignored
//! by the decoder.

use vstd::prelude::*;

verus! {

/// An RGB colour. Each channel holds the bit pattern of a single-precision
/// float, so that a colour can be carried and compared exactly.
#[derive(Clone, Copy, Debug, PartialEq, Eq, Structural)]
pub struct Color {
    pub r: u32,
    pub g: u32,
    pub b: u32,
}

/// Control message of the join protocol.
#[derive(Clone, Copy, Debug, PartialEq, Eq, Structural)]
pub enum Packet {
    /// A client asks to join and names its colour.
    Join(Color),
    /// The server announces the id given to a new player.
    Joined(usize),
    /// The server announces that the simulation starts.
    GameStarted,
    /// Reserved control message without content.
    Control,
}

/// Tag of `Packet::Join` on the wire.
pub const TAG_JOIN: u32 = 0;

/// Tag of `Packet::Joined` on the wire.
pub const TAG_JOINED: u32 = 1;

/// Tag of `Packet::GameStarted` on the wire.
pub const TAG_GAME_STARTED: u32 = 2;

/// Tag of `Packet::Control` on the wire.
pub const TAG_CONTROL: u32 = 3;

/// The four bytes of `x`, least significant first.
pub open spec fn u32_le(x: u32) -> Seq<u8> {
    seq![
        (x % 256) as u8,
        (x / 256 % 256) as u8,
        (x / 65536 % 256) as u8,
        (x / 16777216) as u8,
    ]
}

/// The eight bytes of `x`, least significant first.
pub open spec fn u64_le(x: u64) -> Seq<u8> {
    u32_le((x % 4294967296) as u32) + u32_le((x / 4294967296) as u32)
}

/// The number whose little-endian bytes are `bytes[at..at + 4]`.
pub open spec fn u32_at(bytes: Seq<u8>, at: int) -> u32 {
    (bytes[at] as int + 256 * (bytes[at + 1] as int) + 65536 * (bytes[at + 2] as int) + 16777216
        * (bytes[at + 3] as int)) as u32
}

/// The number whose little-endian bytes are `bytes[at..at + 8]`.
pub open spec fn u64_at(bytes: Seq<u8>, at: int) -> u64 {
    (u32_at(bytes, at) as int + 4294967296 * (u32_at(bytes, at + 4) as int)) as u64
}

/// The bytes that stand for `packet` on the wire.
pub open spec fn encoding(packet: Packet) -> Seq<u8> {
    match packet {
        Packet::Join(color) => u32_le(TAG_JOIN) + u32_le(color.r) + u32_le(color.g) + u32_le(
            color.b,
        ),
        Packet::Joined(id) => u32_le(TAG_JOINED) + u64_le(id as u64),
        Packet::GameStarted => u32_le(TAG_GAME_STARTED),
        Packet::Control => u32_le(TAG_CONTROL),
    }
}

/// The message that `bytes` begin with, if they begin with one. A buffer
/// that is too short for its variant, an unknown tag, or an id that does not
/// fit the machine word reads as no message.
pub open spec fn decoding(bytes: Seq<u8>) -> Option<Packet> {
    if bytes.len() < 4 {
        None
    } else if u32_at(bytes, 0) == TAG_JOIN {
        if bytes.len() < 16 {
            None
        } else {
            Some(
                Packet::Join(
                    Color { r: u32_at(bytes, 4), g: u32_at(bytes, 8), b: u32_at(bytes, 12) },
                ),
            )
        }
    } else if u32_at(bytes, 0) == TAG_JOINED {
        if bytes.len() < 12 || u64_at(bytes, 4) > usize::MAX {
            None
        } else {
            Some(Packet::Joined(u64_at(bytes, 4) as usize))
        }
    } else if u32_at(bytes, 0) == TAG_GAME_STARTED {
        Some(Packet::GameStarted)
    } else if u32_at(bytes, 0) == TAG_CONTROL {
        Some(Packet::Control)
    } else {
        None
    }
}

/// Reading back four bytes written by `u32_le` gives the number written,
/// wherever in a buffer they stand.
pub proof fn lemma_u32_read_back(before: Seq<u8>, x: u32, after: Seq<u8>)
    ensures
        u32_le(x).len() == 4,
        u32_at(before + u32_le(x) + after, before.len() as int) == x,
{
    let all = before + u32_le(x) + after;
    let at = before.len() as int;
    assert(all[at] == u32_le(x)[0]);
    assert(all[at + 1] == u32_le(x)[1]);
    assert(all[at + 2] == u32_le(x)[2]);
    assert(all[at + 3] == u32_le(x)[3]);
}

/// Reading back eight bytes written by `u64_le` gives the number written.
pub proof fn lemma_u64_read_back(before: Seq<u8>, x: u64, after: Seq<u8>)
    ensures
        u64_le(x).len() == 8,
        u64_at(before + u64_le(x) + after, before.len() as int) == x,
{
    let low = (x % 4294967296) as u32;
    let high = (x / 4294967296) as u32;
    let all = before + u64_le(x) + after;
    lemma_u32_read_back(before, low, u32_le(high) + after);
    lemma_u32_read_back(before + u32_le(low), high, after);
    assert(all =~= before + u32_le(low) + (u32_le(high) + after));
    assert(all =~= (before + u32_le(low)) + u32_le(high) + after);
}

/// Writing the four bytes read at `at` gives those bytes again.
pub proof fn lemma_u32_write_back(bytes: Seq<u8>, at: int)
    requires
        0 <= at,
        at + 4 <= bytes.len(),
    ensures
        u32_le(u32_at(bytes, at)) == bytes.subrange(at, at + 4),
{
    lemma_digits(bytes[at], bytes[at + 1], bytes[at + 2], bytes[at + 3]);
    assert(u32_le(u32_at(bytes, at)) =~= bytes.subrange(at, at + 4));
}

/// Four base-256 digits are recovered from the number they spell.
proof fn lemma_digits(b0: u8, b1: u8, b2: u8, b3: u8)
    ensures
        ({
            let v = b0 as int + 256 * (b1 as int) + 65536 * (b2 as int) + 16777216 * (b3 as int);
            &&& 0 <= v <= u32::MAX
            &&& v % 256 == b0
            &&& v / 256 % 256 == b1
            &&& v / 65536 % 256 == b2
            &&& v / 16777216 == b3
        }),
{
    let v = b0 as int + 256 * (b1 as int) + 65536 * (b2 as int) + 16777216 * (b3 as int);
    let h1 = b1 as int + 256 * (b2 as int) + 65536 * (b3 as int);
    let h2 = b2 as int + 256 * (b3 as int);
    assert(v == 256 * h1 + b0);
    assert(v / 256 == h1 && v % 256 == b0);
    assert(h1 == 256 * h2 + b1);
    assert(h1 / 256 == h2 && h1 % 256 == b1);
    assert(v / 65536 == h2) by {
        assert(v == 65536 * h2 + (b0 as int + 256 * (b1 as int)));
    }
    assert(h2 / 256 == b3 as int && h2 % 256 == b2);
    assert(v / 16777216 == b3) by {
        assert(v == 16777216 * (b3 as int) + (b0 as int + 256 * (b1 as int) + 65536 * (b2 as int)));
    }
}

/// Writing the eight bytes read at `at` gives those bytes again.
pub proof fn lemma_u64_write_back(bytes: Seq<u8>, at: int)
    requires
        0 <= at,
        at + 8 <= bytes.len(),
    ensures
        u64_le(u64_at(bytes, at)) == bytes.subrange(at, at + 8),
{
    let low = u32_at(bytes, at);
    let high = u32_at(bytes, at + 4);
    lemma_halves(low, high);
    lemma_u32_write_back(bytes, at);
    lemma_u32_write_back(bytes, at + 4);
    assert(bytes.subrange(at, at + 4) + bytes.subrange(at + 4, at + 8) =~= bytes.subrange(
        at,
        at + 8,
    ));
}

/// Two base-2^32 digits are recovered from the number they spell.
proof fn lemma_halves(low: u32, high: u32)
    ensures
        ({
            let v = low as int + 4294967296 * (high as int);
            &&& 0 <= v <= u64::MAX
            &&& v % 4294967296 == low
            &&& v / 4294967296 == high
        }),
{
}

/// Appends the four little-endian bytes of `x`.
fn put_u32(out: &mut Vec<u8>, x: u32)
    ensures
        final(out)@ == old(out)@ + u32_le(x),
{
    out.push((x % 256) as u8);
    out.push((x / 256 % 256) as u8);
    out.push((x / 65536 % 256) as u8);
    out.push((x / 16777216) as u8);
    assert(out@ =~= old(out)@ + u32_le(x));
}

/// Appends the eight little-endian bytes of `x`.
fn put_u64(out: &mut Vec<u8>, x: u64)
    ensures
        final(out)@ == old(out)@ + u64_le(x),
{
    put_u32(out, (x % 4294967296) as u32);
    put_u32(out, (x / 4294967296) as u32);
    assert(out@ =~= old(out)@ + u64_le(x));
}

/// Reads the little-endian number held in the four bytes at `at`.
fn get_u32(bytes: &[u8], at: usize) -> (x: u32)
    requires
        at + 4 <= bytes@.len(),
    ensures
        x == u32_at(bytes@, at as int),
{
    let b0: u32 = bytes[at] as u32;
    let b1: u32 = bytes[at + 1] as u32;
    let b2: u32 = bytes[at + 2] as u32;
    let b3: u32 = bytes[at + 3] as u32;
    b0 + 256 * b1 + 65536 * b2 + 16777216 * b3
}

/// Reads the little-endian number held in the eight bytes at `at`.
fn get_u64(bytes: &[u8], at: usize) -> (x: u64)
    requires
        at + 8 <= bytes@.len(),
        at + 8 <= usize::MAX,
    ensures
        x == u64_at(bytes@, at as int),
{
    let low: u64 = get_u32(bytes, at) as u64;
    let high: u64 = get_u32(bytes, at + 4) as u64;
    low + 4294967296 * high
}

impl Packet {
    /// Number of bytes that this message takes on the wire.
    pub open spec fn wire_len(self) -> nat {
        match self {
            Packet::Join(_) => 16,
            Packet::Joined(_) => 12,
            Packet::GameStarted => 4,
            Packet::Control => 4,
        }
    }

    /// Serialises the message.
    pub fn encode(&self) -> (bytes: Vec<u8>)
        ensures
            bytes@ == encoding(*self),
    {
        let mut bytes: Vec<u8> = Vec::new();
        match self {
            Packet::Join(color) => {
                put_u32(&mut bytes, TAG_JOIN);
                put_u32(&mut bytes, color.r);
                put_u32(&mut bytes, color.g);
                put_u32(&mut bytes, color.b);
            },
            Packet::Joined(id) => {
                put_u32(&mut bytes, TAG_JOINED);
                put_u64(&mut bytes, *id as u64);
            },
            Packet::GameStarted => {
                put_u32(&mut bytes, TAG_GAME_STARTED);
            },
            Packet::Control => {
                put_u32(&mut bytes, TAG_CONTROL);
            },
        }
        assert(bytes@ =~= encoding(*self));
        bytes
    }

    /// Reads the message that `bytes` begin with. Returns `None` exactly
    /// when they begin with none.
    pub fn decode(bytes: &[u8]) -> (packet: Option<Packet>)
        ensures
            packet == decoding(bytes@),
    {
        if bytes.len() < 4 {
            return None;
        }
        let tag: u32 = get_u32(bytes, 0);
        if tag == TAG_JOIN {
            if bytes.len() < 16 {
                return None;
            }
            let r: u32 = get_u32(bytes, 4);
            let g: u32 = get_u32(bytes, 8);
            let b: u32 = get_u32(bytes, 12);
            Some(Packet::Join(Color { r, g, b }))
        } else if tag == TAG_JOINED {
            if bytes.len() < 12 {
                return None;
            }
            let id: u64 = get_u64(bytes, 4);
            if id > usize::MAX as u64 {
                None
            } else {
                Some(Packet::Joined(id as usize))
            }
        } else if tag == TAG_GAME_STARTED {
            Some(Packet::GameStarted)
        } else if tag == TAG_CONTROL {
            Some(Packet::Control)
        } else {
            None
        }
    }
}

/// A message takes as many bytes as its variant says.
pub proof fn lemma_encoding_len(packet: Packet)
    ensures
        encoding(packet).len() == packet.wire_len(),
{
}

/// Decoding what was encoded gives the message back, whatever bytes follow
/// it in the buffer.
pub proof fn lemma_decode_encode(packet: Packet, rest: Seq<u8>)
    ensures
        decoding(encoding(packet) + rest) == Some(packet),
{
    let empty = Seq::<u8>::empty();
    let all = encoding(packet) + rest;
    match packet {
        Packet::Join(color) => {
            let tail3 = u32_le(color.r) + u32_le(color.g) + u32_le(color.b) + rest;
            let tail2 = u32_le(color.g) + u32_le(color.b) + rest;
            let tail1 = u32_le(color.b) + rest;
            lemma_u32_read_back(empty, TAG_JOIN, tail3);
            lemma_u32_read_back(u32_le(TAG_JOIN), color.r, tail2);
            lemma_u32_read_back(u32_le(TAG_JOIN) + u32_le(color.r), color.g, tail1);
            lemma_u32_read_back(
                u32_le(TAG_JOIN) + u32_le(color.r) + u32_le(color.g),
                color.b,
                rest,
            );
            assert(all =~= empty + u32_le(TAG_JOIN) + tail3);
            assert(all =~= u32_le(TAG_JOIN) + u32_le(color.r) + tail2);
            assert(all =~= (u32_le(TAG_JOIN) + u32_le(color.r)) + u32_le(color.g) + tail1);
            assert(all =~= (u32_le(TAG_JOIN) + u32_le(color.r) + u32_le(color.g)) + u32_le(
                color.b,
            ) + rest);
        },
        Packet::Joined(id) => {
            lemma_u32_read_back(empty, TAG_JOINED, u64_le(id as u64) + rest);
            lemma_u64_read_back(u32_le(TAG_JOINED), id as u64, rest);
            assert(all =~= empty + u32_le(TAG_JOINED) + (u64_le(id as u64) + rest));
            assert(all =~= u32_le(TAG_JOINED) + u64_le(id as u64) + rest);
        },
        Packet::GameStarted => {
            lemma_u32_read_back(empty, TAG_GAME_STARTED, rest);
            assert(all =~= empty + u32_le(TAG_GAME_STARTED) + rest);
        },
        Packet::Control => {
            lemma_u32_read_back(empty, TAG_CONTROL, rest);
            assert(all =~= empty + u32_le(TAG_CONTROL) + rest);
        },
    }
}

/// A buffer that decodes begins with the encoding of the message read from
/// it: one message has one spelling.
pub proof fn lemma_encode_decode(bytes: Seq<u8>)
    requires
        decoding(bytes) is Some,
    ensures
        decoding(bytes).unwrap().wire_len() <= bytes.len(),
        encoding(decoding(bytes).unwrap()) == bytes.subrange(
            0,
            decoding(bytes).unwrap().wire_len() as int,
        ),
{
    let packet = decoding(bytes).unwrap();
    lemma_u32_write_back(bytes, 0);
    match packet {
        Packet::Join(color) => {
            lemma_u32_write_back(bytes, 4);
            lemma_u32_write_back(bytes, 8);
            lemma_u32_write_back(bytes, 12);
            assert(encoding(packet) =~= bytes.subrange(0, 16));
        },
        Packet::Joined(id) => {
            lemma_u64_write_back(bytes, 4);
            assert(encoding(packet) =~= bytes.subrange(0, 12));
        },
        Packet::GameStarted => {
            assert(encoding(packet) =~= bytes.subrange(0, 4));
        },
        Packet::Control => {
            assert(encoding(packet) =~= bytes.subrange(0, 4));
        },
    }
}

/// What follows a message in a buffer has no part in how the buffer reads.
pub proof fn lemma_decoding_ignores_what_follows(bytes: Seq<u8>, rest: Seq<u8>)
    requires
        decoding(bytes) is Some,
    ensures
        decoding(bytes + rest) == decoding(bytes),
{
    let packet = decoding(bytes).unwrap();
    let len = packet.wire_len() as int;
    lemma_encode_decode(bytes);
    lemma_decode_encode(packet, bytes.subrange(len, bytes.len() as int) + rest);
    assert(bytes + rest =~= encoding(packet) + (bytes.subrange(len, bytes.len() as int) + rest));
}

} // verus!
