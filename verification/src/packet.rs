//! The GVSP packet header and the Leader packet's payload: their byte-level
//! layout, a verified decoder for each, and an encoder with round-trip proofs.
//!
//! A datagram starts with a fixed five-byte prefix: a big-endian 16-bit
//! status, a big-endian 16-bit block id, and a format byte whose high bit
//! selects the extended-id layout and whose low three bits give the packet
//! role. Without the extended flag a 24-bit packet id follows (eight bytes of
//! header in all); with it, a 64-bit block id and a 32-bit packet id replace
//! the short ids (seventeen bytes in all).

use vstd::prelude::*;

verus! {

/// The three GVSP packet roles, plus a catch-all for format codes this
/// receiver does not understand (such packets are dropped, never fatal).
#[derive(Clone, Copy, PartialEq, Eq, Structural, Debug)]
pub enum PacketKind {
    Leader,
    Trailer,
    Generic,
    Unknown(u8),
}

/// Why a packet was rejected or dropped. Nothing here aborts the stream:
/// the reassembly engine's state survives every one of these, except that an
/// unsupported pixel format or an oversized frame leaves it awaiting a leader.
#[derive(Clone, Copy, PartialEq, Eq, Structural, Debug)]
pub enum ProtocolError {
    /// Too few bytes for the header layout, or a Generic packet id of zero,
    /// which the one-based numbering of payload chunks reserves.
    MalformedHeader,
    /// A Leader whose payload type is not the image payload type.
    UnexpectedPayloadType,
    /// A format byte whose low three bits name no known packet role.
    UnknownFormat(u8),
    /// A Leader declaring any pixel format but 8-bit Bayer RGGB.
    UnsupportedPixelFormat(u32),
    /// A Generic or Trailer packet for a frame that is not being accumulated.
    StaleOrMismatchedBlockId,
    /// A Leader whose resolution does not fit in this machine's address space.
    FrameTooLarge,
}

/// The decoded fixed part of a GVSP packet header.
#[derive(Clone, Copy, PartialEq, Eq, Structural, Debug)]
pub struct PacketHeader {
    /// Device-reported status code for this packet.
    pub status: u16,
    /// The frame this packet belongs to (16-bit unless extended).
    pub block_id: u64,
    /// Whether the extended-id layout (64-bit block id, 32-bit packet id)
    /// was used on the wire.
    pub extended: bool,
    /// The packet's role.
    pub packet_format: PacketKind,
    /// Sequence index of this packet within its frame; payload chunks count
    /// from one, zero is reserved for the leader.
    pub packet_id: u32,
}

/// The decoded payload of a Leader packet: the metadata that opens a frame.
#[derive(Clone, Copy, PartialEq, Eq, Structural, Debug)]
pub struct LeaderInfo {
    pub timestamp: u64,
    pub pixel_format: u32,
    pub width: u32,
    pub height: u32,
    pub offset_x: u32,
    pub offset_y: u32,
    pub padding_x: u16,
    pub padding_y: u16,
}

/// The pixel format code for 8-bit Bayer RGGB, the one format this
/// receiver reassembles.
pub const PIXEL_FORMAT_BAYER_RG8: u32 = 0x0108_0009;

/// The payload type code a Leader must declare: an image payload.
pub const PAYLOAD_TYPE_IMAGE: u16 = 1;

/// Big-endian 16-bit value at offset `i`.
pub open spec fn be16(d: Seq<u8>, i: int) -> int {
    d[i] * 256 + d[i + 1]
}

/// Big-endian 24-bit value at offset `i`.
pub open spec fn be24(d: Seq<u8>, i: int) -> int {
    d[i] * 0x1_0000 + d[i + 1] * 0x100 + d[i + 2]
}

/// Big-endian 32-bit value at offset `i`.
pub open spec fn be32(d: Seq<u8>, i: int) -> int {
    d[i] * 0x100_0000 + d[i + 1] * 0x1_0000 + d[i + 2] * 0x100 + d[i + 3]
}

/// Big-endian 64-bit value at offset `i`.
pub open spec fn be64(d: Seq<u8>, i: int) -> int {
    d[i] * 0x100_0000_0000_0000
        + d[i + 1] * 0x1_0000_0000_0000
        + d[i + 2] * 0x100_0000_0000
        + d[i + 3] * 0x1_0000_0000
        + d[i + 4] * 0x100_0000
        + d[i + 5] * 0x1_0000
        + d[i + 6] * 0x100
        + d[i + 7]
}

/// The packet role encoded by the low three bits of the format byte.
pub open spec fn kind_of_code(c: u8) -> PacketKind {
    if c == 1 {
        PacketKind::Leader
    } else if c == 2 {
        PacketKind::Trailer
    } else if c == 3 {
        PacketKind::Generic
    } else {
        PacketKind::Unknown(c)
    }
}

/// The three-bit code a packet role is written as.
pub open spec fn code_of_kind(k: PacketKind) -> int {
    match k {
        PacketKind::Leader => 1,
        PacketKind::Trailer => 2,
        PacketKind::Generic => 3,
        PacketKind::Unknown(c) => (c % 8) as int,
    }
}

/// What decoding a datagram's header yields: the header and the offset of
/// the first payload byte, or nothing if too few bytes are present.
pub open spec fn spec_parse_header(d: Seq<u8>) -> Option<(PacketHeader, int)> {
    if d.len() < 5 {
        None
    } else {
        let extended = d[4] >= 128;
        let kind = kind_of_code((d[4] % 8) as u8);
        if extended {
            if d.len() < 17 {
                None
            } else {
                Some((
                    PacketHeader {
                        status: be16(d, 0) as u16,
                        block_id: be64(d, 5) as u64,
                        extended: true,
                        packet_format: kind,
                        packet_id: be32(d, 13) as u32,
                    },
                    17,
                ))
            }
        } else {
            if d.len() < 8 {
                None
            } else {
                Some((
                    PacketHeader {
                        status: be16(d, 0) as u16,
                        block_id: be16(d, 2) as u64,
                        extended: false,
                        packet_format: kind,
                        packet_id: be24(d, 5) as u32,
                    },
                    8,
                ))
            }
        }
    }
}

/// What decoding a Leader payload (the bytes after the header) yields.
/// The layout is the GVSP image leader: two reserved bytes, the 16-bit
/// payload type, the 64-bit timestamp, then pixel format, width, height,
/// x/y offset (32 bits each) and x/y padding (16 bits each).
pub open spec fn spec_parse_leader(d: Seq<u8>) -> Result<LeaderInfo, ProtocolError> {
    if d.len() < 36 {
        Err(ProtocolError::MalformedHeader)
    } else if be16(d, 2) != PAYLOAD_TYPE_IMAGE {
        Err(ProtocolError::UnexpectedPayloadType)
    } else {
        Ok(LeaderInfo {
            timestamp: be64(d, 4) as u64,
            pixel_format: be32(d, 12) as u32,
            width: be32(d, 16) as u32,
            height: be32(d, 20) as u32,
            offset_x: be32(d, 24) as u32,
            offset_y: be32(d, 28) as u32,
            padding_x: be16(d, 32) as u16,
            padding_y: be16(d, 34) as u16,
        })
    }
}

fn read_be16(d: &[u8], i: usize) -> (r: u16)
    requires
        i + 2 <= d@.len(),
    ensures
        r == be16(d@, i as int),
{
    (d[i] as u16) * 0x100 + (d[i + 1] as u16)
}

fn read_be24(d: &[u8], i: usize) -> (r: u32)
    requires
        i + 3 <= d@.len(),
    ensures
        r == be24(d@, i as int),
{
    (d[i] as u32) * 0x1_0000 + (d[i + 1] as u32) * 0x100 + (d[i + 2] as u32)
}

fn read_be32(d: &[u8], i: usize) -> (r: u32)
    requires
        i + 4 <= d@.len(),
    ensures
        r == be32(d@, i as int),
{
    (d[i] as u32) * 0x100_0000 + (d[i + 1] as u32) * 0x1_0000 + (d[i + 2] as u32) * 0x100 + (d[i
        + 3] as u32)
}

fn read_be64(d: &[u8], i: usize) -> (r: u64)
    requires
        i + 8 <= d@.len(),
    ensures
        r == be64(d@, i as int),
{
    (d[i] as u64) * 0x100_0000_0000_0000 + (d[i + 1] as u64) * 0x1_0000_0000_0000 + (d[i
        + 2] as u64) * 0x100_0000_0000 + (d[i + 3] as u64) * 0x1_0000_0000 + (d[i
        + 4] as u64) * 0x100_0000 + (d[i + 5] as u64) * 0x1_0000 + (d[i + 6] as u64) * 0x100 + (d[i
        + 7] as u64)
}

/// Decode a datagram's header. Returns the header and the offset of the
/// first payload byte, or `MalformedHeader` if the datagram holds fewer
/// than the minimum header bytes for its layout.
pub fn parse_header(d: &[u8]) -> (r: Result<(PacketHeader, usize), ProtocolError>)
    ensures
        match r {
            Ok((h, off)) => spec_parse_header(d@) == Some((h, off as int)),
            Err(e) => spec_parse_header(d@) is None && e == ProtocolError::MalformedHeader,
        },
{
    if d.len() < 5 {
        return Err(ProtocolError::MalformedHeader);
    }
    let format_byte = d[4];
    let extended = format_byte >= 128;
    let code = format_byte % 8;
    let kind = if code == 1 {
        PacketKind::Leader
    } else if code == 2 {
        PacketKind::Trailer
    } else if code == 3 {
        PacketKind::Generic
    } else {
        PacketKind::Unknown(code)
    };
    let status = read_be16(d, 0);
    if extended {
        if d.len() < 17 {
            return Err(ProtocolError::MalformedHeader);
        }
        Ok((
            PacketHeader {
                status,
                block_id: read_be64(d, 5),
                extended: true,
                packet_format: kind,
                packet_id: read_be32(d, 13),
            },
            17,
        ))
    } else {
        if d.len() < 8 {
            return Err(ProtocolError::MalformedHeader);
        }
        Ok((
            PacketHeader {
                status,
                block_id: read_be16(d, 2) as u64,
                extended: false,
                packet_format: kind,
                packet_id: read_be24(d, 5),
            },
            8,
        ))
    }
}

/// The bytes a header is written as on the wire: the encoder's result and
/// the reference the round-trip proofs are stated against. The sixteen-bit
/// block id field carries the low sixteen bits of the block id; under the
/// extended layout the decoder ignores it in favour of the 64-bit field.
pub open spec fn spec_encode_header(h: PacketHeader) -> Seq<u8> {
    if h.extended {
        seq![
            (h.status / 0x100) as u8,
            (h.status % 0x100) as u8,
            ((h.block_id / 0x100) % 0x100) as u8,
            (h.block_id % 0x100) as u8,
            ((128 + code_of_kind(h.packet_format)) as u8),
            ((h.block_id / 0x100_0000_0000_0000) % 0x100) as u8,
            ((h.block_id / 0x1_0000_0000_0000) % 0x100) as u8,
            ((h.block_id / 0x100_0000_0000) % 0x100) as u8,
            ((h.block_id / 0x1_0000_0000) % 0x100) as u8,
            ((h.block_id / 0x100_0000) % 0x100) as u8,
            ((h.block_id / 0x1_0000) % 0x100) as u8,
            ((h.block_id / 0x100) % 0x100) as u8,
            (h.block_id % 0x100) as u8,
            ((h.packet_id / 0x100_0000) % 0x100) as u8,
            ((h.packet_id / 0x1_0000) % 0x100) as u8,
            ((h.packet_id / 0x100) % 0x100) as u8,
            (h.packet_id % 0x100) as u8,
        ]
    } else {
        seq![
            (h.status / 0x100) as u8,
            (h.status % 0x100) as u8,
            ((h.block_id / 0x100) % 0x100) as u8,
            (h.block_id % 0x100) as u8,
            (code_of_kind(h.packet_format) as u8),
            ((h.packet_id / 0x1_0000) % 0x100) as u8,
            ((h.packet_id / 0x100) % 0x100) as u8,
            (h.packet_id % 0x100) as u8,
        ]
    }
}

/// Write a header as its wire bytes: eight of them, or seventeen under the
/// extended layout. Without the extended flag the ids must fit their short
/// fields (sixteen bits of block id, twenty-four of packet id).
pub fn encode_header(h: &PacketHeader) -> (r: Vec<u8>)
    requires
        !h.extended ==> h.block_id < 0x1_0000 && h.packet_id < 0x100_0000,
    ensures
        r@ == spec_encode_header(*h),
{
    let mut r: Vec<u8> = Vec::new();
    r.push((h.status / 0x100) as u8);
    r.push((h.status % 0x100) as u8);
    r.push(((h.block_id / 0x100) % 0x100) as u8);
    r.push((h.block_id % 0x100) as u8);
    let code: u8 = match h.packet_format {
        PacketKind::Leader => 1,
        PacketKind::Trailer => 2,
        PacketKind::Generic => 3,
        PacketKind::Unknown(c) => c % 8,
    };
    if h.extended {
        r.push(128 + code);
        r.push(((h.block_id / 0x100_0000_0000_0000) % 0x100) as u8);
        r.push(((h.block_id / 0x1_0000_0000_0000) % 0x100) as u8);
        r.push(((h.block_id / 0x100_0000_0000) % 0x100) as u8);
        r.push(((h.block_id / 0x1_0000_0000) % 0x100) as u8);
        r.push(((h.block_id / 0x100_0000) % 0x100) as u8);
        r.push(((h.block_id / 0x1_0000) % 0x100) as u8);
        r.push(((h.block_id / 0x100) % 0x100) as u8);
        r.push((h.block_id % 0x100) as u8);
        r.push(((h.packet_id / 0x100_0000) % 0x100) as u8);
        r.push(((h.packet_id / 0x1_0000) % 0x100) as u8);
        r.push(((h.packet_id / 0x100) % 0x100) as u8);
        r.push((h.packet_id % 0x100) as u8);
        assert(r@ =~= spec_encode_header(*h));
    } else {
        r.push(code);
        r.push(((h.packet_id / 0x1_0000) % 0x100) as u8);
        r.push(((h.packet_id / 0x100) % 0x100) as u8);
        r.push((h.packet_id % 0x100) as u8);
        assert(r@ =~= spec_encode_header(*h));
    }
    r
}

/// Whether a packet role survives being written as its three-bit code and
/// read back: true of the three real roles, and of unknown codes that
/// already lie in the three-bit range and collide with no real role.
pub open spec fn kind_round_trips(k: PacketKind) -> bool {
    kind_of_code(code_of_kind(k) as u8) == k
}

proof fn lemma_u16_split(x: u16)
    by (bit_vector)
    ensures
        (x / 0x100) * 0x100 + x % 0x100 == x,
        x / 0x100 < 0x100,
{
}

proof fn lemma_u24_split(x: u32)
    by (bit_vector)
    requires
        x < 0x100_0000,
    ensures
        ((x / 0x1_0000) % 0x100) * 0x1_0000 + ((x / 0x100) % 0x100) * 0x100 + x % 0x100 == x,
{
}

proof fn lemma_u32_split(x: u32)
    by (bit_vector)
    ensures
        ((x / 0x100_0000) % 0x100) * 0x100_0000 + ((x / 0x1_0000) % 0x100) * 0x1_0000 + ((x
            / 0x100) % 0x100) * 0x100 + x % 0x100 == x,
{
}

proof fn lemma_u64_low16_split(x: u64)
    by (bit_vector)
    requires
        x < 0x1_0000,
    ensures
        ((x / 0x100) % 0x100) * 0x100 + x % 0x100 == x,
{
}

proof fn lemma_u64_split(x: u64)
    by (bit_vector)
    ensures
        ((x / 0x100_0000_0000_0000) % 0x100) * 0x100_0000_0000_0000 + ((x / 0x1_0000_0000_0000)
            % 0x100) * 0x1_0000_0000_0000 + ((x / 0x100_0000_0000) % 0x100) * 0x100_0000_0000 + ((x
            / 0x1_0000_0000) % 0x100) * 0x1_0000_0000 + ((x / 0x100_0000) % 0x100) * 0x100_0000 + ((
        x / 0x1_0000) % 0x100) * 0x1_0000 + ((x / 0x100) % 0x100) * 0x100 + x % 0x100 == x,
{
}

proof fn lemma_format_byte(code: u8, extended: bool)
    requires
        code < 8,
    ensures
        extended ==> (128 + code) as u8 >= 128 && ((128 + code) as u8) % 8 == code,
        !extended ==> code < 128 && code % 8 == code,
{
    assert(128 + code >= 128 && ((128 + code) as u8) % 8 == code && code % 8 == code)
        by (bit_vector)
        requires
            code < 8,
    ;
}

/// Header encoding round-trips: the bytes written for a header without the
/// extended flag decode to exactly that header again, with the payload
/// cursor after the eight header bytes.
pub proof fn lemma_header_round_trip(h: PacketHeader)
    requires
        !h.extended,
        h.block_id < 0x1_0000,
        h.packet_id < 0x100_0000,
        kind_round_trips(h.packet_format),
    ensures
        spec_parse_header(spec_encode_header(h)) == Some((h, 8int)),
{
    let d = spec_encode_header(h);
    let code = code_of_kind(h.packet_format) as u8;
    lemma_format_byte(code, false);
    lemma_u16_split(h.status);
    lemma_u64_low16_split(h.block_id);
    lemma_u24_split(h.packet_id);
    assert(be16(d, 0) == h.status);
    assert(be16(d, 2) == h.block_id);
    assert(be24(d, 5) == h.packet_id);
    assert(spec_parse_header(d) == Some((h, 8int)));
}

/// Header encoding round-trips under the extended layout as well: the
/// seventeen bytes written for an extended header decode to exactly that
/// header, 64-bit block id and 32-bit packet id included.
pub proof fn lemma_extended_header_round_trip(h: PacketHeader)
    requires
        h.extended,
        kind_round_trips(h.packet_format),
    ensures
        spec_parse_header(spec_encode_header(h)) == Some((h, 17int)),
{
    let d = spec_encode_header(h);
    let code = code_of_kind(h.packet_format) as u8;
    lemma_format_byte(code, true);
    lemma_u16_split(h.status);
    lemma_u64_split(h.block_id);
    lemma_u32_split(h.packet_id);
    assert(be16(d, 0) == h.status);
    assert(be64(d, 5) == h.block_id);
    assert(be32(d, 13) == h.packet_id);
    assert(spec_parse_header(d) == Some((h, 17int)));
}

/// Decode a Leader packet's payload, handed the bytes after the header.
/// A payload type other than the image payload type is a protocol
/// violation; the caller drops the packet without touching its state.
pub fn parse_leader(d: &[u8]) -> (r: Result<LeaderInfo, ProtocolError>)
    ensures
        r == spec_parse_leader(d@),
{
    if d.len() < 36 {
        return Err(ProtocolError::MalformedHeader);
    }
    if read_be16(d, 2) != PAYLOAD_TYPE_IMAGE {
        return Err(ProtocolError::UnexpectedPayloadType);
    }
    Ok(LeaderInfo {
        timestamp: read_be64(d, 4),
        pixel_format: read_be32(d, 12),
        width: read_be32(d, 16),
        height: read_be32(d, 20),
        offset_x: read_be32(d, 24),
        offset_y: read_be32(d, 28),
        padding_x: read_be16(d, 32),
        padding_y: read_be16(d, 34),
    })
}

} // verus!
