//! Stream packet-size negotiation: everything the negotiator decides, kept
//! apart from the sockets and the register channel that carry it out.
//!
//! One attempt writes the desired size into the stream channel's packet-size
//! register, reads the register back (the camera may clamp the size), and
//! waits for a probe listener's verdict on whether a datagram of that size
//! arrived. The caller performs the register access and the socket wait and
//! hands the outcomes back; this module encodes and decodes the register
//! value, assembles each attempt's result, and drives the bisection search
//! over sizes that the attempts steer.

use vstd::prelude::*;

use crate::packet::be16;

verus! {

/// Offset between consecutive stream channels' register blocks.
pub const STREAM_CHANNEL_STRIDE: u64 = 0x40;

/// Packet-size register of stream channel 0.
pub const SCPS_BASE: u64 = 0x0D04;

/// Destination-port register of stream channel 0.
pub const SCP_BASE: u64 = 0x0D00;

/// Destination-address register of stream channel 0.
pub const SCDA_BASE: u64 = 0x0D18;

/// Source-port readback register of stream channel 0.
pub const SCSP_BASE: u64 = 0x0D1C;

/// Message-channel destination-port register.
pub const MCP_ADDRESS: u64 = 0x0B00;

/// Message-channel destination-address register.
pub const MCDA_ADDRESS: u64 = 0x0B10;

/// Number-of-stream-channels register.
pub const STREAM_CHANNEL_COUNT_ADDRESS: u64 = 0x0900;

/// Number-of-message-channels register.
pub const MESSAGE_CHANNEL_COUNT_ADDRESS: u64 = 0x0904;

/// The packet-size register address of the given stream channel.
pub fn scps_address(channel: u16) -> (r: u64)
    ensures
        r == SCPS_BASE + STREAM_CHANNEL_STRIDE * channel,
{
    SCPS_BASE + STREAM_CHANNEL_STRIDE * (channel as u64)
}

/// The destination-port register address of the given stream channel.
pub fn scp_address(channel: u16) -> (r: u64)
    ensures
        r == SCP_BASE + STREAM_CHANNEL_STRIDE * channel,
{
    SCP_BASE + STREAM_CHANNEL_STRIDE * (channel as u64)
}

/// The destination-address register address of the given stream channel.
pub fn scda_address(channel: u16) -> (r: u64)
    ensures
        r == SCDA_BASE + STREAM_CHANNEL_STRIDE * channel,
{
    SCDA_BASE + STREAM_CHANNEL_STRIDE * (channel as u64)
}

/// The source-port readback register address of the given stream channel.
pub fn scsp_address(channel: u16) -> (r: u64)
    ensures
        r == SCSP_BASE + STREAM_CHANNEL_STRIDE * channel,
{
    SCSP_BASE + STREAM_CHANNEL_STRIDE * (channel as u64)
}

/// The four bytes a packet size is written to its register as: a reserved
/// flags byte, a zero byte, then the size big-endian.
pub open spec fn spec_packet_size_register(size: u16) -> Seq<u8> {
    seq![0u8, 0u8, (size / 0x100) as u8, (size % 0x100) as u8]
}

/// Encode a packet size as its register value.
pub fn encode_packet_size(size: u16) -> (r: [u8; 4])
    ensures
        r@ == spec_packet_size_register(size),
{
    let r: [u8; 4] = [0u8, 0u8, (size / 0x100) as u8, (size % 0x100) as u8];
    assert(r@ =~= spec_packet_size_register(size));
    r
}

/// Decode the packet size a register readback reports: the last two bytes,
/// big-endian. The camera may have clamped the written size, so this is the
/// size actually in force.
pub fn decode_packet_size(value: &[u8; 4]) -> (r: u16)
    ensures
        r == be16(value@, 2),
{
    (value[2] as u16) * 0x100 + (value[3] as u16)
}

/// A packet size's register value decodes back to the same size.
pub proof fn lemma_packet_size_round_trip(size: u16)
    ensures
        be16(spec_packet_size_register(size), 2) == size,
{
    assert((size / 0x100) * 0x100 + size % 0x100 == size) by (bit_vector);
}

/// One negotiation attempt's result: the size the camera accepted per the
/// register readback, and whether the probe listener saw a datagram within
/// its timeout. A missed probe is reported, not resolved: one lost datagram
/// is indistinguishable from a rejected size, so the caller decides.
pub fn attempt_outcome(readback: &[u8; 4], probe_received: bool) -> (r: (u16, bool))
    ensures
        r.0 == be16(readback@, 2),
        r.1 == probe_received,
{
    (decode_packet_size(readback), probe_received)
}

/// The bisection search for the largest workable packet size. Each round
/// probes the midpoint of the open range; a fully successful attempt (the
/// camera kept the requested size and the probe arrived) raises the lower
/// bound, anything else lowers the upper bound. The search tolerates
/// non-monotonic outcomes: whatever the attempts report, the range narrows
/// each round and the committed size is one that a successful attempt
/// confirmed, or the initial lower bound if none was.
pub struct MtuSearch {
    /// The largest size a fully successful attempt has confirmed.
    pub low: u16,
    /// The smallest size known or assumed unworkable, plus nothing: sizes
    /// strictly between the bounds are undecided.
    pub high: u16,
}

impl MtuSearch {
    /// The range still open: sizes above `low` and below `high` are
    /// undecided; `low` itself is the largest size confirmed so far.
    pub open spec fn wf(&self) -> bool {
        1 <= self.low <= self.high
    }

    /// Whether the search is finished: nothing lies strictly between the
    /// bounds any more.
    pub open spec fn spec_done(&self) -> bool {
        self.high - self.low <= 1
    }

    /// A search over the full range of sizes a 16-bit register can hold.
    pub fn new() -> (r: Self)
        ensures
            r.wf(),
            r.low == 1,
            r.high == 0xFFFF,
    {
        MtuSearch { low: 1, high: 0xFFFF }
    }

    pub fn done(&self) -> (r: bool)
        requires
            self.wf(),
        ensures
            r == self.spec_done(),
    {
        self.high - self.low <= 1
    }

    /// The size the next attempt should request: the midpoint of the open
    /// range, strictly between the bounds while the search is not done.
    pub fn next_size(&self) -> (r: u16)
        requires
            self.wf(),
        ensures
            r == self.low + (self.high - self.low) / 2,
            !self.spec_done() ==> self.low < r < self.high,
    {
        self.low + (self.high - self.low) / 2
    }

    /// Steer the search by one attempt's outcome. Only a fully successful
    /// attempt — the camera kept the requested size and the probe datagram
    /// arrived — raises the lower bound; the range narrows either way.
    pub fn record(&mut self, requested: u16, accepted: u16, probe_received: bool)
        requires
            old(self).wf(),
            !old(self).spec_done(),
            requested == old(self).low + (old(self).high - old(self).low) / 2,
        ensures
            final(self).wf(),
            accepted == requested && probe_received ==> final(self).low == requested
                && final(self).high == old(self).high,
            !(accepted == requested && probe_received) ==> final(self).high == requested
                && final(self).low == old(self).low,
            final(self).high - final(self).low < old(self).high - old(
                self,
            ).low,
    {
        if accepted == requested && probe_received {
            self.low = requested;
        } else {
            self.high = requested;
        }
    }

    /// The size the finished search commits: the largest confirmed one.
    pub fn commit(&self) -> (r: u16)
        requires
            self.wf(),
        ensures
            r == self.low,
    {
        self.low
    }
}

} // verus!
