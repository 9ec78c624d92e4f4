//! The frame reassembly engine: a per-stream-channel state machine that
//! consumes GVSP packets in whatever order the datagrams arrive and produces
//! complete raw frame buffers.
//!
//! The engine owns at most one in-flight frame. A Leader opens a frame
//! (discarding any incomplete predecessor, since a lost datagram would
//! otherwise stall reassembly forever), each matching Generic packet copies
//! its payload into the frame buffer at the offset its packet id dictates,
//! and a matching Trailer completes the frame and hands it out by value.

use vstd::prelude::*;

use crate::packet::spec_parse_header;
use crate::packet::spec_parse_leader;
use crate::packet::LeaderInfo;
use crate::packet::PacketHeader;
use crate::packet::PacketKind;
use crate::packet::ProtocolError;
use crate::packet::parse_header;
use crate::packet::parse_leader;
use crate::packet::PIXEL_FORMAT_BAYER_RG8;

verus! {

/// A completed frame: the reassembled single-plane Bayer mosaic and the
/// resolution its Leader declared. Handing one out severs it from the
/// engine; the buffer holds exactly `width * height` bytes.
#[derive(Debug, Clone, PartialEq, Eq)]
pub struct Frame {
    pub width: u32,
    pub height: u32,
    pub raw: Vec<u8>,
}

/// The mathematical content of a completed frame.
pub struct FrameView {
    pub width: u32,
    pub height: u32,
    pub raw: Seq<u8>,
}

/// The mathematical content of the one in-flight frame accumulator.
pub struct AccView {
    pub block_id: u64,
    pub width: u32,
    pub height: u32,
    pub raw: Seq<u8>,
}

/// The mathematical state of the engine: the session's payload chunk size
/// and the in-flight accumulator, if a frame is being assembled.
pub struct EngineView {
    pub chunk_size: u16,
    pub acc: Option<AccView>,
}

/// A packet as the engine sees it: the decoded role with the fields that
/// drive reassembly, payload bytes included.
pub enum PacketView {
    Leader { block_id: u64, info: LeaderInfo },
    Generic { block_id: u64, packet_id: u32, payload: Seq<u8> },
    Trailer { block_id: u64 },
    Unknown { code: u8 },
}

impl View for Frame {
    type V = FrameView;

    open spec fn view(&self) -> FrameView {
        FrameView { width: self.width, height: self.height, raw: self.raw@ }
    }
}

/// A sequence of `n` zero bytes: the content of a freshly opened frame buffer.
pub open spec fn zeros(n: int) -> Seq<u8> {
    Seq::new(n as nat, |i: int| 0u8)
}

/// `base` with `p` written over it starting at offset `off`; whatever part
/// of `p` would lie past the end of `base` is dropped, so the result is
/// exactly as long as `base`.
pub open spec fn overlay(base: Seq<u8>, off: int, p: Seq<u8>) -> Seq<u8> {
    Seq::new(base.len(), |i: int| if off <= i < off + p.len() { p[i - off] } else { base[i] })
}

/// A well-formed engine state: a session has a nonzero chunk size, and an
/// in-flight buffer is exactly as large as its declared resolution.
pub open spec fn view_wf(s: EngineView) -> bool {
    &&& s.chunk_size >= 1
    &&& match s.acc {
        Some(a) => a.raw.len() == a.width * a.height,
        None => true,
    }
}

/// The transition a Leader packet causes. Any prior incomplete frame is
/// discarded without being emitted. A pixel format other than 8-bit Bayer
/// RGGB, or a resolution whose buffer cannot exist on this machine, leaves
/// the engine awaiting a future Leader.
pub open spec fn spec_on_leader(s: EngineView, block_id: u64, info: LeaderInfo) -> (EngineView,
    Result<Option<FrameView>, ProtocolError>) {
    let idle = EngineView { chunk_size: s.chunk_size, acc: None };
    if info.pixel_format != PIXEL_FORMAT_BAYER_RG8 {
        (idle, Err(ProtocolError::UnsupportedPixelFormat(info.pixel_format)))
    } else if info.width * info.height > usize::MAX {
        (idle, Err(ProtocolError::FrameTooLarge))
    } else {
        (
            EngineView {
                chunk_size: s.chunk_size,
                acc: Some(
                    AccView {
                        block_id,
                        width: info.width,
                        height: info.height,
                        raw: zeros(info.width * info.height),
                    },
                ),
            },
            Ok(None),
        )
    }
}

/// The transition a Generic packet causes. A packet id of zero is malformed
/// (payload chunks count from one); a packet for any frame but the one in
/// flight is dropped with the state unchanged; otherwise the payload lands
/// at `chunk_size * (packet_id - 1)`, truncated to the buffer.
pub open spec fn spec_on_generic(
    s: EngineView,
    block_id: u64,
    packet_id: u32,
    payload: Seq<u8>,
) -> (EngineView, Result<Option<FrameView>, ProtocolError>) {
    if packet_id == 0 {
        (s, Err(ProtocolError::MalformedHeader))
    } else {
        match s.acc {
            None => (s, Err(ProtocolError::StaleOrMismatchedBlockId)),
            Some(a) => {
                if block_id != a.block_id {
                    (s, Err(ProtocolError::StaleOrMismatchedBlockId))
                } else {
                    let off = s.chunk_size * (packet_id - 1);
                    (
                        EngineView {
                            chunk_size: s.chunk_size,
                            acc: Some(
                                AccView {
                                    block_id: a.block_id,
                                    width: a.width,
                                    height: a.height,
                                    raw: overlay(a.raw, off, payload),
                                },
                            ),
                        },
                        Ok(None),
                    )
                }
            },
        }
    }
}

/// The transition a Trailer packet causes: a matching block id completes
/// the in-flight frame and returns the engine to awaiting a leader; any
/// other Trailer is dropped with the state unchanged.
pub open spec fn spec_on_trailer(s: EngineView, block_id: u64) -> (EngineView, Result<
    Option<FrameView>,
    ProtocolError,
>) {
    match s.acc {
        None => (s, Err(ProtocolError::StaleOrMismatchedBlockId)),
        Some(a) => {
            if block_id != a.block_id {
                (s, Err(ProtocolError::StaleOrMismatchedBlockId))
            } else {
                (
                    EngineView { chunk_size: s.chunk_size, acc: None },
                    Ok(Some(FrameView { width: a.width, height: a.height, raw: a.raw })),
                )
            }
        },
    }
}

/// The engine's whole transition relation, one packet at a time.
pub open spec fn spec_step(s: EngineView, ev: PacketView) -> (EngineView, Result<
    Option<FrameView>,
    ProtocolError,
>) {
    match ev {
        PacketView::Leader { block_id, info } => spec_on_leader(s, block_id, info),
        PacketView::Generic { block_id, packet_id, payload } => spec_on_generic(
            s,
            block_id,
            packet_id,
            payload,
        ),
        PacketView::Trailer { block_id } => spec_on_trailer(s, block_id),
        PacketView::Unknown { code } => (s, Err(ProtocolError::UnknownFormat(code))),
    }
}

/// What handing a whole datagram to the receiver means: decode the header,
/// decode the Leader payload if the packet is a Leader, and take the
/// engine's transition. A decoding failure leaves the state untouched.
pub open spec fn spec_handle(s: EngineView, d: Seq<u8>) -> (EngineView, Result<
    Option<FrameView>,
    ProtocolError,
>) {
    match spec_parse_header(d) {
        None => (s, Err(ProtocolError::MalformedHeader)),
        Some((h, off)) => {
            let body = d.subrange(off, d.len() as int);
            match h.packet_format {
                PacketKind::Leader => match spec_parse_leader(body) {
                    Err(e) => (s, Err(e)),
                    Ok(info) => spec_on_leader(s, h.block_id, info),
                },
                PacketKind::Generic => spec_on_generic(s, h.block_id, h.packet_id, body),
                PacketKind::Trailer => spec_on_trailer(s, h.block_id),
                PacketKind::Unknown(code) => (s, Err(ProtocolError::UnknownFormat(code))),
            }
        },
    }
}

/// The engine run over a whole packet sequence: the final state and the
/// frames emitted, in order.
pub open spec fn spec_run(s: EngineView, evs: Seq<PacketView>) -> (EngineView, Seq<FrameView>)
    decreases evs.len(),
{
    if evs.len() == 0 {
        (s, Seq::empty())
    } else {
        let (s1, r) = spec_step(s, evs[0]);
        let (s2, frames) = spec_run(s1, evs.drop_first());
        match r {
            Ok(Some(f)) => (s2, seq![f] + frames),
            _ => (s2, frames),
        }
    }
}

/// The payloads of a packet sequence laid end to end, in order.
pub open spec fn concat_seqs(ps: Seq<Seq<u8>>) -> Seq<u8>
    decreases ps.len(),
{
    if ps.len() == 0 {
        Seq::empty()
    } else {
        ps.first() + concat_seqs(ps.drop_first())
    }
}

/// `c` truncated or zero-padded to length `n`.
pub open spec fn padz(c: Seq<u8>, n: int) -> Seq<u8> {
    Seq::new(n as nat, |i: int| if i < c.len() { c[i] } else { 0u8 })
}

/// The Generic packets for payloads `ps`, ids counting up from `first_id`.
pub open spec fn generic_events(block_id: u64, ps: Seq<Seq<u8>>, first_id: int) -> Seq<PacketView> {
    Seq::new(
        ps.len(),
        |i: int| PacketView::Generic { block_id, packet_id: (first_id + i) as u32, payload: ps[i] },
    )
}

/// An in-order frame delivery: a Leader, the payload chunks numbered from
/// one, and a Trailer, all for one block id.
pub open spec fn in_order_events(block_id: u64, info: LeaderInfo, ps: Seq<Seq<u8>>) -> Seq<
    PacketView,
> {
    seq![PacketView::Leader { block_id, info }] + generic_events(block_id, ps, 1)
        + seq![PacketView::Trailer { block_id }]
}

/// Running the engine over concatenated packet sequences is running it over
/// the first and then, from the state reached, over the second; the emitted
/// frames concatenate likewise.
pub proof fn lemma_run_append(s: EngineView, evs1: Seq<PacketView>, evs2: Seq<PacketView>)
    ensures
        ({
            let (s1, f1) = spec_run(s, evs1);
            let (s2, f2) = spec_run(s1, evs2);
            spec_run(s, evs1 + evs2) == (s2, f1 + f2)
        }),
    decreases evs1.len(),
{
    let (s1, f1) = spec_run(s, evs1);
    let (s2, f2) = spec_run(s1, evs2);
    if evs1.len() == 0 {
        assert(evs1 + evs2 =~= evs2);
        assert(f1 + f2 =~= f2);
    } else {
        let (sa, r) = spec_step(s, evs1[0]);
        assert((evs1 + evs2).drop_first() =~= evs1.drop_first() + evs2);
        lemma_run_append(sa, evs1.drop_first(), evs2);
        let (sb, fb) = spec_run(sa, evs1.drop_first());
        match r {
            Ok(Some(f)) => {
                assert(f1 =~= seq![f] + fb);
                assert(seq![f] + (fb + f2) =~= (seq![f] + fb) + f2);
            },
            _ => {},
        }
    }
}

/// Matching Generic packets numbered from `first_id` fill the in-flight
/// buffer in order: if the buffer already holds `done` (padded with zeros to
/// its length) and `done` ends exactly where chunk `first_id` begins, then
/// after all of `ps` — every chunk but the last exactly `chunk_size` long —
/// the buffer holds `done` followed by the payloads, still padded or
/// truncated to its length. No frame is emitted along the way.
proof fn lemma_generics_fill(s: EngineView, block_id: u64, ps: Seq<Seq<u8>>, first_id: int, done: Seq<u8>)
    requires
        view_wf(s),
        s.acc matches Some(a) && a.block_id == block_id && a.raw == padz(done, a.raw.len() as int),
        1 <= first_id,
        first_id + ps.len() <= 0x1_0000_0000,
        ps.len() > 0 ==> done.len() == (first_id - 1) * s.chunk_size,
        forall|i: int| 0 <= i < ps.len() - 1 ==> (#[trigger] ps[i]).len() == s.chunk_size,
    ensures
        ({
            let (s2, frames) = spec_run(s, generic_events(block_id, ps, first_id));
            let a = s.acc->Some_0;
            &&& frames == Seq::<FrameView>::empty()
            &&& s2 == (EngineView {
                chunk_size: s.chunk_size,
                acc: Some(
                    AccView {
                        block_id: a.block_id,
                        width: a.width,
                        height: a.height,
                        raw: padz(done + concat_seqs(ps), a.raw.len() as int),
                    },
                ),
            })
        }),
    decreases ps.len(),
{
    let a = s.acc->Some_0;
    let evs = generic_events(block_id, ps, first_id);
    if ps.len() == 0 {
        assert(evs =~= Seq::<PacketView>::empty());
        assert(done + concat_seqs(ps) =~= done);
        assert(a.raw =~= padz(done + concat_seqs(ps), a.raw.len() as int));
        assert(s == (EngineView {
            chunk_size: s.chunk_size,
            acc: Some(
                AccView {
                    block_id: a.block_id,
                    width: a.width,
                    height: a.height,
                    raw: padz(done + concat_seqs(ps), a.raw.len() as int),
                },
            ),
        }));
    } else {
        let p0 = ps.first();
        let ev0 = evs[0];
        assert(ev0 == PacketView::Generic {
            block_id,
            packet_id: (first_id + 0) as u32,
            payload: p0,
        });
        let pid = (first_id + 0) as u32;
        assert(pid == first_id);
        let (s1, r1) = spec_step(s, ev0);
        let off = s.chunk_size * (pid - 1);
        let raw1 = overlay(a.raw, off, p0);
        assert(s1.acc->Some_0.raw == raw1);
        assert(r1 == Ok::<Option<FrameView>, ProtocolError>(None));
        // The overlay lands exactly where `done` ends, extending it by `p0`.
        assert(off == done.len());
        assert(raw1 =~= padz(done + p0, a.raw.len() as int)) by {
            assert forall|i: int| 0 <= i < a.raw.len() implies raw1[i] == padz(
                done + p0,
                a.raw.len() as int,
            )[i] by {
                if off <= i < off + p0.len() {
                    assert(raw1[i] == p0[i - off]);
                    assert((done + p0)[i] == p0[i - done.len()]);
                } else {
                    assert(raw1[i] == a.raw[i]);
                    assert(a.raw[i] == padz(done, a.raw.len() as int)[i]);
                }
            }
        }
        let done1 = done + p0;
        if ps.len() > 1 {
            assert(p0.len() == s.chunk_size);
            assert(done1.len() == first_id * s.chunk_size) by (nonlinear_arith)
                requires
                    done1.len() == done.len() + p0.len(),
                    done.len() == (first_id - 1) * s.chunk_size,
                    p0.len() == s.chunk_size,
            ;
        }
        assert(forall|i: int|
            0 <= i < ps.drop_first().len() - 1 ==> (#[trigger] ps.drop_first()[i]).len()
                == s.chunk_size);
        lemma_generics_fill(s1, block_id, ps.drop_first(), first_id + 1, done1);
        assert(evs.drop_first() =~= generic_events(block_id, ps.drop_first(), first_id + 1));
        assert(done1 + concat_seqs(ps.drop_first()) =~= done + concat_seqs(ps));
    }
}

/// Any sequence of valid Leader, payload chunks one through n, Trailer
/// packets, delivered in order with one consistent block id, makes the
/// engine emit exactly one frame, whose raw buffer is the concatenation of
/// the payloads truncated or zero-padded to the declared resolution. Every
/// chunk but the last must be full (the chunk offsets leave no gap), and the
/// resolution must be representable and the format the supported one.
pub proof fn lemma_in_order_stream_emits_one_frame(
    s: EngineView,
    block_id: u64,
    info: LeaderInfo,
    ps: Seq<Seq<u8>>,
)
    requires
        view_wf(s),
        info.pixel_format == PIXEL_FORMAT_BAYER_RG8,
        info.width * info.height <= usize::MAX,
        ps.len() < 0x1_0000_0000,
        forall|i: int| 0 <= i < ps.len() - 1 ==> (#[trigger] ps[i]).len() == s.chunk_size,
    ensures
        ({
            let (s2, frames) = spec_run(s, in_order_events(block_id, info, ps));
            &&& s2 == (EngineView { chunk_size: s.chunk_size, acc: None::<AccView> })
            &&& frames == seq![
                FrameView {
                    width: info.width,
                    height: info.height,
                    raw: padz(concat_seqs(ps), info.width * info.height),
                },
            ]
        }),
{
    let l = info.width * info.height;
    let leader_ev = seq![PacketView::Leader { block_id, info }];
    let gens = generic_events(block_id, ps, 1);
    let trailer_ev = seq![PacketView::Trailer { block_id }];

    // One Leader from any state: a fresh zero-filled accumulator.
    let (s1, r1) = spec_step(s, PacketView::Leader { block_id, info });
    assert(leader_ev.drop_first() =~= Seq::<PacketView>::empty());
    assert(spec_run(s1, leader_ev.drop_first()) == (s1, Seq::<FrameView>::empty()));
    assert(leader_ev[0] == PacketView::Leader { block_id, info });
    assert(spec_run(s, leader_ev) == (s1, Seq::<FrameView>::empty()));
    assert(s1.acc->Some_0.raw == zeros(l));

    // The payload chunks fill it in order.
    assert(zeros(l) =~= padz(Seq::empty(), l));
    lemma_generics_fill(s1, block_id, ps, 1, Seq::empty());
    let (s2, f2) = spec_run(s1, gens);
    assert(f2 == Seq::<FrameView>::empty());
    assert(Seq::empty() + concat_seqs(ps) =~= concat_seqs(ps));
    assert(s2.acc->Some_0.raw == padz(concat_seqs(ps), l));

    // The Trailer completes the frame.
    let (s3, r3) = spec_step(s2, PacketView::Trailer { block_id });
    assert(trailer_ev.drop_first() =~= Seq::<PacketView>::empty());
    assert(spec_run(s3, trailer_ev.drop_first()) == (s3, Seq::<FrameView>::empty()));
    assert(trailer_ev[0] == PacketView::Trailer { block_id });
    assert(r3 == Ok::<Option<FrameView>, ProtocolError>(
        Some(FrameView { width: info.width, height: info.height, raw: padz(concat_seqs(ps), l) }),
    ));
    assert(seq![
        FrameView { width: info.width, height: info.height, raw: padz(concat_seqs(ps), l) },
    ] + Seq::<FrameView>::empty() =~= seq![
        FrameView { width: info.width, height: info.height, raw: padz(concat_seqs(ps), l) },
    ]);
    assert(spec_run(s2, trailer_ev) == (s3, seq![
        FrameView { width: info.width, height: info.height, raw: padz(concat_seqs(ps), l) },
    ]));

    // Stitch the three runs together.
    lemma_run_append(s1, gens, trailer_ev);
    lemma_run_append(s, leader_ev, gens + trailer_ev);
    assert(leader_ev + (gens + trailer_ev) =~= in_order_events(block_id, info, ps));
    let (sf, ff) = spec_run(s, in_order_events(block_id, info, ps));
    assert(ff =~= seq![
        FrameView { width: info.width, height: info.height, raw: padz(concat_seqs(ps), l) },
    ]);
}

/// Generic packets never emit a frame, whatever their ids and payloads: they
/// can only fill the in-flight buffer. The accumulator's identity — block
/// id, resolution, buffer length — survives them all, and an idle engine
/// stays idle.
pub proof fn lemma_generics_never_emit(s: EngineView, evs: Seq<PacketView>)
    requires
        view_wf(s),
        forall|i: int| 0 <= i < evs.len() ==> evs[i] is Generic,
    ensures
        ({
            let (s2, frames) = spec_run(s, evs);
            &&& frames == Seq::<FrameView>::empty()
            &&& view_wf(s2)
            &&& s2.chunk_size == s.chunk_size
            &&& s.acc is Some ==> (s2.acc is Some && s2.acc->Some_0.block_id
                == s.acc->Some_0.block_id && s2.acc->Some_0.width == s.acc->Some_0.width
                && s2.acc->Some_0.height == s.acc->Some_0.height && s2.acc->Some_0.raw.len()
                == s.acc->Some_0.raw.len())
            &&& s.acc is None ==> s2.acc is None
        }),
    decreases evs.len(),
{
    if evs.len() > 0 {
        let (s1, r) = spec_step(s, evs[0]);
        assert(view_wf(s1));
        lemma_generics_never_emit(s1, evs.drop_first());
    }
}

/// Once a Leader's frame was left incomplete — its payload chunks arrived,
/// in whole or in part, but no Trailer — a second Leader discards it, and
/// the engine then delivers the second frame alone: no frame is ever emitted
/// for the superseded block id.
pub proof fn lemma_superseded_block_emits_no_frame(
    s: EngineView,
    block_id1: u64,
    info1: LeaderInfo,
    qs: Seq<PacketView>,
    block_id2: u64,
    info2: LeaderInfo,
    ps: Seq<Seq<u8>>,
)
    requires
        view_wf(s),
        info1.pixel_format == PIXEL_FORMAT_BAYER_RG8,
        info1.width * info1.height <= usize::MAX,
        forall|i: int| 0 <= i < qs.len() ==> qs[i] is Generic,
        info2.pixel_format == PIXEL_FORMAT_BAYER_RG8,
        info2.width * info2.height <= usize::MAX,
        ps.len() < 0x1_0000_0000,
        forall|i: int| 0 <= i < ps.len() - 1 ==> (#[trigger] ps[i]).len() == s.chunk_size,
    ensures
        ({
            let evs = seq![PacketView::Leader { block_id: block_id1, info: info1 }] + qs
                + in_order_events(block_id2, info2, ps);
            let (s2, frames) = spec_run(s, evs);
            &&& s2 == (EngineView { chunk_size: s.chunk_size, acc: None::<AccView> })
            &&& frames == seq![
                FrameView {
                    width: info2.width,
                    height: info2.height,
                    raw: padz(concat_seqs(ps), info2.width * info2.height),
                },
            ]
        }),
{
    let first_leader = seq![PacketView::Leader { block_id: block_id1, info: info1 }];
    let second = in_order_events(block_id2, info2, ps);

    // The first Leader opens an accumulator for its block.
    let (s1, r1) = spec_step(s, PacketView::Leader { block_id: block_id1, info: info1 });
    assert(first_leader.drop_first() =~= Seq::<PacketView>::empty());
    assert(spec_run(s1, first_leader.drop_first()) == (s1, Seq::<FrameView>::empty()));
    assert(first_leader[0] == PacketView::Leader { block_id: block_id1, info: info1 });
    assert(spec_run(s, first_leader) == (s1, Seq::<FrameView>::empty()));
    assert(view_wf(s1));

    // Its payload chunks emit nothing, however many arrived.
    lemma_generics_never_emit(s1, qs);
    let (sq, fq) = spec_run(s1, qs);

    // The second delivery behaves as from any state: one frame, the second's.
    lemma_in_order_stream_emits_one_frame(sq, block_id2, info2, ps);
    let (s3, f3) = spec_run(sq, second);

    // Stitch the three runs together.
    lemma_run_append(s1, qs, second);
    lemma_run_append(s, first_leader, qs + second);
    assert(first_leader + (qs + second) =~= first_leader + qs + second);
    let (sf, ff) = spec_run(s, first_leader + qs + second);
    assert(ff =~= seq![
        FrameView {
            width: info2.width,
            height: info2.height,
            raw: padz(concat_seqs(ps), info2.width * info2.height),
        },
    ]);
}

/// A Generic or Trailer packet whose block id is not the in-flight frame's
/// emits nothing and leaves the engine's state exactly as it was.
pub proof fn lemma_mismatched_block_id_is_dropped(s: EngineView, ev: PacketView)
    requires
        s.acc is Some,
        match ev {
            PacketView::Generic { block_id, .. } => block_id != s.acc->Some_0.block_id,
            PacketView::Trailer { block_id } => block_id != s.acc->Some_0.block_id,
            _ => false,
        },
    ensures
        spec_step(s, ev).0 == s,
        spec_step(s, ev).1 is Err,
{
}

/// A second Leader before any Trailer discards the in-flight frame — no
/// frame is emitted for it — and reassembly starts fresh for the new block
/// id with a zero-filled buffer.
pub proof fn lemma_new_leader_supersedes_incomplete_frame(
    s: EngineView,
    block_id: u64,
    info: LeaderInfo,
)
    requires
        s.acc is Some,
        info.pixel_format == PIXEL_FORMAT_BAYER_RG8,
        info.width * info.height <= usize::MAX,
    ensures
        ({
            let (s2, r) = spec_step(s, PacketView::Leader { block_id, info });
            &&& r == Ok::<Option<FrameView>, ProtocolError>(None)
            &&& s2 == (EngineView {
                chunk_size: s.chunk_size,
                acc: Some(
                    AccView {
                        block_id,
                        width: info.width,
                        height: info.height,
                        raw: zeros(info.width * info.height),
                    },
                ),
            })
        }),
{
}

/// A matching payload chunk whose offset range runs past the buffer is
/// truncated to fit: the buffer keeps its length, bytes inside the range
/// take the payload's values, bytes outside it are untouched, and no error
/// is reported. In particular a chunk lying wholly past the end changes
/// nothing.
pub proof fn lemma_overrun_payload_is_truncated(
    s: EngineView,
    block_id: u64,
    packet_id: u32,
    payload: Seq<u8>,
)
    requires
        s.acc matches Some(a) && a.block_id == block_id,
        packet_id >= 1,
    ensures
        ({
            let (s2, r) = spec_step(s, PacketView::Generic { block_id, packet_id, payload });
            let a = s.acc->Some_0;
            let a2 = s2.acc->Some_0;
            let off = s.chunk_size * (packet_id - 1);
            &&& r == Ok::<Option<FrameView>, ProtocolError>(None)
            &&& s2.chunk_size == s.chunk_size
            &&& s2.acc is Some
            &&& a2.block_id == a.block_id && a2.width == a.width && a2.height == a.height
            &&& a2.raw.len() == a.raw.len()
            &&& forall|i: int|
                0 <= i < a.raw.len() && off <= i < off + payload.len() ==> #[trigger] a2.raw[i]
                    == payload[i - off]
            &&& forall|i: int|
                0 <= i < a.raw.len() && !(off <= i < off + payload.len()) ==> #[trigger] a2.raw[i]
                    == a.raw[i]
            &&& off >= a.raw.len() ==> s2 == s
        }),
{
    let (s2, r) = spec_step(s, PacketView::Generic { block_id, packet_id, payload });
    let a = s.acc->Some_0;
    let off = s.chunk_size * (packet_id - 1);
    if off >= a.raw.len() {
        assert(overlay(a.raw, off, payload) =~= a.raw);
        assert(s2 =~= s);
    }
}

/// The mutable reassembly state for exactly one in-flight frame.
struct FrameAccumulator {
    block_id: u64,
    width: u32,
    height: u32,
    raw: Vec<u8>,
}

/// The reassembly engine for one stream channel.
pub struct ReassemblyEngine {
    chunk_size: u16,
    acc: Option<FrameAccumulator>,
}

impl View for ReassemblyEngine {
    type V = EngineView;

    closed spec fn view(&self) -> EngineView {
        EngineView {
            chunk_size: self.chunk_size,
            acc: match self.acc {
                Some(a) => Some(
                    AccView { block_id: a.block_id, width: a.width, height: a.height, raw: a.raw@ },
                ),
                None => None,
            },
        }
    }
}

/// How an emitted frame relates the executable result to the transition
/// relation's: the same division into progress, completed frame, and drop.
pub open spec fn result_view(r: Result<Option<Frame>, ProtocolError>) -> Result<
    Option<FrameView>,
    ProtocolError,
> {
    match r {
        Ok(Some(f)) => Ok(Some(f@)),
        Ok(None) => Ok(None),
        Err(e) => Err(e),
    }
}

pub(crate) fn zero_vec(n: usize) -> (v: Vec<u8>)
    ensures
        v@ == zeros(n as int),
{
    let mut v: Vec<u8> = Vec::new();
    while v.len() < n
        invariant
            v@.len() <= n,
            v@ == zeros(v@.len() as int),
        decreases n - v@.len(),
    {
        v.push(0u8);
        assert(v@ =~= zeros(v@.len() as int));
    }
    assert(v@ =~= zeros(n as int));
    v
}

impl ReassemblyEngine {
    /// A fresh engine for a session whose Generic packets carry at most
    /// `chunk_size` payload bytes each (constant for the session, fixed by
    /// the packet-size negotiation). No frame is in flight.
    pub fn new(chunk_size: u16) -> (r: Self)
        requires
            chunk_size >= 1,
        ensures
            r@ == (EngineView { chunk_size, acc: None::<AccView> }),
            view_wf(r@),
    {
        ReassemblyEngine { chunk_size, acc: None }
    }

    /// The session's payload chunk size.
    pub fn chunk_size(&self) -> (r: u16)
        ensures
            r == self@.chunk_size,
    {
        self.chunk_size
    }

    /// Whether a frame is currently being accumulated.
    pub fn accumulating(&self) -> (r: bool)
        ensures
            r == self@.acc is Some,
    {
        self.acc.is_some()
    }

    fn on_leader(&mut self, block_id: u64, info: &LeaderInfo) -> (r: Result<
        Option<Frame>,
        ProtocolError,
    >)
        requires
            view_wf(old(self)@),
        ensures
            view_wf(final(self)@),
            (final(self)@, result_view(r)) == spec_on_leader(old(self)@, block_id, *info),
    {
        self.acc = None;
        if info.pixel_format != PIXEL_FORMAT_BAYER_RG8 {
            return Err(ProtocolError::UnsupportedPixelFormat(info.pixel_format));
        }
        proof {
            vstd::arithmetic::mul::lemma_mul_upper_bound(
                info.width as int,
                0xFFFF_FFFF,
                info.height as int,
                0xFFFF_FFFF,
            );
        }
        let need: u64 = (info.width as u64) * (info.height as u64);
        if need > usize::MAX as u64 {
            return Err(ProtocolError::FrameTooLarge);
        }
        let raw = zero_vec(need as usize);
        self.acc = Some(
            FrameAccumulator { block_id, width: info.width, height: info.height, raw },
        );
        Ok(None)
    }

    fn on_generic(&mut self, block_id: u64, packet_id: u32, payload: &[u8]) -> (r: Result<
        Option<Frame>,
        ProtocolError,
    >)
        requires
            view_wf(old(self)@),
        ensures
            view_wf(final(self)@),
            (final(self)@, result_view(r)) == spec_on_generic(
                old(self)@,
                block_id,
                packet_id,
                payload@,
            ),
    {
        if packet_id == 0 {
            return Err(ProtocolError::MalformedHeader);
        }
        match self.acc.take() {
            None => Err(ProtocolError::StaleOrMismatchedBlockId),
            Some(mut a) => {
                if block_id != a.block_id {
                    self.acc = Some(a);
                    return Err(ProtocolError::StaleOrMismatchedBlockId);
                }
                let ghost a0 = a;
                let ghost base = a.raw@;
                let ghost off = self.chunk_size * (packet_id - 1);
                proof {
                    vstd::arithmetic::mul::lemma_mul_upper_bound(
                        self.chunk_size as int,
                        0xFFFF,
                        (packet_id - 1) as int,
                        0xFFFF_FFFF,
                    );
                }
                let off64: u64 = (self.chunk_size as u64) * ((packet_id - 1) as u64);
                if off64 >= a.raw.len() as u64 {
                    assert(a.raw@ =~= overlay(base, off, payload@));
                    self.acc = Some(a);
                    return Ok(None);
                }
                let start: usize = off64 as usize;
                let avail: usize = a.raw.len() - start;
                let n: usize = if payload.len() < avail {
                    payload.len()
                } else {
                    avail
                };
                let mut j: usize = 0;
                while j < n
                    invariant
                        j <= n,
                        off == start,
                        a.block_id == a0.block_id,
                        a.width == a0.width,
                        a.height == a0.height,
                        n <= payload@.len(),
                        start + n <= a.raw@.len(),
                        start + n <= usize::MAX,
                        n == payload@.len() || start + n == base.len(),
                        a.raw@.len() == base.len(),
                        a.raw@ == overlay(base, off as int, payload@.take(j as int)),
                    decreases n - j,
                {
                    a.raw.set(start + j, payload[j]);
                    assert(a.raw@ =~= overlay(base, off as int, payload@.take(j + 1int)));
                    j = j + 1;
                }
                assert(a.raw@ =~= overlay(base, off as int, payload@));
                self.acc = Some(a);
                Ok(None)
            },
        }
    }

    fn on_trailer(&mut self, block_id: u64) -> (r: Result<Option<Frame>, ProtocolError>)
        requires
            view_wf(old(self)@),
        ensures
            view_wf(final(self)@),
            (final(self)@, result_view(r)) == spec_on_trailer(old(self)@, block_id),
    {
        match self.acc.take() {
            None => Err(ProtocolError::StaleOrMismatchedBlockId),
            Some(a) => {
                if block_id != a.block_id {
                    self.acc = Some(a);
                    return Err(ProtocolError::StaleOrMismatchedBlockId);
                }
                Ok(Some(Frame { width: a.width, height: a.height, raw: a.raw }))
            },
        }
    }

    /// Feed one raw datagram to the receiver: decode its header (and, for a
    /// Leader, its payload) and take the engine's transition. `Ok(None)`
    /// means progress, `Ok(Some(frame))` a completed frame, and an error a
    /// dropped packet; only a Leader ever disturbs an in-flight frame.
    pub fn handle_datagram(&mut self, data: &[u8]) -> (r: Result<Option<Frame>, ProtocolError>)
        requires
            view_wf(old(self)@),
        ensures
            view_wf(final(self)@),
            (final(self)@, result_view(r)) == spec_handle(old(self)@, data@),
    {
        let parsed = match parse_header(data) {
            Ok(p) => p,
            Err(e) => {
                return Err(e);
            },
        };
        let (header, off) = parsed;
        let body = vstd::slice::slice_subrange(data, off, data.len());
        match header.packet_format {
            PacketKind::Leader => {
                let info = match parse_leader(body) {
                    Ok(info) => info,
                    Err(e) => {
                        return Err(e);
                    },
                };
                self.on_leader(header.block_id, &info)
            },
            PacketKind::Generic => self.on_generic(header.block_id, header.packet_id, body),
            PacketKind::Trailer => self.on_trailer(header.block_id),
            PacketKind::Unknown(code) => Err(ProtocolError::UnknownFormat(code)),
        }
    }
}

} // verus!
