//! Receiver-side logic for a GigE Vision camera's image stream: parsing the
//! compact GVSP packet headers, reassembling frames from datagram payloads
//! that may arrive out of order, converting the raw Bayer mosaic to RGB, and
//! the packet-size negotiation that configures the camera before streaming.

mod demosaic;
mod engine;
mod negotiate;
mod packet;

pub use demosaic::linear_demosaic_rggb8;
pub use demosaic::reconstruct_rgb;
pub use demosaic::spec_reconstruct_err;
pub use demosaic::ReconstructError;

pub use engine::concat_seqs;
pub use engine::generic_events;
pub use engine::in_order_events;
pub use engine::lemma_generics_never_emit;
pub use engine::lemma_in_order_stream_emits_one_frame;
pub use engine::lemma_mismatched_block_id_is_dropped;
pub use engine::lemma_new_leader_supersedes_incomplete_frame;
pub use engine::lemma_overrun_payload_is_truncated;
pub use engine::lemma_run_append;
pub use engine::lemma_superseded_block_emits_no_frame;
pub use engine::overlay;
pub use engine::padz;
pub use engine::result_view;
pub use engine::spec_handle;
pub use engine::spec_on_generic;
pub use engine::spec_on_leader;
pub use engine::spec_on_trailer;
pub use engine::spec_run;
pub use engine::spec_step;
pub use engine::view_wf;
pub use engine::zeros;
pub use engine::AccView;
pub use engine::EngineView;
pub use engine::Frame;
pub use engine::FrameView;
pub use engine::PacketView;
pub use engine::ReassemblyEngine;

pub use negotiate::attempt_outcome;
pub use negotiate::decode_packet_size;
pub use negotiate::encode_packet_size;
pub use negotiate::lemma_packet_size_round_trip;
pub use negotiate::scda_address;
pub use negotiate::scp_address;
pub use negotiate::scps_address;
pub use negotiate::scsp_address;
pub use negotiate::spec_packet_size_register;
pub use negotiate::MtuSearch;
pub use negotiate::MCDA_ADDRESS;
pub use negotiate::MCP_ADDRESS;
pub use negotiate::MESSAGE_CHANNEL_COUNT_ADDRESS;
pub use negotiate::SCDA_BASE;
pub use negotiate::SCP_BASE;
pub use negotiate::SCPS_BASE;
pub use negotiate::SCSP_BASE;
pub use negotiate::STREAM_CHANNEL_COUNT_ADDRESS;
pub use negotiate::STREAM_CHANNEL_STRIDE;

pub use packet::be16;
pub use packet::be24;
pub use packet::be32;
pub use packet::be64;
pub use packet::code_of_kind;
pub use packet::encode_header;
pub use packet::kind_of_code;
pub use packet::kind_round_trips;
pub use packet::lemma_extended_header_round_trip;
pub use packet::lemma_header_round_trip;
pub use packet::parse_header;
pub use packet::parse_leader;
pub use packet::spec_encode_header;
pub use packet::spec_parse_header;
pub use packet::spec_parse_leader;
pub use packet::LeaderInfo;
pub use packet::PacketHeader;
pub use packet::PacketKind;
pub use packet::ProtocolError;
pub use packet::PAYLOAD_TYPE_IMAGE;
pub use packet::PIXEL_FORMAT_BAYER_RG8;
