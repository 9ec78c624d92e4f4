use gvsp_rx::encode_header;
use gvsp_rx::reconstruct_rgb;
use gvsp_rx::PacketHeader;
use gvsp_rx::PacketKind;
use gvsp_rx::ProtocolError;
use gvsp_rx::ReassemblyEngine;

const BAYER_RG8: u32 = 0x0108_0009;

fn leader_datagram(block_id: u16, pixel_format: u32, width: u32, height: u32) -> Vec<u8> {
    let mut d = encode_header(&PacketHeader {
        status: 0,
        block_id: block_id as u64,
        extended: false,
        packet_format: PacketKind::Leader,
        packet_id: 0,
    });
    d.extend_from_slice(&[0, 0]); // reserved
    d.extend_from_slice(&1u16.to_be_bytes()); // image payload type
    d.extend_from_slice(&0u64.to_be_bytes()); // timestamp
    d.extend_from_slice(&pixel_format.to_be_bytes());
    d.extend_from_slice(&width.to_be_bytes());
    d.extend_from_slice(&height.to_be_bytes());
    d.extend_from_slice(&0u32.to_be_bytes()); // offset x
    d.extend_from_slice(&0u32.to_be_bytes()); // offset y
    d.extend_from_slice(&0u16.to_be_bytes()); // padding x
    d.extend_from_slice(&0u16.to_be_bytes()); // padding y
    d
}

fn generic_datagram(block_id: u16, packet_id: u32, payload: &[u8]) -> Vec<u8> {
    let mut d = encode_header(&PacketHeader {
        status: 0,
        block_id: block_id as u64,
        extended: false,
        packet_format: PacketKind::Generic,
        packet_id,
    });
    d.extend_from_slice(payload);
    d
}

fn trailer_datagram(block_id: u16) -> Vec<u8> {
    encode_header(&PacketHeader {
        status: 0,
        block_id: block_id as u64,
        extended: false,
        packet_format: PacketKind::Trailer,
        packet_id: 1,
    })
}

#[test]
fn end_to_end_one_frame() {
    // A 64x48 frame of 3072 bytes, declared by a Leader for block 7, filled
    // by one full chunk and one padding chunk, completed by a Trailer, then
    // reconstructed to RGB.
    let mut engine = ReassemblyEngine::new(3072);
    assert_eq!(
        engine
            .handle_datagram(&leader_datagram(7, BAYER_RG8, 64, 48))
            .unwrap(),
        None
    );
    let chunk1 = vec![9u8; 3072];
    assert_eq!(
        engine.handle_datagram(&generic_datagram(7, 1, &chunk1)).unwrap(),
        None
    );
    // The camera pads its final chunk; the overrun is truncated away.
    let chunk2 = vec![5u8; 72];
    assert_eq!(
        engine.handle_datagram(&generic_datagram(7, 2, &chunk2)).unwrap(),
        None
    );
    let frame = engine
        .handle_datagram(&trailer_datagram(7))
        .unwrap()
        .expect("the trailer completes the frame");
    assert_eq!(frame.width, 64);
    assert_eq!(frame.height, 48);
    assert_eq!(frame.raw.len(), 3072);
    assert!(frame.raw.iter().all(|&b| b == 9));
    assert!(!engine.accumulating());

    let rgb = reconstruct_rgb(&frame.raw, frame.width, frame.height).unwrap();
    assert_eq!(rgb.len(), 9216);
}

#[test]
fn chunks_land_at_their_offsets_in_any_order() {
    let mut engine = ReassemblyEngine::new(4);
    engine
        .handle_datagram(&leader_datagram(1, BAYER_RG8, 4, 3))
        .unwrap();
    engine
        .handle_datagram(&generic_datagram(1, 3, &[3, 3, 3, 3]))
        .unwrap();
    engine
        .handle_datagram(&generic_datagram(1, 1, &[1, 1, 1, 1]))
        .unwrap();
    engine
        .handle_datagram(&generic_datagram(1, 2, &[2, 2, 2, 2]))
        .unwrap();
    let frame = engine.handle_datagram(&trailer_datagram(1)).unwrap().unwrap();
    assert_eq!(frame.raw, vec![1, 1, 1, 1, 2, 2, 2, 2, 3, 3, 3, 3]);
}

#[test]
fn lost_chunk_leaves_zeros() {
    let mut engine = ReassemblyEngine::new(4);
    engine
        .handle_datagram(&leader_datagram(1, BAYER_RG8, 4, 2))
        .unwrap();
    engine
        .handle_datagram(&generic_datagram(1, 2, &[7, 7, 7, 7]))
        .unwrap();
    let frame = engine.handle_datagram(&trailer_datagram(1)).unwrap().unwrap();
    assert_eq!(frame.raw, vec![0, 0, 0, 0, 7, 7, 7, 7]);
}

#[test]
fn mismatched_block_id_is_dropped_and_state_kept() {
    let mut engine = ReassemblyEngine::new(4);
    engine
        .handle_datagram(&leader_datagram(7, BAYER_RG8, 2, 2))
        .unwrap();
    assert_eq!(
        engine.handle_datagram(&generic_datagram(8, 1, &[1, 2, 3, 4])),
        Err(ProtocolError::StaleOrMismatchedBlockId)
    );
    assert_eq!(
        engine.handle_datagram(&trailer_datagram(8)),
        Err(ProtocolError::StaleOrMismatchedBlockId)
    );
    // The in-flight frame survived both drops untouched.
    engine
        .handle_datagram(&generic_datagram(7, 1, &[1, 2, 3, 4]))
        .unwrap();
    let frame = engine.handle_datagram(&trailer_datagram(7)).unwrap().unwrap();
    assert_eq!(frame.raw, vec![1, 2, 3, 4]);
}

#[test]
fn generic_without_leader_is_dropped() {
    let mut engine = ReassemblyEngine::new(4);
    assert_eq!(
        engine.handle_datagram(&generic_datagram(7, 1, &[1, 2, 3, 4])),
        Err(ProtocolError::StaleOrMismatchedBlockId)
    );
    assert_eq!(
        engine.handle_datagram(&trailer_datagram(7)),
        Err(ProtocolError::StaleOrMismatchedBlockId)
    );
    assert!(!engine.accumulating());
}

#[test]
fn second_leader_discards_incomplete_frame() {
    let mut engine = ReassemblyEngine::new(4);
    engine
        .handle_datagram(&leader_datagram(1, BAYER_RG8, 2, 2))
        .unwrap();
    engine
        .handle_datagram(&generic_datagram(1, 1, &[9, 9, 9, 9]))
        .unwrap();
    // A new Leader supersedes the old frame: no frame is emitted for it.
    assert_eq!(
        engine
            .handle_datagram(&leader_datagram(2, BAYER_RG8, 2, 2))
            .unwrap(),
        None
    );
    // The old block's trailer is now stale.
    assert_eq!(
        engine.handle_datagram(&trailer_datagram(1)),
        Err(ProtocolError::StaleOrMismatchedBlockId)
    );
    // The new frame starts from a zero-filled buffer.
    let frame = engine.handle_datagram(&trailer_datagram(2)).unwrap().unwrap();
    assert_eq!(frame.raw, vec![0, 0, 0, 0]);
}

#[test]
fn overrun_payload_is_truncated_not_an_error() {
    let mut engine = ReassemblyEngine::new(4);
    engine
        .handle_datagram(&leader_datagram(1, BAYER_RG8, 2, 3))
        .unwrap();
    // Offset 4, six bytes of frame: only two land.
    assert_eq!(
        engine
            .handle_datagram(&generic_datagram(1, 2, &[8, 8, 8, 8]))
            .unwrap(),
        None
    );
    // Offset 8 lies wholly past the end: nothing lands, still no error.
    assert_eq!(
        engine
            .handle_datagram(&generic_datagram(1, 3, &[6, 6, 6, 6]))
            .unwrap(),
        None
    );
    let frame = engine.handle_datagram(&trailer_datagram(1)).unwrap().unwrap();
    assert_eq!(frame.raw, vec![0, 0, 0, 0, 8, 8]);
}

#[test]
fn unsupported_pixel_format_keeps_engine_idle() {
    let mut engine = ReassemblyEngine::new(4);
    let mono8 = 0x0108_0001;
    assert_eq!(
        engine.handle_datagram(&leader_datagram(1, mono8, 2, 2)),
        Err(ProtocolError::UnsupportedPixelFormat(mono8))
    );
    assert!(!engine.accumulating());
    assert_eq!(
        engine.handle_datagram(&trailer_datagram(1)),
        Err(ProtocolError::StaleOrMismatchedBlockId)
    );
}

#[test]
fn unsupported_format_leader_still_discards_prior_frame() {
    let mut engine = ReassemblyEngine::new(4);
    engine
        .handle_datagram(&leader_datagram(1, BAYER_RG8, 2, 2))
        .unwrap();
    let mono8 = 0x0108_0001;
    assert_eq!(
        engine.handle_datagram(&leader_datagram(2, mono8, 2, 2)),
        Err(ProtocolError::UnsupportedPixelFormat(mono8))
    );
    assert!(!engine.accumulating());
}

#[test]
fn unknown_format_is_dropped_with_state_kept() {
    let mut engine = ReassemblyEngine::new(4);
    engine
        .handle_datagram(&leader_datagram(1, BAYER_RG8, 2, 2))
        .unwrap();
    let d = vec![0, 0, 0, 1, 0x05, 0, 0, 0];
    assert_eq!(
        engine.handle_datagram(&d),
        Err(ProtocolError::UnknownFormat(5))
    );
    assert!(engine.accumulating());
}

#[test]
fn malformed_datagram_is_dropped_with_state_kept() {
    let mut engine = ReassemblyEngine::new(4);
    engine
        .handle_datagram(&leader_datagram(1, BAYER_RG8, 2, 2))
        .unwrap();
    assert_eq!(
        engine.handle_datagram(&[0, 0, 0]),
        Err(ProtocolError::MalformedHeader)
    );
    assert!(engine.accumulating());
}

#[test]
fn generic_packet_id_zero_is_malformed() {
    let mut engine = ReassemblyEngine::new(4);
    engine
        .handle_datagram(&leader_datagram(1, BAYER_RG8, 2, 2))
        .unwrap();
    assert_eq!(
        engine.handle_datagram(&generic_datagram(1, 0, &[1, 2])),
        Err(ProtocolError::MalformedHeader)
    );
    assert!(engine.accumulating());
}

#[test]
fn short_leader_payload_keeps_state() {
    let mut engine = ReassemblyEngine::new(4);
    engine
        .handle_datagram(&leader_datagram(1, BAYER_RG8, 2, 2))
        .unwrap();
    let mut d = leader_datagram(2, BAYER_RG8, 2, 2);
    d.truncate(20);
    assert_eq!(
        engine.handle_datagram(&d),
        Err(ProtocolError::MalformedHeader)
    );
    // The truncated Leader never reached the engine: block 1 still completes.
    assert!(engine.handle_datagram(&trailer_datagram(1)).unwrap().is_some());
}

#[test]
fn wrong_payload_type_keeps_state() {
    let mut engine = ReassemblyEngine::new(4);
    engine
        .handle_datagram(&leader_datagram(1, BAYER_RG8, 2, 2))
        .unwrap();
    let mut d = leader_datagram(2, BAYER_RG8, 2, 2);
    // Overwrite the payload type (bytes 2..4 after the 8-byte header).
    d[10] = 0;
    d[11] = 9;
    assert_eq!(
        engine.handle_datagram(&d),
        Err(ProtocolError::UnexpectedPayloadType)
    );
    assert!(engine.handle_datagram(&trailer_datagram(1)).unwrap().is_some());
}

#[test]
fn extended_ids_reassemble_too() {
    let big_block = 0x0102_0304_0506_0708u64;
    let mut engine = ReassemblyEngine::new(4);
    let mut leader = encode_header(&PacketHeader {
        status: 0,
        block_id: big_block,
        extended: true,
        packet_format: PacketKind::Leader,
        packet_id: 0,
    });
    leader.extend_from_slice(&[0, 0]);
    leader.extend_from_slice(&1u16.to_be_bytes());
    leader.extend_from_slice(&0u64.to_be_bytes());
    leader.extend_from_slice(&BAYER_RG8.to_be_bytes());
    leader.extend_from_slice(&2u32.to_be_bytes());
    leader.extend_from_slice(&2u32.to_be_bytes());
    leader.extend_from_slice(&0u32.to_be_bytes());
    leader.extend_from_slice(&0u32.to_be_bytes());
    leader.extend_from_slice(&0u16.to_be_bytes());
    leader.extend_from_slice(&0u16.to_be_bytes());
    engine.handle_datagram(&leader).unwrap();

    let mut generic = encode_header(&PacketHeader {
        status: 0,
        block_id: big_block,
        extended: true,
        packet_format: PacketKind::Generic,
        packet_id: 1,
    });
    generic.extend_from_slice(&[4, 3, 2, 1]);
    engine.handle_datagram(&generic).unwrap();

    let trailer = encode_header(&PacketHeader {
        status: 0,
        block_id: big_block,
        extended: true,
        packet_format: PacketKind::Trailer,
        packet_id: 2,
    });
    let frame = engine.handle_datagram(&trailer).unwrap().unwrap();
    assert_eq!(frame.raw, vec![4, 3, 2, 1]);
}

#[test]
fn consecutive_frames_reassemble_independently() {
    let mut engine = ReassemblyEngine::new(4);
    engine
        .handle_datagram(&leader_datagram(1, BAYER_RG8, 2, 2))
        .unwrap();
    engine
        .handle_datagram(&generic_datagram(1, 1, &[1, 1, 1, 1]))
        .unwrap();
    let first = engine.handle_datagram(&trailer_datagram(1)).unwrap().unwrap();
    engine
        .handle_datagram(&leader_datagram(2, BAYER_RG8, 2, 2))
        .unwrap();
    engine
        .handle_datagram(&generic_datagram(2, 1, &[2, 2, 2, 2]))
        .unwrap();
    let second = engine.handle_datagram(&trailer_datagram(2)).unwrap().unwrap();
    assert_eq!(first.raw, vec![1, 1, 1, 1]);
    assert_eq!(second.raw, vec![2, 2, 2, 2]);
    assert!(!engine.accumulating());
}
