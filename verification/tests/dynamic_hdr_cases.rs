use cartouche::encode::{IntoPackets};
use cartouche::error::{DecodeError};
use cartouche::warn::{DynamicHdrWarning};
use cartouche::dynamic_hdr::{DynamicHdrInfoFrame, DynamicHdrFragment, BitReader};

// --- BitReader tests ---

#[test]
fn dynamic_hdr_bit_reader_single_byte_full() {
    let mut r = BitReader::new(&[0b1010_1010]);
    assert_eq!(r.read_u8(8).unwrap(), 0b1010_1010);
    assert_eq!(r.remaining_bits(), 0);
}

#[test]
fn dynamic_hdr_bit_reader_msb_first_ordering() {
    // Read 4 bits then 4 bits from 0b1100_0011.
    let mut r = BitReader::new(&[0b1100_0011]);
    assert_eq!(r.read_u8(4).unwrap(), 0b1100);
    assert_eq!(r.read_u8(4).unwrap(), 0b0011);
}

#[test]
fn dynamic_hdr_bit_reader_spans_byte_boundary() {
    // Read 3 bits from byte 0 and 5 bits that straddle into byte 1.
    // data = [0b101_00000, 0b11111_000]
    // read_u8(8) starting at bit 5 of byte 0 should give bits 5,6,7 of
    // byte 0 and bits 0,1,2,3,4 of byte 1.
    let mut r = BitReader::new(&[0b10100000, 0b11111000]);
    let _ = r.read_u8(5).unwrap(); // consume first 5 bits
    assert_eq!(r.read_u8(8).unwrap(), 0b000_11111);
}

#[test]
fn dynamic_hdr_bit_reader_read_bool() {
    let mut r = BitReader::new(&[0b1000_0000]);
    assert!(r.read_bool().unwrap());
    assert!(!r.read_bool().unwrap());
}

#[test]
fn dynamic_hdr_bit_reader_read_u32_wide() {
    // Pack 0xDEAD_BEEF into 4 bytes and read it back as 32 bits.
    let data = 0xDEAD_BEEFu32.to_be_bytes();
    let mut r = BitReader::new(&data);
    assert_eq!(r.read_u32(32).unwrap(), 0xDEAD_BEEF);
}

#[test]
fn dynamic_hdr_bit_reader_short_read_is_error() {
    let mut r = BitReader::new(&[0xFFu8]);
    let _ = r.read_u8(8).unwrap();
    assert!(matches!(r.read_u8(1), Err(DecodeError::MalformedPayload)));
}

#[test]
fn dynamic_hdr_bit_reader_remaining_bits() {
    let mut r = BitReader::new(&[0xFF, 0xFF]);
    assert_eq!(r.remaining_bits(), 16);
    let _ = r.read_u8(3).unwrap();
    assert_eq!(r.remaining_bits(), 13);
}

fn make_packet(seq_num: u8, total_bytes: u16, format_id: u8, chunk: &[u8]) -> [u8; 31] {
    let chunk_len = chunk.len().min(23) as u8;
    let length = 4 + chunk_len;
    let mut packet = [0u8; 31];
    packet[0] = 0x20; // Dynamic HDR type code
    packet[1] = 0x01; // version
    packet[2] = length;
    packet[4] = seq_num;
    packet[5] = (total_bytes & 0xFF) as u8;
    packet[6] = (total_bytes >> 8) as u8;
    packet[7] = format_id;
    packet[8..8 + chunk_len as usize].copy_from_slice(&chunk[..chunk_len as usize]);
    // Compute and insert checksum.
    let sum: u8 = packet.iter().fold(0u8, |a, &b| a.wrapping_add(b));
    packet[3] = packet[3].wrapping_sub(sum);
    packet
}

#[test]
fn dynamic_hdr_round_trip_fields() {
    let chunk_data: [u8; 23] = core::array::from_fn(|i| i as u8);
    let packet = make_packet(3, 0x0142, 0x04, &chunk_data);
    let decoded = DynamicHdrFragment::decode(&packet).unwrap();
    assert!(decoded.iter_warnings().next().is_none());
    assert_eq!(decoded.value.seq_num, 3);
    assert_eq!(decoded.value.total_bytes, 0x0142);
    assert_eq!(decoded.value.format_id, 0x04);
    assert_eq!(decoded.value.chunk_len, 23);
    assert_eq!(&decoded.value.chunk[..23], &chunk_data);
}

#[test]
fn dynamic_hdr_partial_chunk_last_packet() {
    // Simulate a final packet with only 5 metadata bytes.
    let chunk_data = [0xAA, 0xBB, 0xCC, 0xDD, 0xEE];
    let packet = make_packet(1, 28, 0x04, &chunk_data);
    let decoded = DynamicHdrFragment::decode(&packet).unwrap();
    assert_eq!(decoded.value.chunk_len, 5);
    assert_eq!(&decoded.value.chunk[..5], &chunk_data);
}

#[test]
fn dynamic_hdr_checksum_mismatch_warning() {
    let mut packet = make_packet(0, 23, 0x04, &[0u8; 23]);
    packet[3] = packet[3].wrapping_add(1); // corrupt checksum
    let decoded = DynamicHdrFragment::decode(&packet).unwrap();
    assert!(
        decoded
            .iter_warnings()
            .any(|w| matches!(w, DynamicHdrWarning::ChecksumMismatch { .. }))
    );
}

#[test]
fn dynamic_hdr_truncated_length_is_error() {
    let mut packet = make_packet(0, 0, 0x00, &[]);
    packet[2] = 28; // > 27
    assert!(matches!(
        DynamicHdrFragment::decode(&packet),
        Err(DecodeError::Truncated { claimed: 28 })
    ));
}

#[test]
fn dynamic_hdr_zero_length_payload() {
    // Degenerate packet with length = 0 — fields default to zero.
    let mut packet = [0u8; 31];
    packet[0] = 0x20;
    packet[1] = 0x01;
    packet[2] = 0; // length = 0
    let sum: u8 = packet.iter().fold(0u8, |a, &b| a.wrapping_add(b));
    packet[3] = packet[3].wrapping_sub(sum);
    let decoded = DynamicHdrFragment::decode(&packet).unwrap();
    assert!(decoded.iter_warnings().next().is_none());
    assert_eq!(decoded.value.chunk_len, 0);
}

// --- decode_sequence tests ---

#[test]
fn dynamic_hdr_decode_sequence_empty_returns_error() {
    assert!(matches!(
        DynamicHdrInfoFrame::decode_sequence(&[]),
        Err(DecodeError::EmptySequence)
    ));
}







#[test]
fn dynamic_hdr_decode_sequence_truncated_returns_error() {
    let mut p0 = make_packet(0, 23, 0x04, &[0u8; 23]);
    p0[2] = 28; // > 27
    assert!(matches!(
        DynamicHdrInfoFrame::decode_sequence(&[p0]),
        Err(DecodeError::Truncated { claimed: 28 })
    ));
}



#[test]
fn dynamic_hdr_decode_sequence_inconsistent_total_bytes_warning() {
    let p0 = make_packet(0, 46, 0x04, &[0u8; 23]);
    // p1 declares a different total_bytes.
    let p1 = make_packet(1, 99, 0x04, &[0u8; 23]);
    let decoded = DynamicHdrInfoFrame::decode_sequence(&[p0, p1]).unwrap();
    assert!(decoded.iter_warnings().any(|w| matches!(
        w,
        DynamicHdrWarning::InconsistentTotalBytes {
            packet: 1,
            expected: 46,
            found: 99,
        }
    )));
}

#[test]
fn dynamic_hdr_decode_sequence_inconsistent_format_id_warning() {
    let p0 = make_packet(0, 46, 0x04, &[0u8; 23]);
    let p1 = make_packet(1, 46, 0x02, &[0u8; 23]);
    let decoded = DynamicHdrInfoFrame::decode_sequence(&[p0, p1]).unwrap();
    assert!(decoded.iter_warnings().any(|w| matches!(
        w,
        DynamicHdrWarning::InconsistentFormatId {
            packet: 1,
            expected: 0x04,
            found: 0x02,
        }
    )));
}

// --- IntoPackets / round-trip tests ---

#[test]
fn dynamic_hdr_decode_sequence_unknown_payload_roundtrip() {
    // 50-byte payload → 3 packets (23 + 23 + 4).
    let original_payload: Vec<u8> = (0u8..50).collect();
    let frame = DynamicHdrInfoFrame::Unknown {
        format_id: 0x07,
        payload: original_payload.clone(),
    };

    let encoded = frame.into_packets();
    assert!(encoded.iter_warnings().next().is_none());

    let packets: Vec<[u8; 31]> = encoded.value.collect_packets();
    assert_eq!(packets.len(), 3);

    let decoded = DynamicHdrInfoFrame::decode_sequence(&packets).unwrap();
    assert!(decoded.iter_warnings().next().is_none());
    assert_eq!(
        decoded.value,
        DynamicHdrInfoFrame::Unknown {
            format_id: 0x07,
            payload: original_payload,
        }
    );
}

#[test]
fn dynamic_hdr_into_packets_seq_nums_sequential() {
    let frame = DynamicHdrInfoFrame::Unknown {
        format_id: 0x04,
        payload: vec![0u8; 50],
    };
    for (expected_seq, packet) in frame.into_packets().value.collect_packets().into_iter().enumerate() {
        assert_eq!(packet[4], expected_seq as u8);
    }
}

#[test]
fn dynamic_hdr_into_packets_total_bytes_consistent() {
    let payload_len: u16 = 50;
    let frame = DynamicHdrInfoFrame::Unknown {
        format_id: 0x04,
        payload: vec![0u8; payload_len as usize],
    };
    for packet in frame.into_packets().value.collect_packets() {
        let tb = u16::from_le_bytes([packet[5], packet[6]]);
        assert_eq!(tb, payload_len);
    }
}

#[test]
fn dynamic_hdr_into_packets_all_checksums_valid() {
    let frame = DynamicHdrInfoFrame::Unknown {
        format_id: 0x04,
        payload: vec![0xABu8; 50],
    };
    for packet in frame.into_packets().value.collect_packets() {
        let sum: u8 = packet.iter().fold(0u8, |a, &b| a.wrapping_add(b));
        assert_eq!(sum, 0, "packet checksum must make all-bytes sum equal 0");
    }
}

#[test]
fn dynamic_hdr_into_packets_final_partial_chunk() {
    // 24 bytes → 2 packets: first full (23 bytes), second partial (1 byte).
    let frame = DynamicHdrInfoFrame::Unknown {
        format_id: 0x04,
        payload: vec![0xFFu8; 24],
    };
    let packets: Vec<[u8; 31]> = frame.into_packets().value.collect_packets();
    assert_eq!(packets.len(), 2);
    // length field = 4 + chunk_len
    assert_eq!(packets[0][2], 4 + 23);
    assert_eq!(packets[1][2], 4 + 1);
    // trailing bytes of the second packet must be zero-padded.
    for &b in &packets[1][9..] {
        assert_eq!(b, 0);
    }
}

#[test]
fn dynamic_hdr_into_packets_empty_payload_yields_no_packets() {
    let frame = DynamicHdrInfoFrame::Unknown {
        format_id: 0x04,
        payload: vec![],
    };
    assert!(frame.into_packets().value.next().is_none());
}

#[test]
fn dynamic_hdr_decode_sequence_single_packet_unknown_format() {
    let packet = make_packet(0, 23, 0xFF, &[0xAAu8; 23]);
    let decoded = DynamicHdrInfoFrame::decode_sequence(&[packet]).unwrap();
    assert!(decoded.iter_warnings().next().is_none());
    assert_eq!(
        decoded.value,
        DynamicHdrInfoFrame::Unknown {
            format_id: 0xFF,
            payload: vec![0xAAu8; 23],
        }
    );
}

#[test]
fn dynamic_hdr_decode_sequence_multi_packet_payload_assembled() {
    let p0 = make_packet(0, 46, 0xFF, &[0xAAu8; 23]);
    let p1 = make_packet(1, 46, 0xFF, &[0xBBu8; 23]);
    let decoded = DynamicHdrInfoFrame::decode_sequence(&[p0, p1]).unwrap();
    assert!(decoded.iter_warnings().next().is_none());
    {
        let expected: Vec<u8> = [0xAAu8; 23]
            .iter()
            .chain([0xBBu8; 23].iter())
            .copied()
            .collect();
        assert_eq!(
            decoded.value,
            DynamicHdrInfoFrame::Unknown {
                format_id: 0xFF,
                payload: expected,
            }
        );
    }
}

#[test]
fn dynamic_hdr_decode_sequence_checksum_mismatch_warning() {
    let mut p0 = make_packet(0, 23, 0xFF, &[0u8; 23]);
    p0[3] = p0[3].wrapping_add(1); // corrupt checksum
    let decoded = DynamicHdrInfoFrame::decode_sequence(&[p0]).unwrap();
    assert!(
        decoded
            .iter_warnings()
            .any(|w| matches!(w, DynamicHdrWarning::ChecksumMismatch { .. }))
    );
}

#[test]
fn dynamic_hdr_decode_sequence_out_of_order_seq_num_warning() {
    // seq_num = 5 in a packet at index 0.
    let mut p0 = make_packet(0, 23, 0xFF, &[0u8; 23]);
    p0[4] = 5;
    // Recompute checksum after tampering.
    let sum: u8 = p0.iter().fold(0u8, |a, &b| a.wrapping_add(b));
    p0[3] = p0[3].wrapping_sub(sum);
    let decoded = DynamicHdrInfoFrame::decode_sequence(&[p0]).unwrap();
    assert!(decoded.iter_warnings().any(|w| matches!(
        w,
        DynamicHdrWarning::OutOfOrderPacket { index: 0, found: 5 }
    )));
}
