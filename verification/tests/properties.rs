use cartouche::audio::{
    AudioCodingType, AudioInfoFrame, ChannelCount, LfePlaybackLevel, SampleFrequency, SampleSize,
};
use cartouche::bytes::read_le16;
use cartouche::checksum::{assemble_packet, compute_checksum, expected_checksum, packet_sum};
use cartouche::decode;
use cartouche::decoded::Decoded;
use cartouche::dynamic_hdr::fields::{read_fields, write_fields};
use cartouche::dynamic_hdr::{
    BitReader, BitWriter, DynamicHdrFragment, DynamicHdrInfoFrame, Hdr10PlusMetadata, SlHdrBody,
    SlHdrExtension, SlHdrMdcvInfo, SlHdrMetadata, SlHdrMode1, SlHdrPayload, SlHdrPictureInfo,
    SlHdrTable127,
};
use cartouche::encode::IntoPackets;
use cartouche::error::DecodeError;
use cartouche::frame::{InfoFrame, InfoFramePacket};
use cartouche::hdr_static::{Eotf, HdrStaticInfoFrame, StaticMetadata, StaticMetadataType1};
use cartouche::vocab::{HdmiDscMaxSlices, HdmiForumFrl};
use cartouche::warn::{AudioWarning, DynamicHdrWarning, Warning};

fn audio_frame() -> AudioInfoFrame {
    AudioInfoFrame {
        coding_type: AudioCodingType::Lpcm,
        channel_count: ChannelCount::Count(2),
        sample_freq: SampleFrequency::Hz44100,
        sample_size: SampleSize::Bits16,
        coding_ext: 0,
        channel_allocation: 0,
        lfe_playback_level: LfePlaybackLevel::NoInfo,
        downmix_inhibit: false,
    }
}

fn fix_checksum(packet: &mut [u8; 31]) {
    let sum: u8 = packet.iter().fold(0u8, |a, &b| a.wrapping_add(b));
    packet[3] = packet[3].wrapping_sub(sum);
}

// --- shared vocabulary (decoded through the display_types crate) ---

#[test]
fn frl_from_raw_names_each_defined_nibble() {
    assert_eq!(HdmiForumFrl::from_raw(0), HdmiForumFrl::NotSupported);
    assert_eq!(HdmiForumFrl::from_raw(3), HdmiForumFrl::Rate6Gbps4Lanes);
    assert_eq!(HdmiForumFrl::from_raw(6), HdmiForumFrl::Rate12Gbps4Lanes);
    for raw in 0u8..=6 {
        assert_eq!(HdmiForumFrl::from_raw(raw).raw(), raw);
    }
}

#[test]
fn frl_from_raw_reserved_nibble_is_not_supported() {
    assert_eq!(HdmiForumFrl::from_raw(7), HdmiForumFrl::NotSupported);
    assert_eq!(HdmiForumFrl::from_raw(15), HdmiForumFrl::NotSupported);
}

#[test]
fn dsc_slices_from_raw_round_trips_and_reserves() {
    assert_eq!(HdmiDscMaxSlices::from_raw(7), HdmiDscMaxSlices::Slices16);
    assert_eq!(HdmiDscMaxSlices::from_raw(2), HdmiDscMaxSlices::Slices2);
    assert_eq!(HdmiDscMaxSlices::from_raw(8), HdmiDscMaxSlices::NotSupported);
    for raw in 0u8..=7 {
        assert_eq!(HdmiDscMaxSlices::from_raw(raw).raw(), raw);
    }
}

// --- checksum and byte helpers ---

#[test]
fn assembled_packet_sums_to_zero() {
    let mut hp = [0u8; 30];
    hp[0] = 0x84;
    hp[1] = 0x01;
    hp[2] = 10;
    hp[3] = 0x55;
    let packet = assemble_packet(&hp);
    assert_eq!(packet[3], compute_checksum(&hp));
    assert_eq!(packet[4], 0x55);
    assert_eq!(packet_sum(&packet), 0);
    assert_eq!(expected_checksum(&packet), packet[3]);
}

#[test]
fn expected_checksum_ignores_the_carried_byte() {
    let mut hp = [0u8; 30];
    hp[0] = 0x82;
    hp[1] = 0x02;
    hp[2] = 0x0D;
    let mut packet = assemble_packet(&hp);
    packet[3] = 0x00;
    assert_eq!(expected_checksum(&packet), 0x6F);
    assert_eq!(packet_sum(&packet), 0x91);
}

#[test]
fn le16_reads_low_byte_first() {
    assert_eq!(read_le16(0x34, 0x12), 0x1234);
    assert_eq!(read_le16(0xFF, 0x00), 0x00FF);
}

// --- Decoded and warnings ---

#[test]
fn warnings_keep_their_order() {
    let mut d: Decoded<u8, u8> = Decoded::new(1);
    d.push_warning(3);
    d.push_warning(1);
    d.push_warning(2);
    let ws: Vec<u8> = d.iter_warnings().copied().collect();
    assert_eq!(ws, vec![3, 1, 2]);
    assert_eq!(d.value, 1);
}

#[test]
fn wrap_maps_value_and_each_warning_in_order() {
    let mut d: Decoded<u8, AudioWarning> = Decoded::new(5);
    d.push_warning(AudioWarning::ReservedFieldNonZero { byte: 4, bit: 7 });
    d.push_warning(AudioWarning::ChecksumMismatch { expected: 1, found: 2 });
    let lifted = d.wrap(|v| u16::from(v) * 100, Warning::Audio);
    assert_eq!(lifted.value, 500u16);
    assert_eq!(
        lifted.warnings,
        vec![
            Warning::Audio(AudioWarning::ReservedFieldNonZero { byte: 4, bit: 7 }),
            Warning::Audio(AudioWarning::ChecksumMismatch { expected: 1, found: 2 }),
        ]
    );
    let mut e: Decoded<(), DynamicHdrWarning> = Decoded::new(());
    e.push_warning(DynamicHdrWarning::OutOfOrderPacket { index: 1, found: 0 });
    let dynamic = e.wrap(|_| 0u8, Warning::DynamicHdr);
    assert_eq!(
        dynamic.warnings,
        vec![Warning::DynamicHdr(DynamicHdrWarning::OutOfOrderPacket { index: 1, found: 0 })]
    );
}

// --- single-packet frames ---

#[test]
fn audio_checksum_warning_names_expected_and_found() {
    let mut packet = audio_frame().into_packets().value.next().unwrap();
    let good = packet[3];
    packet[3] = good.wrapping_add(5);
    let decoded = AudioInfoFrame::decode(&packet).unwrap();
    assert_eq!(
        decoded.warnings,
        vec![AudioWarning::ChecksumMismatch { expected: good, found: good.wrapping_add(5) }]
    );
    assert_eq!(decoded.value, audio_frame());
}

#[test]
fn audio_decode_then_encode_is_stable() {
    let mut packet = audio_frame().into_packets().value.next().unwrap();
    packet[4] |= 0x80;
    fix_checksum(&mut packet);
    let once = AudioInfoFrame::decode(&packet).unwrap().value;
    let again = once.clone().into_packets().value.next().unwrap();
    let twice = AudioInfoFrame::decode(&again).unwrap();
    assert!(twice.warnings.is_empty());
    assert_eq!(twice.value, once);
}

#[test]
fn length_of_27_is_accepted_and_28_refused() {
    let mut packet = audio_frame().into_packets().value.next().unwrap();
    packet[2] = 27;
    fix_checksum(&mut packet);
    assert!(AudioInfoFrame::decode(&packet).is_ok());
    packet[2] = 255;
    assert!(matches!(
        AudioInfoFrame::decode(&packet),
        Err(DecodeError::Truncated { claimed: 255 })
    ));
}

#[test]
fn single_packet_iterator_yields_once() {
    let mut it = audio_frame().into_packets().value;
    assert!(it.next().is_some());
    assert!(it.next().is_none());
    assert!(it.next().is_none());
    assert_eq!(audio_frame().into_packets().value.collect_packets().len(), 1);
}

#[test]
fn hdr_static_round_trip_through_top_level_decode() {
    let frame = HdrStaticInfoFrame {
        eotf: Eotf::Hlg,
        metadata: StaticMetadata::Type1(StaticMetadataType1 {
            primaries_green: [1, 2],
            primaries_blue: [3, 4],
            primaries_red: [5, 6],
            white_point: [7, 8],
            max_mastering_luminance: 9,
            min_mastering_luminance: 10,
            max_cll: 11,
            max_fall: 12,
        }),
    };
    let packet = frame.clone().into_packets().value.next().unwrap();
    let decoded = decode(&packet).unwrap();
    assert!(decoded.warnings.is_empty());
    assert_eq!(decoded.value, InfoFramePacket::HdrStatic(frame));
}

#[test]
fn unknown_frame_round_trips_through_top_level_decode() {
    let mut payload = [0u8; 27];
    for (i, b) in payload.iter_mut().enumerate() {
        *b = i as u8 * 3;
    }
    let frame = InfoFrame::Unknown { type_code: 0x7E, version: 9, payload };
    let packet = frame.into_packets().value.next().unwrap();
    assert_eq!(packet_sum(&packet), 0);
    let decoded = decode(&packet).unwrap();
    assert_eq!(
        decoded.value,
        InfoFramePacket::Unknown { type_code: 0x7E, version: 9, payload }
    );
}

// --- Dynamic HDR ---

#[test]
fn dynamic_hdr_packet_count_is_payload_over_chunk_rounded_up() {
    for (len, count) in [(0usize, 0usize), (1, 1), (23, 1), (24, 2), (46, 2), (47, 3)] {
        let frame = DynamicHdrInfoFrame::Unknown { format_id: 0x09, payload: vec![7u8; len] };
        assert_eq!(frame.into_packets().value.collect_packets().len(), count);
    }
}

#[test]
fn dynamic_hdr_unknown_payload_round_trips() {
    let payload: Vec<u8> = (0u8..100).collect();
    let frame = DynamicHdrInfoFrame::Unknown { format_id: 0x33, payload: payload.clone() };
    let packets = frame.into_packets().value.collect_packets();
    let decoded = DynamicHdrInfoFrame::decode_sequence(&packets).unwrap();
    assert!(decoded.warnings.is_empty());
    assert_eq!(decoded.value, DynamicHdrInfoFrame::Unknown { format_id: 0x33, payload });
}

#[test]
fn dynamic_hdr_fragment_reports_header_fields() {
    let frame = DynamicHdrInfoFrame::Unknown { format_id: 0x0B, payload: vec![0x11u8; 30] };
    let packets = frame.into_packets().value.collect_packets();
    let second = DynamicHdrFragment::decode(&packets[1]).unwrap();
    assert_eq!(second.value.seq_num, 1);
    assert_eq!(second.value.total_bytes, 30);
    assert_eq!(second.value.format_id, 0x0B);
    assert_eq!(second.value.chunk_len, 7);
    assert_eq!(&second.value.chunk[..7], &[0x11u8; 7]);
    match decode(&packets[0]).unwrap().value {
        InfoFramePacket::DynamicHdrFragment(f) => assert_eq!(f.chunk_len, 23),
        other => panic!("expected a fragment, got {other:?}"),
    }
}

#[test]
fn dynamic_hdr_hdr10plus_short_payload_is_malformed() {
    let frame = DynamicHdrInfoFrame::Unknown { format_id: 0x04, payload: vec![0u8; 10] };
    let packets = frame.into_packets().value.collect_packets();
    assert!(matches!(
        DynamicHdrInfoFrame::decode_sequence(&packets),
        Err(DecodeError::MalformedPayload)
    ));
}

// --- bit-level readers and writers ---

#[test]
fn bit_reader_past_the_end_reports_malformed_and_keeps_position() {
    let data = [0xA5u8];
    let mut r = BitReader::new(&data);
    assert_eq!(r.read_u8(3).unwrap(), 0b101);
    assert!(matches!(r.read_u8(6), Err(DecodeError::MalformedPayload)));
    assert_eq!(r.remaining_bits(), 5);
    assert_eq!(r.read_u8(5).unwrap(), 0b00101);
    assert_eq!(r.remaining_bits(), 0);
}

#[test]
fn bit_writer_pads_the_final_byte_with_zeros() {
    let mut w = BitWriter::new();
    w.write_u8(0b111, 3);
    assert_eq!(w.bit_len(), 3);
    let (buf, len) = w.finish();
    assert_eq!(len, 1);
    assert_eq!(buf[0], 0b1110_0000);
}

#[test]
fn field_layouts_round_trip() {
    let widths = [3u8, 17, 1, 12, 32];
    let values = [5u32, 100_000, 1, 4095, 0xDEAD_BEEF];
    let mut w = BitWriter::new();
    write_fields(&mut w, &values, &widths);
    let (buf, len) = w.finish();
    assert_eq!(len, 9);
    let mut r = BitReader::new(&buf[..len]);
    assert_eq!(read_fields(&mut r, &widths).unwrap(), values.to_vec());
    assert_eq!(r.remaining_bits(), 7);
    let mut short = BitReader::new(&buf[..4]);
    assert!(matches!(read_fields(&mut short, &widths), Err(DecodeError::MalformedPayload)));
}

#[test]
fn audio_pb2_bit5_is_reserved() {
    let mut packet = audio_frame().into_packets().value.next().unwrap();
    packet[5] |= 0x20;
    fix_checksum(&mut packet);
    let decoded = AudioInfoFrame::decode(&packet).unwrap();
    assert_eq!(
        decoded.warnings,
        vec![AudioWarning::ReservedFieldNonZero { byte: 5, bit: 5 }]
    );
    assert_eq!(decoded.value, audio_frame());
}

/// An HDR10+ payload whose targeted peak luminance table declares `rows`
/// rows of one column, followed by one all-zero window.
fn hdr10plus_with_table_rows(rows: u8) -> Vec<u8> {
    let mut w = BitWriter::new();
    w.write_u8(0x01, 8);
    w.write_u8(0x00, 8);
    w.write_u8(0, 2);
    w.write_u32(1000, 27);
    w.write_bool(true);
    w.write_u8(rows, 5);
    w.write_u8(1, 5);
    for _ in 0..rows.min(25) {
        w.write_u8(7, 4);
    }
    w.write_u8(0, 2);
    for _ in 0..10 {
        w.write_u16(0, 16);
    }
    w.write_bool(false);
    for _ in 0..4 {
        w.write_u32(0, 17);
    }
    w.write_u8(0, 4);
    w.write_u16(0, 10);
    w.write_bool(false);
    w.write_bool(false);
    w.write_bool(false);
    let (buf, len) = w.finish();
    buf[..len].to_vec()
}

#[test]
fn hdr10plus_table_of_25_rows_decodes() {
    let payload = hdr10plus_with_table_rows(25);
    let m = Hdr10PlusMetadata::decode(&payload, &mut Vec::new()).unwrap();
    let t = m.targeted_system_display_actual_peak_luminance.unwrap();
    assert_eq!(t.num_rows, 25);
    assert_eq!(t.num_cols, 1);
    assert_eq!(t.entries[24][0], 7);
    assert_eq!(t.entries[24][1], 0);
}

#[test]
fn hdr10plus_table_of_26_rows_is_malformed() {
    let payload = hdr10plus_with_table_rows(26);
    assert!(matches!(
        Hdr10PlusMetadata::decode(&payload, &mut Vec::new()),
        Err(DecodeError::MalformedPayload)
    ));
}

#[test]
fn field_values_wider_than_their_field_keep_their_low_bits() {
    let widths = [4u8, 9];
    let values = [0x1Fu32, 0xFFFF];
    let mut w = BitWriter::new();
    write_fields(&mut w, &values, &widths);
    let (buf, len) = w.finish();
    assert_eq!(len, 2);
    let mut r = BitReader::new(&buf[..len]);
    assert_eq!(read_fields(&mut r, &widths).unwrap(), vec![0xF, 0x1FF]);
    assert_eq!(r.remaining_bits(), 3);
}

#[test]
fn slhdr_largest_body_round_trips() {
    let mut table = SlHdrTable127 { count: 127, x: [0u16; 127], y: [0u16; 127] };
    for i in 0..127 {
        table.x[i] = i as u16 * 3;
        table.y[i] = 0xFFFF - i as u16;
    }
    let picture = SlHdrPictureInfo { primaries: 9, max_luminance: 1000, min_luminance: 5 };
    let meta = SlHdrMetadata {
        itu_t_t35_country_code: 0xB5,
        terminal_provider_code: 0x003A,
        terminal_provider_oriented_code_message_idc: 0,
        sl_hdr_mode_value_minus1: 0,
        sl_hdr_spec_major_version_idc: 1,
        sl_hdr_spec_minor_version_idc: 0,
        sl_hdr_cancel_flag: false,
        body: Some(SlHdrBody {
            sl_hdr_persistence_flag: true,
            sl_hdr_payload_mode: 1,
            original_picture_info: Some(picture.clone()),
            target_picture_info: Some(picture),
            src_mdcv_info: Some(SlHdrMdcvInfo::default()),
            matrix_coefficient_values: [1, 2, 3, 4],
            chroma_to_luma_injection: [5, 6],
            k_coefficient_values: [7, 8, 9],
            payload: SlHdrPayload::Mode1(Box::new(SlHdrMode1 {
                lm_uniform_sampling_flag: false,
                luminance_mapping: table.clone(),
                cc_uniform_sampling_flag: false,
                colour_correction: table,
            })),
            extension: Some(SlHdrExtension { extension_6bits: 5, data: vec![0xAB; 1023] }),
        }),
    };
    let frame = DynamicHdrInfoFrame::SlHdr(Box::new(meta.clone()));
    let packets = frame.into_packets().value.collect_packets();
    assert_eq!(packets.len(), 92);
    let decoded = DynamicHdrInfoFrame::decode_sequence(&packets).unwrap();
    assert!(decoded.warnings.is_empty());
    assert_eq!(decoded.value, DynamicHdrInfoFrame::SlHdr(Box::new(meta)));
}

#[test]
fn dynamic_hdr_iterator_numbers_packets_then_stops() {
    let frame = DynamicHdrInfoFrame::Unknown { format_id: 0x21, payload: vec![1u8; 50] };
    let mut it = frame.into_packets().value;
    for expected in 0u8..3 {
        let packet = it.next().unwrap();
        assert_eq!(packet[4], expected);
    }
    assert!(it.next().is_none());
    assert!(it.next().is_none());
}
