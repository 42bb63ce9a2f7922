use vstd::prelude::*;

use crate::bytes::{
    array_of, bit_set, le16, lemma_array_of, lemma_low_bits_bound, read_le16, warn_if,
};
use crate::checksum::{
    assemble_packet, checksum_for, checksum_valid, covered_bytes, expected_checksum,
    lemma_wire_packet_valid, packet_sum, wire_packet,
};
use crate::decoded::Decoded;
use crate::encode::{packets_view, IntoPackets, SinglePacketIter};
use crate::error::DecodeError;
use crate::warn::HdrStaticWarning;

verus! {

/// Electro-Optical Transfer Function (EOTF field, PB1 bits 2–0).
///
/// Identifies the transfer function applied to the content. This governs how
/// the sink maps signal values to display luminance.
#[derive(Debug, Clone, Copy, PartialEq, Eq, Structural)]
#[non_exhaustive]
pub enum Eotf {
    /// Traditional gamma, SDR luminance range (EOTF = 0).
    TraditionalGammaSdr,
    /// Traditional gamma, HDR luminance range (EOTF = 1).
    TraditionalGammaHdr,
    /// SMPTE ST 2084 (Perceptual Quantizer / PQ), used for HDR10 (EOTF = 2).
    Pq,
    /// Hybrid Log-Gamma (HLG), ITU-R BT.2100 (EOTF = 3).
    Hlg,
}

/// Type 1 static metadata (SMPTE ST 2086 mastering display metadata).
///
/// Carries the chromaticity coordinates of the mastering display primaries and
/// white point, the mastering display luminance range, and the content light
/// level metadata (MaxCLL / MaxFALL).
///
/// All chromaticity values are in units of 0.00002 (i.e. divide by 50 000 to
/// get CIE 1931 xy). Mastering luminance values are in cd/m²; MaxCLL and
/// MaxFALL are in cd/m².
///
/// Primary order follows CTA-861 / SMPTE ST 2086: green first, then blue,
/// then red.
#[derive(Debug, Clone, PartialEq, Eq)]
pub struct StaticMetadataType1 {
    /// Mastering display green primary chromaticity (x, y) × 50 000.
    pub primaries_green: [u16; 2],
    /// Mastering display blue primary chromaticity (x, y) × 50 000.
    pub primaries_blue: [u16; 2],
    /// Mastering display red primary chromaticity (x, y) × 50 000.
    pub primaries_red: [u16; 2],
    /// Mastering display white point (x, y) × 50 000.
    pub white_point: [u16; 2],
    /// Maximum mastering display luminance in cd/m².
    pub max_mastering_luminance: u16,
    /// Minimum mastering display luminance in cd/m².
    pub min_mastering_luminance: u16,
    /// Maximum Content Light Level (MaxCLL) in cd/m².
    pub max_cll: u16,
    /// Maximum Frame-Average Light Level (MaxFALL) in cd/m².
    pub max_fall: u16,
}

/// Static metadata payload, selected by the descriptor ID field (PB1 bits 5–3).
#[derive(Debug, Clone, PartialEq, Eq)]
#[non_exhaustive]
pub enum StaticMetadata {
    /// Type 1 descriptor (ID = 0): SMPTE ST 2086 + MaxCLL/MaxFALL.
    Type1(StaticMetadataType1),
    /// An unrecognised descriptor ID.
    ///
    /// `data` carries the raw payload bytes PB2–PB27 verbatim.
    Unknown {
        /// The raw descriptor ID value from PB1 bits 5–3.
        descriptor_id: u8,
        /// Raw payload bytes following the EOTF/descriptor byte (PB2–PB27).
        data: [u8; 26],
    },
}

/// An HDR Static Metadata InfoFrame (CTA-861, type code 0x87).
///
/// Carries the EOTF and the static HDR metadata for the content being
/// transmitted. Required for HDR10 and HLG content.
#[derive(Debug, Clone, PartialEq, Eq)]
pub struct HdrStaticInfoFrame {
    /// Electro-optical transfer function (EOTF, PB1 bits 2–0).
    pub eotf: Eotf,
    /// Static metadata payload, identified by the descriptor ID in PB1 bits 5–3.
    pub metadata: StaticMetadata,
}

/// The EOTF named by a 3-bit code; undefined codes fall back to
/// [`Eotf::TraditionalGammaSdr`].
pub open spec fn eotf_of_code(e: u8) -> Eotf {
    match e {
        1 => Eotf::TraditionalGammaHdr,
        2 => Eotf::Pq,
        3 => Eotf::Hlg,
        _ => Eotf::TraditionalGammaSdr,
    }
}

/// The 3-bit code of an EOTF.
pub open spec fn code_of_eotf(e: Eotf) -> u8 {
    match e {
        Eotf::TraditionalGammaSdr => 0,
        Eotf::TraditionalGammaHdr => 1,
        Eotf::Pq => 2,
        Eotf::Hlg => 3,
    }
}

/// The little-endian 16-bit value at packet bytes `i` and `i + 1`.
pub open spec fn packet_u16(p: Seq<u8>, i: int) -> u16 {
    le16(p[i], p[i + 1])
}

/// The Type 1 metadata carried by packet bytes 5–28.
pub open spec fn type1_of(p: Seq<u8>) -> StaticMetadataType1 {
    StaticMetadataType1 {
        primaries_green: array_of(seq![packet_u16(p, 5), packet_u16(p, 7)]),
        primaries_blue: array_of(seq![packet_u16(p, 9), packet_u16(p, 11)]),
        primaries_red: array_of(seq![packet_u16(p, 13), packet_u16(p, 15)]),
        white_point: array_of(seq![packet_u16(p, 17), packet_u16(p, 19)]),
        max_mastering_luminance: packet_u16(p, 21),
        min_mastering_luminance: packet_u16(p, 23),
        max_cll: packet_u16(p, 25),
        max_fall: packet_u16(p, 27),
    }
}

/// The frame that a 31-byte packet decodes to (valid when `packet[2] <= 27`).
pub open spec fn hdr_static_frame_of(p: Seq<u8>) -> HdrStaticInfoFrame {
    let id = (p[4] >> 3u8) & 0x07u8;
    HdrStaticInfoFrame {
        eotf: eotf_of_code(p[4] & 0x07u8),
        metadata: if id == 0 {
            StaticMetadata::Type1(type1_of(p))
        } else {
            StaticMetadata::Unknown { descriptor_id: id, data: array_of(p.subrange(5, 31)) }
        },
    }
}

/// The warnings decoding a packet produces, in order: checksum, reserved bits
/// PB1[6..7], an undefined EOTF, an unrecognised descriptor ID.
pub open spec fn hdr_static_warnings_of(p: Seq<u8>) -> Seq<HdrStaticWarning> {
    let eotf_raw = p[4] & 0x07u8;
    let id = (p[4] >> 3u8) & 0x07u8;
    warn_if(
        !checksum_valid(p),
        HdrStaticWarning::ChecksumMismatch { expected: checksum_for(covered_bytes(p)), found: p[3] },
    ) + warn_if(bit_set(p[4], 6), HdrStaticWarning::ReservedFieldNonZero { byte: 4, bit: 6 })
        + warn_if(bit_set(p[4], 7), HdrStaticWarning::ReservedFieldNonZero { byte: 4, bit: 7 })
        + warn_if(eotf_raw > 3, HdrStaticWarning::UnknownEnumValue { field: "eotf", raw: eotf_raw })
        + warn_if(
        id != 0,
        HdrStaticWarning::UnknownEnumValue { field: "static_metadata_descriptor_id", raw: id },
    )
}

/// The two little-endian bytes of a 16-bit value.
pub open spec fn le_bytes(v: u16) -> Seq<u8> {
    seq![(v % 256) as u8, (v / 256) as u8]
}

/// The 30 checksum-covered bytes an HDR Static Metadata InfoFrame encodes to:
/// type 0x87, version 1, length 26, PB1 with descriptor ID and EOTF, then the
/// metadata (Type 1 fields little-endian followed by a zero PB26, or the raw
/// bytes of an unknown descriptor).
pub open spec fn hdr_static_covered_of(f: HdrStaticInfoFrame) -> Seq<u8> {
    let e = code_of_eotf(f.eotf);
    match f.metadata {
        StaticMetadata::Type1(md) => seq![0x87u8, 0x01u8, 26u8, e & 0x07u8]
            + le_bytes(md.primaries_green[0]) + le_bytes(md.primaries_green[1])
            + le_bytes(md.primaries_blue[0]) + le_bytes(md.primaries_blue[1])
            + le_bytes(md.primaries_red[0]) + le_bytes(md.primaries_red[1])
            + le_bytes(md.white_point[0]) + le_bytes(md.white_point[1])
            + le_bytes(md.max_mastering_luminance) + le_bytes(md.min_mastering_luminance)
            + le_bytes(md.max_cll) + le_bytes(md.max_fall) + seq![0u8, 0u8],
        StaticMetadata::Unknown { descriptor_id, data } => seq![
            0x87u8,
            0x01u8,
            26u8,
            ((descriptor_id & 0x07u8) << 3u8) | (e & 0x07u8),
        ] + data@,
    }
}

/// An HDR Static Metadata InfoFrame that survives a round trip: an unknown
/// descriptor carries a non-zero 3-bit ID (ID 0 is Type 1).
pub open spec fn hdr_static_frame_wf(f: HdrStaticInfoFrame) -> bool {
    match f.metadata {
        StaticMetadata::Type1(_) => true,
        StaticMetadata::Unknown { descriptor_id, .. } => 1 <= descriptor_id <= 7,
    }
}

fn decode_eotf(e: u8) -> (r: Eotf)
    ensures
        r == eotf_of_code(e),
{
    match e {
        1 => Eotf::TraditionalGammaHdr,
        2 => Eotf::Pq,
        3 => Eotf::Hlg,
        _ => Eotf::TraditionalGammaSdr,
    }
}

fn encode_eotf(e: Eotf) -> (r: u8)
    ensures
        r == code_of_eotf(e),
{
    match e {
        Eotf::TraditionalGammaSdr => 0,
        Eotf::TraditionalGammaHdr => 1,
        Eotf::Pq => 2,
        Eotf::Hlg => 3,
    }
}

fn push_reserved(ws: &mut Vec<HdrStaticWarning>, b: u8, byte: u8, bit: u8)
    requires
        bit < 8,
    ensures
        final(ws)@ == old(ws)@ + warn_if(
            bit_set(b, bit),
            HdrStaticWarning::ReservedFieldNonZero { byte, bit },
        ),
{
    if (b >> bit) & 1 == 1 {
        ws.push(HdrStaticWarning::ReservedFieldNonZero { byte, bit });
    }
    assert(ws@ =~= old(ws)@ + warn_if(
        bit_set(b, bit),
        HdrStaticWarning::ReservedFieldNonZero { byte, bit },
    ));
}

/// The warnings decoding `packet` records, in order.
fn hdr_static_warnings(packet: &[u8; 31]) -> (ws: Vec<HdrStaticWarning>)
    ensures
        ws@ == hdr_static_warnings_of(packet@),
{
    let ghost p = packet@;
    let mut ws: Vec<HdrStaticWarning> = Vec::new();
    if packet_sum(packet) != 0 {
        let expected = expected_checksum(packet);
        ws.push(HdrStaticWarning::ChecksumMismatch { expected, found: packet[3] });
    }
    assert(ws@ =~= warn_if(
        !checksum_valid(p),
        HdrStaticWarning::ChecksumMismatch { expected: checksum_for(covered_bytes(p)), found: p[3] },
    ));
    // PB1 (byte 4): bits[7:6] reserved, bits[5:3] = descriptor ID, bits[2:0] = EOTF
    push_reserved(&mut ws, packet[4], 4, 6);
    push_reserved(&mut ws, packet[4], 4, 7);
    let eotf_raw = packet[4] & 0x07;
    let id = (packet[4] >> 3) & 0x07;
    let ghost w1 = ws@;
    if eotf_raw > 3 {
        ws.push(HdrStaticWarning::UnknownEnumValue { field: "eotf", raw: eotf_raw });
    }
    let ghost w2 = ws@;
    assert(w2 =~= w1 + warn_if(eotf_raw > 3, HdrStaticWarning::UnknownEnumValue { field: "eotf", raw: eotf_raw }));
    if id != 0 {
        ws.push(HdrStaticWarning::UnknownEnumValue { field: "static_metadata_descriptor_id", raw: id });
    }
    assert(ws@ =~= w2 + warn_if(
        id != 0,
        HdrStaticWarning::UnknownEnumValue { field: "static_metadata_descriptor_id", raw: id },
    ));
    ws
}

/// Write the two little-endian bytes of `v` at `hp[i]` and `hp[i + 1]`.
fn write_le16(hp: &mut [u8; 30], i: usize, v: u16)
    requires
        i + 1 < 30,
    ensures
        final(hp)@ == old(hp)@.update(i as int, (v % 256) as u8).update(i + 1, (v / 256) as u8),
{
    hp[i] = (v % 256) as u8;
    hp[i + 1] = (v / 256) as u8;
}

impl HdrStaticInfoFrame {
    /// Decode an HDR Static Metadata InfoFrame from a 31-byte wire packet.
    ///
    /// # Errors
    ///
    /// Returns [`DecodeError::Truncated`] if `packet[2] > 27`.
    ///
    /// # Warnings
    ///
    /// The returned [`Decoded`] carries exactly the warnings
    /// [`hdr_static_warnings_of`] lists.
    pub fn decode(packet: &[u8; 31]) -> (r: Result<Decoded<HdrStaticInfoFrame, HdrStaticWarning>, DecodeError>)
        ensures
            packet@[2] > 27 ==> r == Err::<Decoded<HdrStaticInfoFrame, HdrStaticWarning>, DecodeError>(
                DecodeError::Truncated { claimed: packet@[2] },
            ),
            packet@[2] <= 27 ==> (r matches Ok(d) && d.value == hdr_static_frame_of(packet@)
                && d.warnings@ == hdr_static_warnings_of(packet@)),
    {
        let length = packet[2];
        if length > 27 {
            return Err(DecodeError::Truncated { claimed: length });
        }
        let ghost p = packet@;
        let pb1 = packet[4];
        let eotf = decode_eotf(pb1 & 0x07);
        let descriptor_id = (pb1 >> 3) & 0x07;
        let metadata = if descriptor_id == 0 {
            let md = StaticMetadataType1 {
                primaries_green: [read_le16(packet[5], packet[6]), read_le16(packet[7], packet[8])],
                primaries_blue: [read_le16(packet[9], packet[10]), read_le16(packet[11], packet[12])],
                primaries_red: [read_le16(packet[13], packet[14]), read_le16(packet[15], packet[16])],
                white_point: [read_le16(packet[17], packet[18]), read_le16(packet[19], packet[20])],
                max_mastering_luminance: read_le16(packet[21], packet[22]),
                min_mastering_luminance: read_le16(packet[23], packet[24]),
                max_cll: read_le16(packet[25], packet[26]),
                max_fall: read_le16(packet[27], packet[28]),
            };
            proof {
                assert(md.primaries_green@ =~= seq![packet_u16(p, 5), packet_u16(p, 7)]);
                assert(md.primaries_blue@ =~= seq![packet_u16(p, 9), packet_u16(p, 11)]);
                assert(md.primaries_red@ =~= seq![packet_u16(p, 13), packet_u16(p, 15)]);
                assert(md.white_point@ =~= seq![packet_u16(p, 17), packet_u16(p, 19)]);
                lemma_array_of(md.primaries_green);
                lemma_array_of(md.primaries_blue);
                lemma_array_of(md.primaries_red);
                lemma_array_of(md.white_point);
            }
            StaticMetadata::Type1(md)
        } else {
            let mut data = [0u8; 26];
            let mut i: usize = 0;
            while i < 26
                invariant
                    0 <= i <= 26,
                    p == packet@,
                    forall|j: int| 0 <= j < i ==> data@[j] == p[5 + j],
                decreases 26 - i,
            {
                data[i] = packet[5 + i];
                i += 1;
            }
            proof {
                assert(data@ =~= p.subrange(5, 31));
                lemma_array_of(data);
            }
            StaticMetadata::Unknown { descriptor_id, data }
        };
        let value = HdrStaticInfoFrame { eotf, metadata };
        let warnings = hdr_static_warnings(packet);
        Ok(Decoded { value, warnings })
    }
}

impl IntoPackets for HdrStaticInfoFrame {
    type Iter = SinglePacketIter;

    type Warning = HdrStaticWarning;

    /// Every frame of this type can be encoded.
    open spec fn can_encode(&self) -> bool {
        true
    }

    /// Encode to a single wire packet; encoding never warns.
    fn into_packets(self) -> (r: Decoded<SinglePacketIter, HdrStaticWarning>)
        ensures
            packets_view(r.value@) == seq![wire_packet(hdr_static_covered_of(self))],
            r.warnings@ == Seq::<HdrStaticWarning>::empty(),
    {
        let eotf_raw = encode_eotf(self.eotf);
        let mut hp = [0u8; 30];
        hp[0] = 0x87;
        hp[1] = 0x01;
        // PB1 plus 25 payload bytes: the packet always declares 26 payload bytes.
        hp[2] = 26;
        match &self.metadata {
            StaticMetadata::Type1(md) => {
                // descriptor_id = 0, so only the EOTF occupies PB1.
                hp[3] = eotf_raw & 0x07;
                write_le16(&mut hp, 4, md.primaries_green[0]);
                write_le16(&mut hp, 6, md.primaries_green[1]);
                write_le16(&mut hp, 8, md.primaries_blue[0]);
                write_le16(&mut hp, 10, md.primaries_blue[1]);
                write_le16(&mut hp, 12, md.primaries_red[0]);
                write_le16(&mut hp, 14, md.primaries_red[1]);
                write_le16(&mut hp, 16, md.white_point[0]);
                write_le16(&mut hp, 18, md.white_point[1]);
                write_le16(&mut hp, 20, md.max_mastering_luminance);
                write_le16(&mut hp, 22, md.min_mastering_luminance);
                write_le16(&mut hp, 24, md.max_cll);
                write_le16(&mut hp, 26, md.max_fall);
                // hp[28..30] = PB26 reserved, already zero.
            },
            StaticMetadata::Unknown { descriptor_id, data } => {
                hp[3] = ((*descriptor_id & 0x07) << 3) | (eotf_raw & 0x07);
                let mut i: usize = 0;
                while i < 26
                    invariant
                        0 <= i <= 26,
                        hp@.len() == 30,
                        hp@[0] == 0x87u8 && hp@[1] == 0x01u8 && hp@[2] == 26u8,
                        hp@[3] == ((*descriptor_id & 0x07u8) << 3u8) | (eotf_raw & 0x07u8),
                        forall|j: int| 0 <= j < i ==> hp@[4 + j] == data@[j],
                    decreases 26 - i,
                {
                    hp[4 + i] = data[i];
                    i += 1;
                }
            },
        }
        assert(hp@ =~= hdr_static_covered_of(self));
        let packet = assemble_packet(&hp);
        let r = Decoded::new(SinglePacketIter::new(packet));
        assert(packets_view(r.value@) =~= seq![wire_packet(hdr_static_covered_of(self))]);
        r
    }
}

proof fn lemma_hdr_static_pb1_bits(id: u8, e: u8)
    by (bit_vector)
    requires
        id < 8,
        e < 8,
    ensures
        ((((id & 0x07u8) << 3u8) | (e & 0x07u8)) >> 3u8) & 0x07u8 == id,
        (((id & 0x07u8) << 3u8) | (e & 0x07u8)) & 0x07u8 == e,
        ((((id & 0x07u8) << 3u8) | (e & 0x07u8)) >> 6u8) & 1u8 == 0u8,
        ((((id & 0x07u8) << 3u8) | (e & 0x07u8)) >> 7u8) & 1u8 == 0u8,
{
}

/// Round trip: encoding a well-formed HDR Static Metadata InfoFrame and
/// decoding the packet gives back the same frame; a Type 1 frame decodes with
/// no warnings, an unknown descriptor with exactly the unrecognised-descriptor
/// warning.
pub proof fn lemma_hdr_static_round_trip(f: HdrStaticInfoFrame)
    requires
        hdr_static_frame_wf(f),
    ensures
        wire_packet(hdr_static_covered_of(f))[2] <= 27,
        hdr_static_frame_of(wire_packet(hdr_static_covered_of(f))) == f,
        f.metadata is Type1 ==> hdr_static_warnings_of(wire_packet(hdr_static_covered_of(f)))
            == Seq::<HdrStaticWarning>::empty(),
        f.metadata matches StaticMetadata::Unknown { descriptor_id, .. } ==> hdr_static_warnings_of(
            wire_packet(hdr_static_covered_of(f)),
        ) == seq![
            HdrStaticWarning::UnknownEnumValue {
                field: "static_metadata_descriptor_id",
                raw: descriptor_id,
            },
        ],
{
    let hp = hdr_static_covered_of(f);
    assert(hp.len() == 30);
    lemma_wire_packet_valid(hp);
    let p = wire_packet(hp);
    let e = code_of_eotf(f.eotf);
    assert forall|i: int| 4 <= i < 31 implies p[i] == hp[i - 1] by {}
    match f.metadata {
        StaticMetadata::Type1(md) => {
            lemma_hdr_static_pb1_bits(0, e);
            assert(((0u8 & 0x07u8) << 3u8) | (e & 0x07u8) == e & 0x07u8) by (bit_vector);
            let t = type1_of(p);
            assert(t.primaries_green@ =~= md.primaries_green@);
            assert(t.primaries_blue@ =~= md.primaries_blue@);
            assert(t.primaries_red@ =~= md.primaries_red@);
            assert(t.white_point@ =~= md.white_point@);
            lemma_array_of(md.primaries_green);
            lemma_array_of(md.primaries_blue);
            lemma_array_of(md.primaries_red);
            lemma_array_of(md.white_point);
            assert(t == md);
            assert(hdr_static_frame_of(p) == f);
            assert(hdr_static_warnings_of(p) =~= Seq::<HdrStaticWarning>::empty());
        },
        StaticMetadata::Unknown { descriptor_id, data } => {
            lemma_hdr_static_pb1_bits(descriptor_id, e);
            assert(p.subrange(5, 31) =~= data@);
            lemma_array_of(data);
            assert(hdr_static_frame_of(p) == f);
            assert(hdr_static_warnings_of(p) =~= seq![
                HdrStaticWarning::UnknownEnumValue {
                    field: "static_metadata_descriptor_id",
                    raw: descriptor_id,
                },
            ]);
        },
    }
}

/// Every packet that decodes yields a well-formed frame, so re-encoding a
/// decoded frame and decoding again reproduces it exactly.
pub proof fn lemma_hdr_static_decode_encode_stable(p: Seq<u8>)
    requires
        p.len() == 31,
    ensures
        hdr_static_frame_wf(hdr_static_frame_of(p)),
        hdr_static_frame_of(wire_packet(hdr_static_covered_of(hdr_static_frame_of(p))))
            == hdr_static_frame_of(p),
{
    lemma_low_bits_bound(p[4]);
    lemma_hdr_static_round_trip(hdr_static_frame_of(p));
}

// ---------------------------------------------------------------------------
// What the EOTF codes mean
// ---------------------------------------------------------------------------

/// Whether an EOTF carries an HDR luminance range (all but traditional SDR
/// gamma).
pub open spec fn eotf_is_hdr(e: Eotf) -> bool {
    !(e is TraditionalGammaSdr)
}

/// The absolute peak luminance, in cd/m², of an absolute (display-referred)
/// transfer function: SMPTE ST 2084 (PQ) codes luminance up to
/// 10 000 cd/m²; the gamma curves and HLG are relative and have none.
pub open spec fn eotf_absolute_peak(e: Eotf) -> Option<nat> {
    match e {
        Eotf::Pq => Some(10000),
        _ => None,
    }
}

/// Whether an EOTF is the scene-referred Hybrid Log-Gamma curve (ITU-R
/// BT.2100).
pub open spec fn eotf_is_hlg(e: Eotf) -> bool {
    e is Hlg
}

/// The EOTF field of a packet (PB1 bits 2–0).
pub open spec fn eotf_field(p: Seq<u8>) -> u8 {
    p[4] & 0x07u8
}

proof fn lemma_pb1_eotf(id: u8, e: u8)
    by (bit_vector)
    requires
        e < 8,
    ensures
        (((id & 0x07u8) << 3u8) | (e & 0x07u8)) & 0x07u8 == e,
        (e & 0x07u8) & 0x07u8 == e,
{
}

/// The EOTF field: 2 decodes to the absolute ST 2084 (PQ) curve and 3 to
/// HLG, 1 to the remaining HDR curve (traditional gamma over an HDR range),
/// and 0 or an undefined value to SDR gamma; a frame is written with EOTF 2
/// exactly when its curve is PQ, 3 exactly when it is HLG, and a field in
/// 1–3 exactly when it is an HDR curve.
pub proof fn lemma_eotf_meaning(p: Seq<u8>, f: HdrStaticInfoFrame)
    requires
        p.len() == 31,
    ensures
        eotf_absolute_peak(hdr_static_frame_of(p).eotf) == Some(10000nat) <==> eotf_field(p) == 2,
        eotf_is_hlg(hdr_static_frame_of(p).eotf) <==> eotf_field(p) == 3,
        eotf_is_hdr(hdr_static_frame_of(p).eotf) <==> 1 <= eotf_field(p) <= 3,
        eotf_field(wire_packet(hdr_static_covered_of(f))) == 2 <==> eotf_absolute_peak(f.eotf)
            == Some(10000nat),
        eotf_field(wire_packet(hdr_static_covered_of(f))) == 3 <==> eotf_is_hlg(f.eotf),
        1 <= eotf_field(wire_packet(hdr_static_covered_of(f))) <= 3 <==> eotf_is_hdr(f.eotf),
        eotf_field(wire_packet(hdr_static_covered_of(f))) <= 3,
{
    let hp = hdr_static_covered_of(f);
    assert(hp.len() == 30);
    lemma_wire_packet_valid(hp);
    assert(wire_packet(hp)[4] == hp[3]);
    let e = code_of_eotf(f.eotf);
    match f.metadata {
        StaticMetadata::Type1(_) => lemma_pb1_eotf(0, e),
        StaticMetadata::Unknown { descriptor_id, .. } => lemma_pb1_eotf(descriptor_id, e),
    }
}

} // verus!
