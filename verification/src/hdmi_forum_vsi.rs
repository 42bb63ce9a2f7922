use vstd::prelude::*;

use crate::avi::flag_bit;
use crate::bytes::{bit_set, lemma_low_bits_bound, warn_if};
use crate::checksum::{
    assemble_packet, checksum_for, checksum_valid, covered_bytes, expected_checksum,
    lemma_wire_packet_valid, packet_sum, wire_packet,
};
use crate::decoded::Decoded;
use crate::encode::{packets_view, IntoPackets, SinglePacketIter};
use crate::error::DecodeError;
use crate::vocab::{
    code_of_frl, code_of_slices, dsc_total_mhz, frl_link_gbps, frl_of_code, lemma_dsc_slices_order,
    lemma_frl_rate_order, slices_of_code, HdmiDscMaxSlices, HdmiForumFrl,
};
use crate::warn::HdmiForumVsiWarning;

verus! {

/// HDMI Forum OUI transmitted in PB1–PB3 of every HDMI Forum VSIF.
///
/// Byte order as it appears on the wire: PB1 = 0xD8, PB2 = 0x5D, PB3 = 0xC4.
pub const HDMI_FORUM_OUI: [u8; 3] = [0xD8, 0x5D, 0xC4];

/// An HDMI Forum Vendor-Specific InfoFrame (HDMI 2.1 §10.2.5, type code 0x81).
///
/// Carries HDMI 2.1 auxiliary signaling: ALLM, VRR, DSC, QMS, and FRL rate.
/// Identified on the wire by the HDMI Forum OUI (0xD8, 0x5D, 0xC4) in
/// PB1–PB3.
///
/// # Bit layout reference (HDMI 2.1 §10.2.5)
///
/// - PB4: `allm`\[7\], `frl_rate`\[6:4\], `fapa_start_location`\[3\], `fva`\[2\]
/// - PB5: `vrr_en`\[7\], `m_const`\[6\], `qms_en`\[5\], `neg_mvrr`\[4\], `m_vrr`\[11:8\] in \[3:0\]
/// - PB6: `m_vrr`\[7:0\]
/// - PB7: `dsc_1p2`\[7\], `dsc_native_420`\[6\], `dsc_all_bpc`\[5\], `dsc_max_frl_rate`\[2:0\]
/// - PB8: `dsc_12bpc`\[7\], `dsc_10bpc`\[6\], `dsc_max_slices`\[3:0\]
#[derive(Debug, Clone, PartialEq, Eq, Structural)]
pub struct HdmiForumVsi {
    /// Auto Low Latency Mode (ALLM).
    pub allm: bool,
    /// Current Fixed Rate Link (FRL) rate in use on this link.
    pub frl_rate: HdmiForumFrl,
    /// FAPA (Frame-Average Picture Activity) measurement start location.
    pub fapa_start_location: bool,
    /// Fast VActive (FVA).
    pub fva: bool,
    /// Variable Refresh Rate enable.
    pub vrr_en: bool,
    /// M_VRR constant — the source is transmitting at a fixed M_VRR value.
    pub m_const: bool,
    /// Quick Media Switching (QMS) enable.
    pub qms_en: bool,
    /// Negative M_VRR values are in use.
    pub neg_mvrr: bool,
    /// M_VRR parameter (12-bit, values 0–4095).
    pub m_vrr: u16,
    /// Source is using VESA DSC 1.2a compressed video transport.
    pub dsc_1p2: bool,
    /// DSC stream uses YCbCr 4:2:0 native pixel encoding.
    pub dsc_native_420: bool,
    /// DSC stream uses a non-standard bits-per-pixel value (`DSC_All_BPC`).
    pub dsc_all_bpc: bool,
    /// Maximum FRL rate the DSC-compressed stream requires.
    pub dsc_max_frl_rate: HdmiForumFrl,
    /// Maximum number of horizontal DSC slices used by the stream.
    pub dsc_max_slices: HdmiDscMaxSlices,
    /// DSC stream uses 10 bpc compressed video.
    pub dsc_10bpc: bool,
    /// DSC stream uses 12 bpc compressed video.
    pub dsc_12bpc: bool,
}

/// The FRL rate a 3-bit wire code decodes to; reserved codes give `NotSupported`.
pub open spec fn frl_of_raw(raw: u8) -> HdmiForumFrl {
    frl_of_code(if raw <= 6 { raw } else { 0 })
}

/// The slice count a 4-bit wire code decodes to; reserved codes give `NotSupported`.
pub open spec fn slices_of_raw(raw: u8) -> HdmiDscMaxSlices {
    slices_of_code(if raw <= 7 { raw } else { 0 })
}

/// The frame that a 31-byte packet decodes to (valid when `packet[2] <= 27`).
/// The OUI bytes PB1–PB3 are not examined.
pub open spec fn vsi_frame_of(p: Seq<u8>) -> HdmiForumVsi {
    HdmiForumVsi {
        allm: bit_set(p[7], 7),
        frl_rate: frl_of_raw((p[7] >> 4u8) & 0x07u8),
        fapa_start_location: bit_set(p[7], 3),
        fva: bit_set(p[7], 2),
        vrr_en: bit_set(p[8], 7),
        m_const: bit_set(p[8], 6),
        qms_en: bit_set(p[8], 5),
        neg_mvrr: bit_set(p[8], 4),
        m_vrr: ((p[8] & 0x0Fu8) as int * 256 + p[9] as int) as u16,
        dsc_1p2: bit_set(p[10], 7),
        dsc_native_420: bit_set(p[10], 6),
        dsc_all_bpc: bit_set(p[10], 5),
        dsc_max_frl_rate: frl_of_raw(p[10] & 0x07u8),
        dsc_max_slices: slices_of_raw(p[11] & 0x0Fu8),
        dsc_10bpc: bit_set(p[11], 6),
        dsc_12bpc: bit_set(p[11], 7),
    }
}

/// The warnings decoding a packet produces, in order: checksum, reserved bits
/// PB4[0..1], reserved FRL rate, reserved bits PB7[3..4], reserved DSC FRL
/// rate, reserved bits PB8[4..5], reserved slice count.
pub open spec fn vsi_warnings_of(p: Seq<u8>) -> Seq<HdmiForumVsiWarning> {
    let frl = (p[7] >> 4u8) & 0x07u8;
    let dsc_frl = p[10] & 0x07u8;
    let slices = p[11] & 0x0Fu8;
    warn_if(
        !checksum_valid(p),
        HdmiForumVsiWarning::ChecksumMismatch { expected: checksum_for(covered_bytes(p)), found: p[3] },
    ) + warn_if(bit_set(p[7], 0), HdmiForumVsiWarning::ReservedFieldNonZero { byte: 7, bit: 0 })
        + warn_if(bit_set(p[7], 1), HdmiForumVsiWarning::ReservedFieldNonZero { byte: 7, bit: 1 })
        + warn_if(frl > 6, HdmiForumVsiWarning::UnknownEnumValue { field: "frl_rate", raw: frl })
        + warn_if(bit_set(p[10], 3), HdmiForumVsiWarning::ReservedFieldNonZero { byte: 10, bit: 3 })
        + warn_if(bit_set(p[10], 4), HdmiForumVsiWarning::ReservedFieldNonZero { byte: 10, bit: 4 })
        + warn_if(
        dsc_frl > 6,
        HdmiForumVsiWarning::UnknownEnumValue { field: "dsc_max_frl_rate", raw: dsc_frl },
    ) + warn_if(bit_set(p[11], 4), HdmiForumVsiWarning::ReservedFieldNonZero { byte: 11, bit: 4 })
        + warn_if(bit_set(p[11], 5), HdmiForumVsiWarning::ReservedFieldNonZero { byte: 11, bit: 5 })
        + warn_if(
        slices > 7,
        HdmiForumVsiWarning::UnknownEnumValue { field: "dsc_max_slices", raw: slices },
    )
}

/// PB4: ALLM[7], FRL_Rate[6:4], FAPA_Start_Location[3], FVA[2].
pub open spec fn vsi_pb4_of(f: HdmiForumVsi) -> u8 {
    (flag_bit(f.allm) << 7u8) | ((code_of_frl(f.frl_rate) & 0x07u8) << 4u8) | (flag_bit(
        f.fapa_start_location,
    ) << 3u8) | (flag_bit(f.fva) << 2u8)
}

/// PB5: VRR_En[7], M_CONST[6], QMS_En[5], Neg_MVRR[4], M_VRR[11:8] in [3:0].
pub open spec fn vsi_pb5_of(f: HdmiForumVsi) -> u8 {
    (flag_bit(f.vrr_en) << 7u8) | (flag_bit(f.m_const) << 6u8) | (flag_bit(f.qms_en) << 5u8) | (
    flag_bit(f.neg_mvrr) << 4u8) | (((f.m_vrr / 256) % 16) as u8)
}

/// PB7: DSC_1p2[7], DSC_Native_420[6], DSC_All_BPC[5], DSC_Max_FRL_Rate[2:0].
pub open spec fn vsi_pb7_of(f: HdmiForumVsi) -> u8 {
    (flag_bit(f.dsc_1p2) << 7u8) | (flag_bit(f.dsc_native_420) << 6u8) | (flag_bit(f.dsc_all_bpc)
        << 5u8) | (code_of_frl(f.dsc_max_frl_rate) & 0x07u8)
}

/// PB8: DSC_12bpc[7], DSC_10bpc[6], DSC_Max_Slices[3:0].
pub open spec fn vsi_pb8_of(f: HdmiForumVsi) -> u8 {
    (flag_bit(f.dsc_12bpc) << 7u8) | (flag_bit(f.dsc_10bpc) << 6u8) | (code_of_slices(
        f.dsc_max_slices,
    ) & 0x0Fu8)
}

/// The 30 checksum-covered bytes an HDMI Forum VSI encodes to: type 0x81,
/// version 1, length 8, the HDMI Forum OUI in PB1–PB3, PB4–PB8 carrying the
/// fields (PB6 is M_VRR[7:0]).
pub open spec fn vsi_covered_of(f: HdmiForumVsi) -> Seq<u8> {
    seq![
        0x81u8,
        0x01u8,
        8u8,
        0xD8u8,
        0x5Du8,
        0xC4u8,
        vsi_pb4_of(f),
        vsi_pb5_of(f),
        (f.m_vrr % 256) as u8,
        vsi_pb7_of(f),
        vsi_pb8_of(f),
    ] + Seq::new(19, |i: int| 0u8)
}

/// An HDMI Forum VSI that survives a round trip: its M_VRR fits 12 bits.
pub open spec fn vsi_frame_wf(f: HdmiForumVsi) -> bool {
    f.m_vrr < 4096
}

fn push_reserved(ws: &mut Vec<HdmiForumVsiWarning>, b: u8, byte: u8, bit: u8)
    requires
        bit < 8,
    ensures
        final(ws)@ == old(ws)@ + warn_if(
            bit_set(b, bit),
            HdmiForumVsiWarning::ReservedFieldNonZero { byte, bit },
        ),
{
    if (b >> bit) & 1 == 1 {
        ws.push(HdmiForumVsiWarning::ReservedFieldNonZero { byte, bit });
    }
    assert(ws@ =~= old(ws)@ + warn_if(
        bit_set(b, bit),
        HdmiForumVsiWarning::ReservedFieldNonZero { byte, bit },
    ));
}

fn push_unknown(ws: &mut Vec<HdmiForumVsiWarning>, cond: bool, field: &'static str, raw: u8)
    ensures
        final(ws)@ == old(ws)@ + warn_if(cond, HdmiForumVsiWarning::UnknownEnumValue { field, raw }),
{
    if cond {
        ws.push(HdmiForumVsiWarning::UnknownEnumValue { field, raw });
    }
    assert(ws@ =~= old(ws)@ + warn_if(cond, HdmiForumVsiWarning::UnknownEnumValue { field, raw }));
}

/// The warnings decoding `packet` records, in order.
fn vsi_warnings(packet: &[u8; 31]) -> (ws: Vec<HdmiForumVsiWarning>)
    ensures
        ws@ == vsi_warnings_of(packet@),
{
    let ghost p = packet@;
    let mut ws: Vec<HdmiForumVsiWarning> = Vec::new();
    if packet_sum(packet) != 0 {
        let expected = expected_checksum(packet);
        ws.push(HdmiForumVsiWarning::ChecksumMismatch { expected, found: packet[3] });
    }
    assert(ws@ =~= warn_if(
        !checksum_valid(p),
        HdmiForumVsiWarning::ChecksumMismatch { expected: checksum_for(covered_bytes(p)), found: p[3] },
    ));
    // PB4 (byte 7): ALLM[7], FRL_Rate[6:4], FAPA_Start_Location[3], FVA[2], rsvd[1:0]
    push_reserved(&mut ws, packet[7], 7, 0);
    push_reserved(&mut ws, packet[7], 7, 1);
    let frl_raw = (packet[7] >> 4) & 0x07;
    push_unknown(&mut ws, frl_raw > 6, "frl_rate", frl_raw);
    // PB7 (byte 10): DSC_1p2[7], DSC_Native_420[6], DSC_All_BPC[5], rsvd[4:3], DSC_Max_FRL_Rate[2:0]
    push_reserved(&mut ws, packet[10], 10, 3);
    push_reserved(&mut ws, packet[10], 10, 4);
    let dsc_frl_raw = packet[10] & 0x07;
    push_unknown(&mut ws, dsc_frl_raw > 6, "dsc_max_frl_rate", dsc_frl_raw);
    // PB8 (byte 11): DSC_12bpc[7], DSC_10bpc[6], rsvd[5:4], DSC_Max_Slices[3:0]
    push_reserved(&mut ws, packet[11], 11, 4);
    push_reserved(&mut ws, packet[11], 11, 5);
    let slices_raw = packet[11] & 0x0F;
    push_unknown(&mut ws, slices_raw > 7, "dsc_max_slices", slices_raw);
    ws
}

impl HdmiForumVsi {
    /// Decode an HDMI Forum VSIF from a 31-byte wire packet.
    ///
    /// The caller is responsible for confirming that the packet's type code is
    /// 0x81 (VSIF) and that PB1–PB3 contain the HDMI Forum OUI before calling
    /// this function. The top-level [`decode`](crate::decode) dispatch handles
    /// this routing automatically.
    ///
    /// # Errors
    ///
    /// Returns [`DecodeError::Truncated`] if `packet[2] > 27`.
    pub fn decode(packet: &[u8; 31]) -> (r: Result<Decoded<HdmiForumVsi, HdmiForumVsiWarning>, DecodeError>)
        ensures
            packet@[2] > 27 ==> r == Err::<Decoded<HdmiForumVsi, HdmiForumVsiWarning>, DecodeError>(
                DecodeError::Truncated { claimed: packet@[2] },
            ),
            packet@[2] <= 27 ==> (r matches Ok(d) && d.value == vsi_frame_of(packet@)
                && d.warnings@ == vsi_warnings_of(packet@)),
    {
        let length = packet[2];
        if length > 27 {
            return Err(DecodeError::Truncated { claimed: length });
        }
        let pb4 = packet[7];
        let pb5 = packet[8];
        let pb7 = packet[10];
        let pb8 = packet[11];
        proof {
            lemma_low_bits_bound(pb5);
        }
        let value = HdmiForumVsi {
            allm: (pb4 >> 7) & 1 == 1,
            frl_rate: HdmiForumFrl::from_raw((pb4 >> 4) & 0x07),
            fapa_start_location: (pb4 >> 3) & 1 == 1,
            fva: (pb4 >> 2) & 1 == 1,
            vrr_en: (pb5 >> 7) & 1 == 1,
            m_const: (pb5 >> 6) & 1 == 1,
            qms_en: (pb5 >> 5) & 1 == 1,
            neg_mvrr: (pb5 >> 4) & 1 == 1,
            // M_VRR[11:8] in PB5[3:0], M_VRR[7:0] in PB6 (byte 9).
            m_vrr: ((pb5 & 0x0F) as u16) * 256 + packet[9] as u16,
            dsc_1p2: (pb7 >> 7) & 1 == 1,
            dsc_native_420: (pb7 >> 6) & 1 == 1,
            dsc_all_bpc: (pb7 >> 5) & 1 == 1,
            dsc_max_frl_rate: HdmiForumFrl::from_raw(pb7 & 0x07),
            dsc_max_slices: HdmiDscMaxSlices::from_raw(pb8 & 0x0F),
            dsc_10bpc: (pb8 >> 6) & 1 == 1,
            dsc_12bpc: (pb8 >> 7) & 1 == 1,
        };
        let warnings = vsi_warnings(packet);
        Ok(Decoded { value, warnings })
    }
}

fn bit_of(b: bool) -> (r: u8)
    ensures
        r == flag_bit(b),
{
    if b {
        1
    } else {
        0
    }
}

fn encode_pb4(f: &HdmiForumVsi) -> (b: u8)
    ensures
        b == vsi_pb4_of(*f),
{
    (bit_of(f.allm) << 7) | ((f.frl_rate.raw() & 0x07) << 4) | (bit_of(f.fapa_start_location) << 3)
        | (bit_of(f.fva) << 2)
}

fn encode_pb5(f: &HdmiForumVsi) -> (b: u8)
    ensures
        b == vsi_pb5_of(*f),
{
    (bit_of(f.vrr_en) << 7) | (bit_of(f.m_const) << 6) | (bit_of(f.qms_en) << 5) | (bit_of(
        f.neg_mvrr,
    ) << 4) | (((f.m_vrr / 256) % 16) as u8)
}

fn encode_pb7(f: &HdmiForumVsi) -> (b: u8)
    ensures
        b == vsi_pb7_of(*f),
{
    (bit_of(f.dsc_1p2) << 7) | (bit_of(f.dsc_native_420) << 6) | (bit_of(f.dsc_all_bpc) << 5) | (
    f.dsc_max_frl_rate.raw() & 0x07)
}

fn encode_pb8(f: &HdmiForumVsi) -> (b: u8)
    ensures
        b == vsi_pb8_of(*f),
{
    (bit_of(f.dsc_12bpc) << 7) | (bit_of(f.dsc_10bpc) << 6) | (f.dsc_max_slices.raw() & 0x0F)
}

impl IntoPackets for HdmiForumVsi {
    type Iter = SinglePacketIter;

    type Warning = HdmiForumVsiWarning;

    /// Every frame of this type can be encoded.
    open spec fn can_encode(&self) -> bool {
        true
    }

    /// Encode to a single wire packet; encoding never warns.
    fn into_packets(self) -> (r: Decoded<SinglePacketIter, HdmiForumVsiWarning>)
        ensures
            packets_view(r.value@) == seq![wire_packet(vsi_covered_of(self))],
            r.warnings@ == Seq::<HdmiForumVsiWarning>::empty(),
    {
        let mut hp = [0u8; 30];
        hp[0] = 0x81;
        hp[1] = 0x01;
        hp[2] = 8;
        // PB1–PB3: HDMI Forum OUI
        hp[3] = HDMI_FORUM_OUI[0];
        hp[4] = HDMI_FORUM_OUI[1];
        hp[5] = HDMI_FORUM_OUI[2];
        hp[6] = encode_pb4(&self);
        hp[7] = encode_pb5(&self);
        // PB6: M_VRR[7:0]
        hp[8] = (self.m_vrr % 256) as u8;
        hp[9] = encode_pb7(&self);
        hp[10] = encode_pb8(&self);
        assert(hp@ =~= vsi_covered_of(self));
        let packet = assemble_packet(&hp);
        let r = Decoded::new(SinglePacketIter::new(packet));
        assert(packets_view(r.value@) =~= seq![wire_packet(vsi_covered_of(self))]);
        r
    }
}

// ---------------------------------------------------------------------------
// Laws
// ---------------------------------------------------------------------------

proof fn lemma_vsi_pb4_bits(a: u8, frl: u8, fapa: u8, fva: u8)
    by (bit_vector)
    requires
        a < 2,
        frl < 7,
        fapa < 2,
        fva < 2,
    ensures
        ((((a << 7u8) | ((frl & 0x07u8) << 4u8) | (fapa << 3u8) | (fva << 2u8)) >> 7u8) & 1u8 == 1u8) == (a == 1),
        ((((a << 7u8) | ((frl & 0x07u8) << 4u8) | (fapa << 3u8) | (fva << 2u8)) >> 4u8) & 0x07u8) == frl,
        ((((a << 7u8) | ((frl & 0x07u8) << 4u8) | (fapa << 3u8) | (fva << 2u8)) >> 3u8) & 1u8 == 1u8) == (fapa == 1),
        ((((a << 7u8) | ((frl & 0x07u8) << 4u8) | (fapa << 3u8) | (fva << 2u8)) >> 2u8) & 1u8 == 1u8) == (fva == 1),
        (((a << 7u8) | ((frl & 0x07u8) << 4u8) | (fapa << 3u8) | (fva << 2u8)) >> 0u8) & 1u8 == 0u8,
        (((a << 7u8) | ((frl & 0x07u8) << 4u8) | (fapa << 3u8) | (fva << 2u8)) >> 1u8) & 1u8 == 0u8,
{
}

proof fn lemma_vsi_pb5_bits(v: u8, m: u8, q: u8, n: u8, hi: u8)
    by (bit_vector)
    requires
        v < 2,
        m < 2,
        q < 2,
        n < 2,
        hi < 16,
    ensures
        ((((v << 7u8) | (m << 6u8) | (q << 5u8) | (n << 4u8) | hi) >> 7u8) & 1u8 == 1u8) == (v == 1),
        ((((v << 7u8) | (m << 6u8) | (q << 5u8) | (n << 4u8) | hi) >> 6u8) & 1u8 == 1u8) == (m == 1),
        ((((v << 7u8) | (m << 6u8) | (q << 5u8) | (n << 4u8) | hi) >> 5u8) & 1u8 == 1u8) == (q == 1),
        ((((v << 7u8) | (m << 6u8) | (q << 5u8) | (n << 4u8) | hi) >> 4u8) & 1u8 == 1u8) == (n == 1),
        (((v << 7u8) | (m << 6u8) | (q << 5u8) | (n << 4u8) | hi) & 0x0Fu8) == hi,
{
}

proof fn lemma_vsi_pb7_pb8_bits(a: u8, b: u8, c: u8, frl: u8, d: u8, e: u8, s: u8)
    by (bit_vector)
    requires
        a < 2,
        b < 2,
        c < 2,
        frl < 7,
        d < 2,
        e < 2,
        s < 8,
    ensures
        ((((a << 7u8) | (b << 6u8) | (c << 5u8) | (frl & 0x07u8)) >> 7u8) & 1u8 == 1u8) == (a == 1),
        ((((a << 7u8) | (b << 6u8) | (c << 5u8) | (frl & 0x07u8)) >> 6u8) & 1u8 == 1u8) == (b == 1),
        ((((a << 7u8) | (b << 6u8) | (c << 5u8) | (frl & 0x07u8)) >> 5u8) & 1u8 == 1u8) == (c == 1),
        (((a << 7u8) | (b << 6u8) | (c << 5u8) | (frl & 0x07u8)) >> 3u8) & 1u8 == 0u8,
        (((a << 7u8) | (b << 6u8) | (c << 5u8) | (frl & 0x07u8)) >> 4u8) & 1u8 == 0u8,
        (((a << 7u8) | (b << 6u8) | (c << 5u8) | (frl & 0x07u8)) & 0x07u8) == frl,
        ((((d << 7u8) | (e << 6u8) | (s & 0x0Fu8)) >> 7u8) & 1u8 == 1u8) == (d == 1),
        ((((d << 7u8) | (e << 6u8) | (s & 0x0Fu8)) >> 6u8) & 1u8 == 1u8) == (e == 1),
        (((d << 7u8) | (e << 6u8) | (s & 0x0Fu8)) >> 4u8) & 1u8 == 0u8,
        (((d << 7u8) | (e << 6u8) | (s & 0x0Fu8)) >> 5u8) & 1u8 == 0u8,
        (((d << 7u8) | (e << 6u8) | (s & 0x0Fu8)) & 0x0Fu8) == s,
{
}

/// A nibble code decodes back to the rate it encodes.
proof fn lemma_frl_code(f: HdmiForumFrl)
    ensures
        code_of_frl(f) <= 6,
        frl_of_raw(code_of_frl(f)) == f,
{
}

/// A nibble code decodes back to the slice count it encodes.
proof fn lemma_slices_code(s: HdmiDscMaxSlices)
    ensures
        code_of_slices(s) <= 7,
        slices_of_raw(code_of_slices(s)) == s,
{
}

/// PB4 carries ALLM, the FRL rate, FAPA and FVA, with its reserved bits clear.
proof fn lemma_vsi_pb4(f: HdmiForumVsi, b: u8)
    requires
        b == vsi_pb4_of(f),
    ensures
        bit_set(b, 7) == f.allm,
        frl_of_raw((b >> 4u8) & 0x07u8) == f.frl_rate,
        (b >> 4u8) & 0x07u8 <= 6,
        bit_set(b, 3) == f.fapa_start_location,
        bit_set(b, 2) == f.fva,
        !bit_set(b, 0),
        !bit_set(b, 1),
{
    lemma_frl_code(f.frl_rate);
    lemma_vsi_pb4_bits(
        flag_bit(f.allm),
        code_of_frl(f.frl_rate),
        flag_bit(f.fapa_start_location),
        flag_bit(f.fva),
    );
}

/// PB5 and PB6 carry the VRR/QMS flags and the 12-bit M_VRR.
proof fn lemma_vsi_pb5(f: HdmiForumVsi, b5: u8, b6: u8)
    requires
        vsi_frame_wf(f),
        b5 == vsi_pb5_of(f),
        b6 == (f.m_vrr % 256) as u8,
    ensures
        bit_set(b5, 7) == f.vrr_en,
        bit_set(b5, 6) == f.m_const,
        bit_set(b5, 5) == f.qms_en,
        bit_set(b5, 4) == f.neg_mvrr,
        ((b5 & 0x0Fu8) as int * 256 + b6 as int) as u16 == f.m_vrr,
{
    let hi = ((f.m_vrr / 256) % 16) as u8;
    lemma_vsi_pb5_bits(flag_bit(f.vrr_en), flag_bit(f.m_const), flag_bit(f.qms_en), flag_bit(f.neg_mvrr), hi);
    assert(hi as int * 256 + b6 as int == f.m_vrr);
}

/// PB7 and PB8 carry the DSC fields, with their reserved bits clear.
proof fn lemma_vsi_pb7_pb8(f: HdmiForumVsi, b7: u8, b8: u8)
    requires
        b7 == vsi_pb7_of(f),
        b8 == vsi_pb8_of(f),
    ensures
        bit_set(b7, 7) == f.dsc_1p2,
        bit_set(b7, 6) == f.dsc_native_420,
        bit_set(b7, 5) == f.dsc_all_bpc,
        !bit_set(b7, 3),
        !bit_set(b7, 4),
        frl_of_raw(b7 & 0x07u8) == f.dsc_max_frl_rate,
        b7 & 0x07u8 <= 6,
        bit_set(b8, 7) == f.dsc_12bpc,
        bit_set(b8, 6) == f.dsc_10bpc,
        !bit_set(b8, 4),
        !bit_set(b8, 5),
        slices_of_raw(b8 & 0x0Fu8) == f.dsc_max_slices,
        b8 & 0x0Fu8 <= 7,
{
    lemma_frl_code(f.dsc_max_frl_rate);
    lemma_slices_code(f.dsc_max_slices);
    lemma_vsi_pb7_pb8_bits(
        flag_bit(f.dsc_1p2),
        flag_bit(f.dsc_native_420),
        flag_bit(f.dsc_all_bpc),
        code_of_frl(f.dsc_max_frl_rate),
        flag_bit(f.dsc_12bpc),
        flag_bit(f.dsc_10bpc),
        code_of_slices(f.dsc_max_slices),
    );
}

/// Round trip: encoding a well-formed HDMI Forum VSI and decoding the packet
/// gives back the same frame, with no warnings; the packet carries the HDMI
/// Forum OUI in PB1–PB3.
pub proof fn lemma_vsi_round_trip(f: HdmiForumVsi)
    requires
        vsi_frame_wf(f),
    ensures
        wire_packet(vsi_covered_of(f))[2] <= 27,
        wire_packet(vsi_covered_of(f)).subrange(4, 7) == HDMI_FORUM_OUI@,
        vsi_frame_of(wire_packet(vsi_covered_of(f))) == f,
        vsi_warnings_of(wire_packet(vsi_covered_of(f))) == Seq::<HdmiForumVsiWarning>::empty(),
{
    let hp = vsi_covered_of(f);
    assert(hp.len() == 30);
    lemma_wire_packet_valid(hp);
    let p = wire_packet(hp);
    assert forall|i: int| 4 <= i < 31 implies p[i] == hp[i - 1] by {}
    assert(p.subrange(4, 7) =~= HDMI_FORUM_OUI@);
    lemma_vsi_pb4(f, p[7]);
    lemma_vsi_pb5(f, p[8], p[9]);
    lemma_vsi_pb7_pb8(f, p[10], p[11]);
    assert(vsi_frame_of(p) == f);
    assert(vsi_warnings_of(p) =~= Seq::<HdmiForumVsiWarning>::empty());
}

/// Every packet decodes to a well-formed frame that re-encodes and decodes to
/// itself (reserved FRL and slice codes decode as `NotSupported`, which is
/// what the re-encoded packet carries).
pub proof fn lemma_vsi_decode_encode_stable(p: Seq<u8>)
    requires
        p.len() == 31,
    ensures
        vsi_frame_wf(vsi_frame_of(p)),
        vsi_frame_of(wire_packet(vsi_covered_of(vsi_frame_of(p)))) == vsi_frame_of(p),
{
    lemma_low_bits_bound(p[8]);
    lemma_vsi_round_trip(vsi_frame_of(p));
}

// ---------------------------------------------------------------------------
// What the rate and slice fields mean
// ---------------------------------------------------------------------------

/// The `FRL_Rate` field of a packet (PB4 bits 6–4).
pub open spec fn frl_field(p: Seq<u8>) -> u8 {
    (p[7] >> 4u8) & 0x07u8
}

/// The `DSC_Max_FRL_Rate` field of a packet (PB7 bits 2–0).
pub open spec fn dsc_frl_field(p: Seq<u8>) -> u8 {
    p[10] & 0x07u8
}

/// The `DSC_MaxSlices` field of a packet (PB8 bits 3–0).
pub open spec fn dsc_slices_field(p: Seq<u8>) -> u8 {
    p[11] & 0x0Fu8
}

proof fn lemma_vsi_code_bits(a: u8, frl: u8, b: u8, c: u8, x: u8, y: u8, z: u8, dfrl: u8, sl: u8)
    by (bit_vector)
    requires
        a < 2,
        b < 2,
        c < 2,
        x < 2,
        y < 2,
        z < 2,
        frl < 8,
        dfrl < 8,
        sl < 16,
    ensures
        ((((a << 7u8) | ((frl & 0x07u8) << 4u8) | (b << 3u8) | (c << 2u8))) >> 4u8) & 0x07u8
            == frl,
        ((x << 7u8) | (y << 6u8) | (z << 5u8) | (dfrl & 0x07u8)) & 0x07u8 == dfrl,
        ((x << 7u8) | (y << 6u8) | (sl & 0x0Fu8)) & 0x0Fu8 == sl,
{
}

/// The rate and slice fields of the packet a frame encodes to are its codes.
proof fn lemma_vsi_wire_codes(f: HdmiForumVsi)
    ensures
        frl_field(wire_packet(vsi_covered_of(f))) == code_of_frl(f.frl_rate),
        dsc_frl_field(wire_packet(vsi_covered_of(f))) == code_of_frl(f.dsc_max_frl_rate),
        dsc_slices_field(wire_packet(vsi_covered_of(f))) == code_of_slices(f.dsc_max_slices),
{
    let hp = vsi_covered_of(f);
    assert(hp.len() == 30);
    lemma_wire_packet_valid(hp);
    let p = wire_packet(hp);
    assert(p[7] == hp[6] && p[10] == hp[9] && p[11] == hp[10]);
    lemma_dsc_slices_order(0, 0, f.dsc_max_slices, f.dsc_max_slices);
    lemma_frl_rate_order(0, 0, f.frl_rate, f.dsc_max_frl_rate);
    lemma_vsi_code_bits(
        flag_bit(f.allm),
        code_of_frl(f.frl_rate),
        flag_bit(f.fapa_start_location),
        flag_bit(f.fva),
        flag_bit(f.dsc_1p2),
        flag_bit(f.dsc_native_420),
        flag_bit(f.dsc_all_bpc),
        code_of_frl(f.dsc_max_frl_rate),
        0,
    );
    lemma_vsi_code_bits(
        0,
        0,
        0,
        0,
        flag_bit(f.dsc_12bpc),
        flag_bit(f.dsc_10bpc),
        0,
        0,
        code_of_slices(f.dsc_max_slices),
    );
}

/// The FRL fields rank link rates: decoding two packets, a higher defined
/// `FRL_Rate` (0–6) gives a strictly faster link and a reserved one (7) gives
/// no FRL; encoding two frames, the faster link gets the strictly higher
/// field. The same holds of `DSC_Max_FRL_Rate`.
pub proof fn lemma_vsi_frl_order(p: Seq<u8>, q: Seq<u8>, f: HdmiForumVsi, g: HdmiForumVsi)
    requires
        p.len() == 31,
        q.len() == 31,
    ensures
        frl_field(p) <= 6 && frl_field(q) <= 6 ==> (frl_field(p) < frl_field(q) <==> frl_link_gbps(
            vsi_frame_of(p).frl_rate,
        ) < frl_link_gbps(vsi_frame_of(q).frl_rate)),
        frl_field(p) > 6 ==> vsi_frame_of(p).frl_rate == HdmiForumFrl::NotSupported,
        frl_link_gbps(f.frl_rate) < frl_link_gbps(g.frl_rate) <==> frl_field(
            wire_packet(vsi_covered_of(f)),
        ) < frl_field(wire_packet(vsi_covered_of(g))),
        dsc_frl_field(p) <= 6 && dsc_frl_field(q) <= 6 ==> (dsc_frl_field(p) < dsc_frl_field(q)
            <==> frl_link_gbps(vsi_frame_of(p).dsc_max_frl_rate) < frl_link_gbps(
            vsi_frame_of(q).dsc_max_frl_rate,
        )),
        dsc_frl_field(p) > 6 ==> vsi_frame_of(p).dsc_max_frl_rate == HdmiForumFrl::NotSupported,
        frl_link_gbps(f.dsc_max_frl_rate) < frl_link_gbps(g.dsc_max_frl_rate) <==> dsc_frl_field(
            wire_packet(vsi_covered_of(f)),
        ) < dsc_frl_field(wire_packet(vsi_covered_of(g))),
{
    lemma_vsi_wire_codes(f);
    lemma_vsi_wire_codes(g);
    lemma_frl_rate_order(0, 0, f.frl_rate, g.frl_rate);
    lemma_frl_rate_order(0, 0, f.dsc_max_frl_rate, g.dsc_max_frl_rate);
    if frl_field(p) <= 6 && frl_field(q) <= 6 {
        lemma_frl_rate_order(frl_field(p), frl_field(q), f.frl_rate, g.frl_rate);
    }
    if dsc_frl_field(p) <= 6 && dsc_frl_field(q) <= 6 {
        lemma_frl_rate_order(dsc_frl_field(p), dsc_frl_field(q), f.frl_rate, g.frl_rate);
    }
}

/// The `DSC_MaxSlices` field ranks slice limits: decoding two packets, a
/// higher defined field (0–7) gives a strictly higher total pixel clock and a
/// reserved one gives no DSC; encoding two frames, the higher limit gets the
/// strictly higher field.
pub proof fn lemma_vsi_slices_order(p: Seq<u8>, q: Seq<u8>, f: HdmiForumVsi, g: HdmiForumVsi)
    requires
        p.len() == 31,
        q.len() == 31,
    ensures
        dsc_slices_field(p) <= 7 && dsc_slices_field(q) <= 7 ==> (dsc_slices_field(p)
            < dsc_slices_field(q) <==> dsc_total_mhz(vsi_frame_of(p).dsc_max_slices)
            < dsc_total_mhz(vsi_frame_of(q).dsc_max_slices)),
        dsc_slices_field(p) > 7 ==> vsi_frame_of(p).dsc_max_slices
            == HdmiDscMaxSlices::NotSupported,
        dsc_total_mhz(f.dsc_max_slices) < dsc_total_mhz(g.dsc_max_slices) <==> dsc_slices_field(
            wire_packet(vsi_covered_of(f)),
        ) < dsc_slices_field(wire_packet(vsi_covered_of(g))),
{
    lemma_vsi_wire_codes(f);
    lemma_vsi_wire_codes(g);
    lemma_dsc_slices_order(0, 0, f.dsc_max_slices, g.dsc_max_slices);
    if dsc_slices_field(p) <= 7 && dsc_slices_field(q) <= 7 {
        lemma_dsc_slices_order(
            dsc_slices_field(p),
            dsc_slices_field(q),
            f.dsc_max_slices,
            g.dsc_max_slices,
        );
    }
}

} // verus!
