use vstd::prelude::*;

use crate::audio::{
    audio_covered_of, audio_frame_of, audio_frame_wf, audio_warnings_of, lemma_audio_round_trip,
    AudioInfoFrame,
};
use crate::avi::{
    avi_covered_of, avi_frame_of, avi_frame_wf, avi_warnings_of, lemma_avi_round_trip,
    AviInfoFrame,
};
use crate::checksum::{lemma_wire_packet_valid, wire_packet};
use crate::bytes::{array_of, lemma_array_of};
use crate::decoded::Decoded;
use crate::dynamic_hdr::{fragment_of, fragment_warnings_of, DynamicHdrFragment};
use crate::error::DecodeError;
use crate::frame::{unknown_covered_of, InfoFrame, InfoFramePacket};
use crate::hdmi_forum_vsi::{
    lemma_vsi_round_trip, vsi_covered_of, vsi_frame_of, vsi_frame_wf, vsi_warnings_of,
    HdmiForumVsi, HDMI_FORUM_OUI,
};
use crate::hdr_static::{
    hdr_static_covered_of, hdr_static_frame_of, hdr_static_frame_wf, hdr_static_warnings_of,
    lemma_hdr_static_round_trip, HdrStaticInfoFrame, StaticMetadata,
};
use crate::warn::{
    lift_audio, lift_avi, lift_dynamic, lift_hdr_static, lift_vsi, AudioWarning, AviWarning,
    DynamicHdrWarning, HdmiForumVsiWarning, HdrStaticWarning, Warning,
};

verus! {

/// Type code of a Vendor-Specific InfoFrame (includes HDMI Forum VSI).
pub const TYPE_CODE_VSIF: u8 = 0x81;

/// Type code of an AVI InfoFrame.
pub const TYPE_CODE_AVI: u8 = 0x82;

/// Type code of an Audio InfoFrame.
pub const TYPE_CODE_AUDIO: u8 = 0x84;

/// Type code of an HDR Static Metadata InfoFrame.
pub const TYPE_CODE_HDR_STATIC: u8 = 0x87;

/// Type code of a Dynamic HDR InfoFrame.
pub const TYPE_CODE_DYNAMIC_HDR: u8 = 0x20;

/// A vendor-specific packet carries the HDMI Forum OUI in PB1–PB3.
pub open spec fn has_hdmi_forum_oui(p: Seq<u8>) -> bool {
    p.subrange(4, 7) == HDMI_FORUM_OUI@
}

/// What a packet with a valid length decodes to, by its type code: the
/// frame of a known type, a Dynamic HDR fragment, or, for any other type code
/// (and a vendor-specific packet without the HDMI Forum OUI), the type code,
/// version and raw payload bytes.
pub open spec fn packet_of(p: Seq<u8>) -> InfoFramePacket {
    if p[0] == TYPE_CODE_AVI {
        InfoFramePacket::Avi(avi_frame_of(p))
    } else if p[0] == TYPE_CODE_AUDIO {
        InfoFramePacket::Audio(audio_frame_of(p))
    } else if p[0] == TYPE_CODE_HDR_STATIC {
        InfoFramePacket::HdrStatic(hdr_static_frame_of(p))
    } else if p[0] == TYPE_CODE_VSIF && has_hdmi_forum_oui(p) {
        InfoFramePacket::HdmiForumVsi(vsi_frame_of(p))
    } else if p[0] == TYPE_CODE_DYNAMIC_HDR {
        InfoFramePacket::DynamicHdrFragment(fragment_of(p))
    } else {
        InfoFramePacket::Unknown { type_code: p[0], version: p[1], payload: array_of(p.subrange(4, 31)) }
    }
}

/// The warnings decoding a packet records: those of its type's decoder,
/// lifted into [`Warning`]; none for an unknown type.
pub open spec fn packet_warnings_of(p: Seq<u8>) -> Seq<Warning> {
    if p[0] == TYPE_CODE_AVI {
        lift_avi(avi_warnings_of(p))
    } else if p[0] == TYPE_CODE_AUDIO {
        lift_audio(audio_warnings_of(p))
    } else if p[0] == TYPE_CODE_HDR_STATIC {
        lift_hdr_static(hdr_static_warnings_of(p))
    } else if p[0] == TYPE_CODE_VSIF && has_hdmi_forum_oui(p) {
        lift_vsi(vsi_warnings_of(p))
    } else if p[0] == TYPE_CODE_DYNAMIC_HDR {
        lift_dynamic(fragment_warnings_of(p))
    } else {
        Seq::empty()
    }
}

/// The top-level packet holding a decoded AviInfoFrame.
fn avi_packet(f: AviInfoFrame) -> (r: InfoFramePacket)
    ensures
        r == InfoFramePacket::Avi(f),
{
    InfoFramePacket::Avi(f)
}

/// A AviWarning lifted into [`Warning`].
fn avi_warning(w: AviWarning) -> (r: Warning)
    ensures
        r == Warning::Avi(w),
{
    Warning::Avi(w)
}

/// The top-level packet holding a decoded AudioInfoFrame.
fn audio_packet(f: AudioInfoFrame) -> (r: InfoFramePacket)
    ensures
        r == InfoFramePacket::Audio(f),
{
    InfoFramePacket::Audio(f)
}

/// A AudioWarning lifted into [`Warning`].
fn audio_warning(w: AudioWarning) -> (r: Warning)
    ensures
        r == Warning::Audio(w),
{
    Warning::Audio(w)
}

/// The top-level packet holding a decoded HdrStaticInfoFrame.
fn hdr_static_packet(f: HdrStaticInfoFrame) -> (r: InfoFramePacket)
    ensures
        r == InfoFramePacket::HdrStatic(f),
{
    InfoFramePacket::HdrStatic(f)
}

/// A HdrStaticWarning lifted into [`Warning`].
fn hdr_static_warning(w: HdrStaticWarning) -> (r: Warning)
    ensures
        r == Warning::HdrStatic(w),
{
    Warning::HdrStatic(w)
}

/// The top-level packet holding a decoded HdmiForumVsi.
fn vsi_packet(f: HdmiForumVsi) -> (r: InfoFramePacket)
    ensures
        r == InfoFramePacket::HdmiForumVsi(f),
{
    InfoFramePacket::HdmiForumVsi(f)
}

/// A HdmiForumVsiWarning lifted into [`Warning`].
fn vsi_warning(w: HdmiForumVsiWarning) -> (r: Warning)
    ensures
        r == Warning::HdmiForumVsi(w),
{
    Warning::HdmiForumVsi(w)
}

/// The top-level packet holding a decoded DynamicHdrFragment.
fn dynamic_packet(f: DynamicHdrFragment) -> (r: InfoFramePacket)
    ensures
        r == InfoFramePacket::DynamicHdrFragment(f),
{
    InfoFramePacket::DynamicHdrFragment(f)
}

/// A DynamicHdrWarning lifted into [`Warning`].
fn dynamic_warning(w: DynamicHdrWarning) -> (r: Warning)
    ensures
        r == Warning::DynamicHdr(w),
{
    Warning::DynamicHdr(w)
}

/// Decode a single 31-byte wire packet into an [`InfoFramePacket`].
///
/// This is the top-level decode entry point. It dispatches on the type code
/// in byte 0 of the packet and returns the appropriate [`InfoFramePacket`]
/// variant.
///
/// # Wire-level checks
///
/// - **Length**: byte 2 (`length`) declares the number of payload bytes. If
///   `length > 27` (the maximum payload capacity of a 31-byte packet) the
///   packet cannot be decoded and [`DecodeError::Truncated`] is returned.
/// - **Checksum**: verified by each per-type decoder; a mismatch is recorded
///   as a [`Warning`] on the returned result without preventing decode.
///
/// # Unknown type codes
///
/// Packets whose type code does not match any known InfoFrame type decode to
/// [`InfoFramePacket::Unknown`], with the type code, version, and raw payload
/// bytes preserved.
///
/// # Errors
///
/// Returns [`DecodeError::Truncated`] if `packet[2] > 27`.
pub fn decode(packet: &[u8; 31]) -> (r: Result<Decoded<InfoFramePacket, Warning>, DecodeError>)
    ensures
        packet@[2] > 27 ==> r == Err::<Decoded<InfoFramePacket, Warning>, DecodeError>(
            DecodeError::Truncated { claimed: packet@[2] },
        ),
        packet@[2] <= 27 ==> (r matches Ok(d) && d.value == packet_of(packet@) && d.warnings@
            == packet_warnings_of(packet@)),
{
    let length = packet[2];
    if length > 27 {
        return Err(DecodeError::Truncated { claimed: length });
    }
    let type_code = packet[0];
    let version = packet[1];
    if type_code == TYPE_CODE_AVI {
        let d = AviInfoFrame::decode(packet)?;
        let ghost ws = d.warnings@;
        let out = d.wrap(avi_packet, avi_warning);
        assert(out.warnings@ =~= lift_avi(ws));
        Ok(out)
    } else if type_code == TYPE_CODE_AUDIO {
        let d = AudioInfoFrame::decode(packet)?;
        let ghost ws = d.warnings@;
        let out = d.wrap(audio_packet, audio_warning);
        assert(out.warnings@ =~= lift_audio(ws));
        Ok(out)
    } else if type_code == TYPE_CODE_HDR_STATIC {
        let d = HdrStaticInfoFrame::decode(packet)?;
        let ghost ws = d.warnings@;
        let out = d.wrap(hdr_static_packet, hdr_static_warning);
        assert(out.warnings@ =~= lift_hdr_static(ws));
        Ok(out)
    } else if type_code == TYPE_CODE_VSIF && packet[4] == HDMI_FORUM_OUI[0] && packet[5]
        == HDMI_FORUM_OUI[1] && packet[6] == HDMI_FORUM_OUI[2] {
        assert(packet@.subrange(4, 7) =~= HDMI_FORUM_OUI@);
        let d = HdmiForumVsi::decode(packet)?;
        let ghost ws = d.warnings@;
        let out = d.wrap(vsi_packet, vsi_warning);
        assert(out.warnings@ =~= lift_vsi(ws));
        Ok(out)
    } else if type_code == TYPE_CODE_DYNAMIC_HDR {
        let d = DynamicHdrFragment::decode(packet)?;
        let ghost ws = d.warnings@;
        let out = d.wrap(dynamic_packet, dynamic_warning);
        assert(out.warnings@ =~= lift_dynamic(ws));
        Ok(out)
    } else {
        proof {
            if type_code == TYPE_CODE_VSIF {
                assert(!has_hdmi_forum_oui(packet@)) by {
                    if has_hdmi_forum_oui(packet@) {
                        assert(packet@.subrange(4, 7)[0] == packet@[4]);
                        assert(packet@.subrange(4, 7)[1] == packet@[5]);
                        assert(packet@.subrange(4, 7)[2] == packet@[6]);
                    }
                }
            }
        }
        let mut payload = [0u8; 27];
        let mut i: usize = 0;
        while i < 27
            invariant
                i <= 27,
                forall|k: int| 0 <= k < i ==> payload@[k] == packet@[4 + k],
            decreases 27 - i,
        {
            payload[i] = packet[4 + i];
            i = i + 1;
        }
        proof {
            assert(payload@ =~= packet@.subrange(4, 31));
            lemma_array_of(payload);
        }
        Ok(Decoded::new(InfoFramePacket::Unknown { type_code, version, payload }))
    }
}

/// The one wire packet that an InfoFrame of a single-packet type encodes to
/// (empty for a Dynamic HDR frame, which spans a sequence of packets).
pub open spec fn single_packet_of(f: InfoFrame) -> Seq<u8> {
    match f {
        InfoFrame::Avi(a) => wire_packet(avi_covered_of(a)),
        InfoFrame::Audio(a) => wire_packet(audio_covered_of(a)),
        InfoFrame::HdrStatic(h) => wire_packet(hdr_static_covered_of(h)),
        InfoFrame::HdmiForumVsi(v) => wire_packet(vsi_covered_of(v)),
        InfoFrame::DynamicHdr(_) => Seq::empty(),
        InfoFrame::Unknown { type_code, version, payload } => wire_packet(
            unknown_covered_of(type_code, version, payload@),
        ),
    }
}

/// The decode-path value that corresponds to an encode-path frame of a
/// single-packet type.
pub open spec fn packet_for_frame(f: InfoFrame) -> InfoFramePacket {
    match f {
        InfoFrame::Avi(a) => InfoFramePacket::Avi(a),
        InfoFrame::Audio(a) => InfoFramePacket::Audio(a),
        InfoFrame::HdrStatic(h) => InfoFramePacket::HdrStatic(h),
        InfoFrame::HdmiForumVsi(v) => InfoFramePacket::HdmiForumVsi(v),
        InfoFrame::DynamicHdr(_) => vstd::pervasive::arbitrary(),
        InfoFrame::Unknown { type_code, version, payload } => InfoFramePacket::Unknown {
            type_code,
            version,
            payload,
        },
    }
}

/// An unknown frame's type code is not one that decoding dispatches on:
/// not AVI, Audio, HDR Static or Dynamic HDR, and not a vendor-specific code
/// whose payload starts with the HDMI Forum OUI.
pub open spec fn unclaimed_type_code(type_code: u8, payload: Seq<u8>) -> bool {
    &&& type_code != TYPE_CODE_AVI
    &&& type_code != TYPE_CODE_AUDIO
    &&& type_code != TYPE_CODE_HDR_STATIC
    &&& type_code != TYPE_CODE_DYNAMIC_HDR
    &&& (type_code == TYPE_CODE_VSIF ==> payload.subrange(0, 3) != HDMI_FORUM_OUI@)
}

/// A single-packet InfoFrame that encodes to a packet decoding gives back
/// unchanged: each frame type's own well-formedness, and an unknown frame
/// whose type code decoding does not claim.
pub open spec fn info_frame_round_trips(f: InfoFrame) -> bool {
    match f {
        InfoFrame::Avi(a) => avi_frame_wf(a),
        InfoFrame::Audio(a) => audio_frame_wf(a),
        InfoFrame::HdrStatic(h) => hdr_static_frame_wf(h),
        InfoFrame::HdmiForumVsi(v) => vsi_frame_wf(v),
        InfoFrame::DynamicHdr(_) => false,
        InfoFrame::Unknown { type_code, payload, .. } => unclaimed_type_code(type_code, payload@),
    }
}

#[verifier::spinoff_prover]
#[verifier::rlimit(40)]
proof fn lemma_avi_packet_round_trip(a: AviInfoFrame)
    requires
        avi_frame_wf(a),
    ensures
        wire_packet(avi_covered_of(a)).len() == 31,
        wire_packet(avi_covered_of(a))[2] <= 27,
        packet_of(wire_packet(avi_covered_of(a))) == InfoFramePacket::Avi(a),
        packet_warnings_of(wire_packet(avi_covered_of(a))) == Seq::<Warning>::empty(),
{
    let p = wire_packet(avi_covered_of(a));
    lemma_avi_round_trip(a);
    assert(p[0] == TYPE_CODE_AVI);
    assert(lift_avi(Seq::<AviWarning>::empty()) =~= Seq::<Warning>::empty());
}

#[verifier::spinoff_prover]
#[verifier::rlimit(40)]
proof fn lemma_audio_packet_round_trip(a: AudioInfoFrame)
    requires
        audio_frame_wf(a),
    ensures
        wire_packet(audio_covered_of(a)).len() == 31,
        wire_packet(audio_covered_of(a))[2] <= 27,
        packet_of(wire_packet(audio_covered_of(a))) == InfoFramePacket::Audio(a),
        packet_warnings_of(wire_packet(audio_covered_of(a))) == Seq::<Warning>::empty(),
{
    let hp = audio_covered_of(a);
    assert(hp.len() == 30);
    lemma_wire_packet_valid(hp);
    let p = wire_packet(hp);
    assert(p[0] == hp[0]);
    lemma_audio_round_trip(a);
    assert(p[0] == TYPE_CODE_AUDIO);
    assert(lift_audio(Seq::<AudioWarning>::empty()) =~= Seq::<Warning>::empty());
}

#[verifier::spinoff_prover]
#[verifier::rlimit(40)]
proof fn lemma_hdr_static_packet_round_trip(h: HdrStaticInfoFrame)
    requires
        hdr_static_frame_wf(h),
    ensures
        wire_packet(hdr_static_covered_of(h)).len() == 31,
        wire_packet(hdr_static_covered_of(h))[2] <= 27,
        packet_of(wire_packet(hdr_static_covered_of(h))) == InfoFramePacket::HdrStatic(h),
        h.metadata is Type1 ==> packet_warnings_of(wire_packet(hdr_static_covered_of(h)))
            == Seq::<Warning>::empty(),
{
    let p = wire_packet(hdr_static_covered_of(h));
    lemma_hdr_static_round_trip(h);
    assert(p[0] == TYPE_CODE_HDR_STATIC);
    assert(lift_hdr_static(Seq::<HdrStaticWarning>::empty()) =~= Seq::<Warning>::empty());
}

#[verifier::spinoff_prover]
#[verifier::rlimit(40)]
proof fn lemma_vsi_packet_round_trip(v: HdmiForumVsi)
    requires
        vsi_frame_wf(v),
    ensures
        wire_packet(vsi_covered_of(v)).len() == 31,
        wire_packet(vsi_covered_of(v))[2] <= 27,
        packet_of(wire_packet(vsi_covered_of(v))) == InfoFramePacket::HdmiForumVsi(v),
        packet_warnings_of(wire_packet(vsi_covered_of(v))) == Seq::<Warning>::empty(),
{
    let p = wire_packet(vsi_covered_of(v));
    lemma_vsi_round_trip(v);
    assert(p[0] == TYPE_CODE_VSIF);
    assert(has_hdmi_forum_oui(p));
    assert(lift_vsi(Seq::<HdmiForumVsiWarning>::empty()) =~= Seq::<Warning>::empty());
}

proof fn lemma_unknown_packet_round_trip(type_code: u8, version: u8, payload: [u8; 27])
    requires
        unclaimed_type_code(type_code, payload@),
    ensures
        wire_packet(unknown_covered_of(type_code, version, payload@)).len() == 31,
        wire_packet(unknown_covered_of(type_code, version, payload@))[2] <= 27,
        packet_of(wire_packet(unknown_covered_of(type_code, version, payload@)))
            == (InfoFramePacket::Unknown { type_code, version, payload }),
        packet_warnings_of(wire_packet(unknown_covered_of(type_code, version, payload@)))
            == Seq::<Warning>::empty(),
{
    let p = wire_packet(unknown_covered_of(type_code, version, payload@));
    assert(p.subrange(4, 31) =~= payload@);
    assert(p[0] == type_code);
    if type_code == TYPE_CODE_VSIF {
        assert(p.subrange(4, 7) =~= payload@.subrange(0, 3));
    }
    lemma_array_of(payload);
}

/// Round trip through the top-level decoder: the packet that a well-formed
/// single-packet InfoFrame encodes to has a valid length, and [`decode`]
/// gives back the same frame as the matching [`InfoFramePacket`] variant,
/// with no warnings (an HDR Static frame with an unknown metadata descriptor
/// is still reported as such).
#[verifier::spinoff_prover]
pub proof fn lemma_info_frame_round_trip(f: InfoFrame)
    requires
        info_frame_round_trips(f),
    ensures
        single_packet_of(f).len() == 31,
        single_packet_of(f)[2] <= 27,
        packet_of(single_packet_of(f)) == packet_for_frame(f),
        !(f matches InfoFrame::HdrStatic(h) && h.metadata is Unknown) ==> packet_warnings_of(
            single_packet_of(f),
        ) == Seq::<Warning>::empty(),
{
    match f {
        InfoFrame::Avi(a) => lemma_avi_packet_round_trip(a),
        InfoFrame::Audio(a) => lemma_audio_packet_round_trip(a),
        InfoFrame::HdrStatic(h) => lemma_hdr_static_packet_round_trip(h),
        InfoFrame::HdmiForumVsi(v) => lemma_vsi_packet_round_trip(v),
        InfoFrame::DynamicHdr(_) => {},
        InfoFrame::Unknown { type_code, version, payload } => lemma_unknown_packet_round_trip(
            type_code,
            version,
            payload,
        ),
    }
}

} // verus!
