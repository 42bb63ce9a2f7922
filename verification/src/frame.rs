use vstd::prelude::*;

use crate::audio::{audio_covered_of, AudioInfoFrame};
use crate::avi::{avi_covered_of, avi_encode_warnings_of, AviInfoFrame};
use crate::checksum::{assemble_packet, checksum_valid, lemma_wire_packet_valid, wire_packet};
use crate::decoded::Decoded;
use crate::dynamic_hdr::{
    chunk_at, dhdr_packets, format_of, lemma_dhdr_packet_fields, packet_count, payload_of, DynamicHdrFragment, DynamicHdrInfoFrame, DynamicHdrIter,
};
use crate::encode::{packets_view, IntoPackets, SinglePacketIter};
use crate::hdmi_forum_vsi::{vsi_covered_of, HdmiForumVsi};
use crate::hdr_static::{hdr_static_covered_of, HdrStaticInfoFrame};
use crate::warn::{lift_avi, AviWarning, Warning};

verus! {

/// A decoded or to-be-encoded InfoFrame of any supported type.
///
/// This is the encode-path top-level type: construct one of its variants and
/// call [`IntoPackets::into_packets`] to obtain the wire packets.
#[derive(Debug, Clone, PartialEq, Eq)]
#[non_exhaustive]
pub enum InfoFrame {
    /// AVI InfoFrame.
    Avi(AviInfoFrame),
    /// Audio InfoFrame.
    Audio(AudioInfoFrame),
    /// HDR Static Metadata InfoFrame.
    HdrStatic(HdrStaticInfoFrame),
    /// HDMI Forum Vendor-Specific InfoFrame.
    HdmiForumVsi(HdmiForumVsi),
    /// Dynamic HDR InfoFrame.
    DynamicHdr(DynamicHdrInfoFrame),
    /// An InfoFrame with an unrecognised type code.
    ///
    /// The type code, version, and raw payload bytes are preserved so that
    /// the frame can be re-encoded or forwarded without modification.
    Unknown {
        /// The InfoFrame type code (byte 0 of the packet header).
        type_code: u8,
        /// The InfoFrame version (byte 1 of the packet header).
        version: u8,
        /// The raw payload bytes (bytes 4–30 of the packet).
        payload: [u8; 27],
    },
}

/// The result of decoding a single 31-byte wire packet with the top-level
/// [`decode`](crate::decode) function.
///
/// Single-packet InfoFrame types decode to their full typed struct. Dynamic
/// HDR packets decode to a [`DynamicHdrFragment`], since a complete Dynamic
/// HDR frame spans several packets.
#[derive(Debug, Clone, PartialEq, Eq)]
#[non_exhaustive]
pub enum InfoFramePacket {
    /// AVI InfoFrame.
    Avi(AviInfoFrame),
    /// Audio InfoFrame.
    Audio(AudioInfoFrame),
    /// HDR Static Metadata InfoFrame.
    HdrStatic(HdrStaticInfoFrame),
    /// HDMI Forum Vendor-Specific InfoFrame.
    HdmiForumVsi(HdmiForumVsi),
    /// One packet of a Dynamic HDR sequence.
    DynamicHdrFragment(DynamicHdrFragment),
    /// A packet with an unrecognised type code (or a vendor-specific packet
    /// without the HDMI Forum OUI).
    Unknown {
        /// The InfoFrame type code (byte 0 of the packet header).
        type_code: u8,
        /// The InfoFrame version (byte 1 of the packet header).
        version: u8,
        /// The raw payload bytes (bytes 4–30 of the packet).
        payload: [u8; 27],
    },
}

enum IterKind {
    Single(SinglePacketIter),
    Dynamic(DynamicHdrIter),
}

/// The packet source for an [`InfoFrame`]: one packet for the single-packet
/// types, a sequence for Dynamic HDR. Its view is the sequence of packets
/// still to be yielded.
pub struct InfoFrameIter(IterKind);

impl View for InfoFrameIter {
    type V = Seq<Seq<u8>>;

    closed spec fn view(&self) -> Seq<Seq<u8>> {
        match self.0 {
            IterKind::Single(it) => packets_view(it@),
            IterKind::Dynamic(it) => it@,
        }
    }
}

impl InfoFrameIter {
    /// The underlying packet source is consistent.
    pub closed spec fn wf(&self) -> bool {
        match self.0 {
            IterKind::Single(_) => true,
            IterKind::Dynamic(it) => it.wf(),
        }
    }

    /// Yield the next packet, if any.
    pub fn next(&mut self) -> (r: Option<[u8; 31]>)
        requires
            old(self).wf(),
        ensures
            final(self).wf(),
            old(self)@.len() == 0 ==> r is None && final(self)@ == old(self)@,
            old(self)@.len() > 0 ==> (r matches Some(p) && p@ == old(self)@[0] && final(self)@
                == old(self)@.drop_first()),
    {
        match &mut self.0 {
            IterKind::Single(it) => {
                let r = it.next();
                proof {
                    assert(packets_view(it@) =~= if old(self)@.len() > 0 {
                        old(self)@.drop_first()
                    } else {
                        old(self)@
                    });
                }
                r
            },
            IterKind::Dynamic(it) => it.next(),
        }
    }

    /// Collect every packet still to be yielded, in order.
    pub fn collect_packets(self) -> (v: Vec<[u8; 31]>)
        requires
            self.wf(),
        ensures
            packets_view(v@) == self@,
    {
        match self.0 {
            IterKind::Single(it) => it.collect_packets(),
            IterKind::Dynamic(it) => it.collect_packets(),
        }
    }
}

/// The bytes an unknown InfoFrame's packet is assembled from: type code,
/// version, length 27, then the payload.
pub open spec fn unknown_covered_of(type_code: u8, version: u8, payload: Seq<u8>) -> Seq<u8> {
    seq![type_code, version, 27u8] + payload
}

/// The packets an InfoFrame encodes to: one for each single-packet type, the
/// numbered sequence carrying the payload for Dynamic HDR.
pub open spec fn info_frame_packets(f: InfoFrame) -> Seq<Seq<u8>> {
    match f {
        InfoFrame::Avi(a) => seq![wire_packet(avi_covered_of(a))],
        InfoFrame::Audio(a) => seq![wire_packet(audio_covered_of(a))],
        InfoFrame::HdrStatic(h) => seq![wire_packet(hdr_static_covered_of(h))],
        InfoFrame::HdmiForumVsi(v) => seq![wire_packet(vsi_covered_of(v))],
        InfoFrame::DynamicHdr(d) => dhdr_packets(
            format_of(d@),
            payload_of(d@).len() as u16,
            payload_of(d@),
            0,
        ),
        InfoFrame::Unknown { type_code, version, payload } => seq![
            wire_packet(unknown_covered_of(type_code, version, payload@)),
        ],
    }
}

/// Every packet any InfoFrame encodes to is 31 bytes long and its checksum
/// verifies: the checksum byte is always derived on encode.
pub proof fn lemma_encoded_packets_valid(f: InfoFrame)
    ensures
        forall|i: int|
            0 <= i < info_frame_packets(f).len() ==> (#[trigger] info_frame_packets(f)[i]).len()
                == 31 && checksum_valid(info_frame_packets(f)[i]),
{
    match f {
        InfoFrame::Avi(a) => lemma_wire_packet_valid(avi_covered_of(a)),
        InfoFrame::Audio(a) => lemma_wire_packet_valid(audio_covered_of(a)),
        InfoFrame::HdrStatic(h) => lemma_wire_packet_valid(hdr_static_covered_of(h)),
        InfoFrame::HdmiForumVsi(v) => lemma_wire_packet_valid(vsi_covered_of(v)),
        InfoFrame::DynamicHdr(d) => {
            let payload = payload_of(d@);
            let ps = info_frame_packets(f);
            assert forall|i: int| 0 <= i < ps.len() implies (#[trigger] ps[i]).len() == 31
                && checksum_valid(ps[i]) by {
                assert(i < packet_count(payload.len() as int));
                assert(chunk_at(payload, i).len() <= 23);
                lemma_dhdr_packet_fields(
                    format_of(d@),
                    payload.len() as u16,
                    i as u8,
                    chunk_at(payload, i),
                );
            }
        },
        InfoFrame::Unknown { type_code, version, payload } => lemma_wire_packet_valid(
            unknown_covered_of(type_code, version, payload@),
        ),
    }
}

/// The packet source of a single-packet frame.
fn single_iter(it: SinglePacketIter) -> (r: InfoFrameIter)
    ensures
        r == InfoFrameIter(IterKind::Single(it)),
{
    InfoFrameIter(IterKind::Single(it))
}

/// An AVI encode-time warning lifted into [`Warning`].
fn avi_encode_warning(w: AviWarning) -> (r: Warning)
    ensures
        r == Warning::Avi(w),
{
    Warning::Avi(w)
}

impl IntoPackets for InfoFrame {
    type Iter = InfoFrameIter;

    type Warning = Warning;

    /// A Dynamic HDR frame must be encodable; every other frame is.
    open spec fn can_encode(&self) -> bool {
        match self {
            InfoFrame::DynamicHdr(f) => f.can_encode(),
            _ => true,
        }
    }

    /// Encode to the packets of the frame's own type; an unknown frame becomes
    /// one packet carrying its type code, version, length 27 and payload.
    /// Encode-time warnings are lifted into [`Warning`].
    fn into_packets(self) -> (r: Decoded<InfoFrameIter, Warning>)
        ensures
            r.value.wf(),
            r.value@ == info_frame_packets(self),
            match self {
                InfoFrame::Avi(f) => r.value@ == seq![wire_packet(avi_covered_of(f))] && r.warnings@
                    == lift_avi(avi_encode_warnings_of(f)),
                InfoFrame::Audio(f) => r.value@ == seq![wire_packet(audio_covered_of(f))]
                    && r.warnings@.len() == 0,
                InfoFrame::HdrStatic(f) => r.value@ == seq![wire_packet(hdr_static_covered_of(f))]
                    && r.warnings@.len() == 0,
                InfoFrame::HdmiForumVsi(f) => r.value@ == seq![wire_packet(vsi_covered_of(f))]
                    && r.warnings@.len() == 0,
                InfoFrame::DynamicHdr(f) => r.value@ == dhdr_packets(
                    format_of(f@),
                    payload_of(f@).len() as u16,
                    payload_of(f@),
                    0,
                ) && r.warnings@.len() == 0,
                InfoFrame::Unknown { type_code, version, payload } => r.value@ == seq![
                    wire_packet(unknown_covered_of(type_code, version, payload@)),
                ] && r.warnings@.len() == 0,
            },
    {
        match self {
            InfoFrame::Avi(f) => {
                let d = f.into_packets();
                let ghost ws = d.warnings@;
                let out = d.wrap(single_iter, avi_encode_warning);
                assert(out.warnings@ =~= lift_avi(ws));
                out
            },
            InfoFrame::Audio(f) => {
                let d = f.into_packets();
                Decoded::new(InfoFrameIter(IterKind::Single(d.value)))
            },
            InfoFrame::HdrStatic(f) => {
                let d = f.into_packets();
                Decoded::new(InfoFrameIter(IterKind::Single(d.value)))
            },
            InfoFrame::HdmiForumVsi(f) => {
                let d = f.into_packets();
                Decoded::new(InfoFrameIter(IterKind::Single(d.value)))
            },
            InfoFrame::DynamicHdr(f) => {
                let d = f.into_packets();
                Decoded::new(InfoFrameIter(IterKind::Dynamic(d.value)))
            },
            InfoFrame::Unknown { type_code, version, payload } => {
                let mut hp = [0u8; 30];
                hp[0] = type_code;
                hp[1] = version;
                hp[2] = 27;
                let mut i: usize = 0;
                while i < 27
                    invariant
                        i <= 27,
                        hp@[0] == type_code,
                        hp@[1] == version,
                        hp@[2] == 27u8,
                        forall|k: int| 3 <= k < 3 + i ==> hp@[k] == payload@[k - 3],
                    decreases 27 - i,
                {
                    hp[3 + i] = payload[i];
                    i = i + 1;
                }
                assert(hp@ =~= unknown_covered_of(type_code, version, payload@));
                let packet = assemble_packet(&hp);
                let r = Decoded::new(InfoFrameIter(IterKind::Single(SinglePacketIter::new(packet))));
                assert(r.value@ =~= seq![wire_packet(unknown_covered_of(type_code, version, payload@))]);
                r
            },
        }
    }
}

} // verus!
