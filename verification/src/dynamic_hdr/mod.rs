use vstd::prelude::*;

use vstd::arithmetic::div_mod::lemma_fundamental_div_mod;

/// MSB-first bit reading and writing over metadata payloads.
pub mod bits;

/// Fixed-width field lists and repeated groups of fields.
pub mod fields;

/// HDR10+ dynamic metadata.
pub mod hdr10plus;

/// SL-HDR dynamic metadata.
pub mod slhdr;

pub use bits::{BitReader, BitWriter, MAX_DYNAMIC_HDR_PAYLOAD};
pub use hdr10plus::{
    ActualPeakLuminance, BezierAnchors, DistributionMaxrgb, Hdr10PlusMetadata, Hdr10PlusWindow,
    Hdr10PlusWindows, KneePoint,
};
pub use slhdr::{
    SlHdrBody, SlHdrExtension, SlHdrMdcvInfo, SlHdrMetadata, SlHdrMode0, SlHdrMode1, SlHdrPayload,
    SlHdrPictureInfo, SlHdrTable127, SlHdrTable15,
};

use crate::bytes::{array_of, le16, lemma_array_of, read_le16, warn_if};
use crate::checksum::{
    assemble_packet, checksum_for, checksum_valid, covered_bytes, expected_checksum,
    lemma_wire_packet_valid, packet_sum, wire_packet,
};
use crate::decoded::Decoded;
use crate::dynamic_hdr::bits::{
    bits_of_bytes, bytes_of_bits, lemma_bits_of_bytes_injective, lemma_bits_of_bytes_take,
    lemma_bytes_of_bits, max_payload_bits, zero_bits,
};
use crate::dynamic_hdr::hdr10plus::{
    enc_hdr10plus, hdr10plus_encodable, hdr10plus_mode_warnings, hdr10plus_of_bits,
    hdr10plus_warnings, hdr10plus_wf, lemma_enc_hdr10plus_len, lemma_hdr10plus_round_trip,
};
use crate::dynamic_hdr::slhdr::{
    enc_slhdr, lemma_enc_slhdr_nonempty, lemma_slhdr_round_trip, lemma_slhdr_wf_encodable,
    slhdr_encodable,
    slhdr_mode_warnings, slhdr_of_bits, slhdr_warnings, slhdr_wf, SlHdrMetadataView,
};
use crate::encode::IntoPackets;
use crate::error::DecodeError;
use crate::warn::DynamicHdrWarning;

verus! {

// ---------------------------------------------------------------------------
// Types
// ---------------------------------------------------------------------------

/// A decoded Dynamic HDR InfoFrame (HDMI 2.1 §10.2.8, type code 0x20).
///
/// Dynamic HDR metadata spans multiple wire packets. Use
/// [`DynamicHdrInfoFrame::decode_sequence`] to obtain this type.
#[derive(Debug, Clone, PartialEq, Eq)]
#[non_exhaustive]
pub enum DynamicHdrInfoFrame {
    /// HDR10+ dynamic metadata (ETSI TS 103 433-1, format identifier `0x04`).
    Hdr10Plus(Box<Hdr10PlusMetadata>),
    /// SL-HDR dynamic metadata (ETSI TS 103 433-1 Table A.1, format identifier
    /// `0x02`).
    SlHdr(Box<SlHdrMetadata>),
    /// An unrecognised metadata format.
    ///
    /// Returned when the format identifier in the packet sequence is not
    /// recognised. The raw metadata bytes are retained in `payload`, making
    /// this variant re-encodable.
    Unknown {
        /// The metadata format identifier from the first packet in the sequence.
        format_id: u8,
        /// Raw metadata bytes concatenated from all chunks in the sequence.
        payload: Vec<u8>,
    },
}

/// The contents of a [`DynamicHdrInfoFrame`].
pub enum DynamicHdrView {
    /// HDR10+ metadata.
    Hdr10Plus(Hdr10PlusMetadata),
    /// SL-HDR metadata.
    SlHdr(SlHdrMetadataView),
    /// An unrecognised format and its raw bytes.
    Unknown {
        /// The format identifier.
        format_id: u8,
        /// The raw metadata bytes.
        payload: Seq<u8>,
    },
}

impl View for DynamicHdrInfoFrame {
    type V = DynamicHdrView;

    open spec fn view(&self) -> DynamicHdrView {
        match self {
            DynamicHdrInfoFrame::Hdr10Plus(m) => DynamicHdrView::Hdr10Plus(**m),
            DynamicHdrInfoFrame::SlHdr(m) => DynamicHdrView::SlHdr(m@),
            DynamicHdrInfoFrame::Unknown { format_id, payload } => DynamicHdrView::Unknown {
                format_id: *format_id,
                payload: payload@,
            },
        }
    }
}

/// A single packet's worth of Dynamic HDR metadata, as returned by the
/// top-level [`decode`](crate::decode) function.
///
/// A full [`DynamicHdrInfoFrame`] cannot be assembled from a single wire
/// packet. The top-level decode path therefore returns this fragment type,
/// which exposes the fields the caller needs to accumulate a complete sequence.
/// Once all packets in the sequence have been collected, pass them to
/// `DynamicHdrInfoFrame::decode_sequence` to assemble the full frame.
///
/// # Wire layout
///
/// ```text
/// Byte 4 (PB0):    seq_num    — packet index in sequence (0-based)
/// Bytes 5–6 (PB1–2): total_bytes — total metadata byte count (little-endian u16)
/// Byte 7 (PB3):    format_id  — metadata format identifier
/// Bytes 8–30 (PB4–26): chunk  — up to 23 metadata bytes
/// ```
#[derive(Debug, Clone, PartialEq, Eq)]
pub struct DynamicHdrFragment {
    /// Zero-indexed position of this packet in the sequence.
    pub seq_num: u8,
    /// Total metadata byte count declared in the packet header.
    ///
    /// The sequence is complete when the sum of `chunk_len` values across all
    /// received fragments reaches this value.
    pub total_bytes: u16,
    /// Identifies the metadata format (HDR10+, SL-HDR, etc.).
    pub format_id: u8,
    /// The metadata bytes carried by this packet.
    ///
    /// Only `chunk[..chunk_len as usize]` contains meaningful data. The final
    /// packet in a sequence may carry fewer than 23 bytes.
    pub chunk: [u8; 23],
    /// Number of valid bytes in [`chunk`](DynamicHdrFragment::chunk).
    ///
    /// Always ≤ 23.
    pub chunk_len: u8,
}

// ---------------------------------------------------------------------------
// Fragments
// ---------------------------------------------------------------------------

/// The number of metadata bytes a packet carries: its length field less the
/// four header bytes, at most 23.
pub open spec fn chunk_len_of(length: u8) -> u8 {
    if length < 4 {
        0
    } else if length - 4 > 23 {
        23
    } else {
        (length - 4) as u8
    }
}

/// The metadata bytes a packet carries.
pub open spec fn chunk_of(p: Seq<u8>) -> Seq<u8> {
    p.subrange(8, 8 + chunk_len_of(p[2]))
}

/// The fragment a packet decodes to (valid when `packet[2] <= 27`).
pub open spec fn fragment_of(p: Seq<u8>) -> DynamicHdrFragment {
    DynamicHdrFragment {
        seq_num: p[4],
        total_bytes: le16(p[5], p[6]),
        format_id: p[7],
        chunk: array_of(
            Seq::new(23, |i: int| if i < chunk_len_of(p[2]) { p[8 + i] } else { 0u8 }),
        ),
        chunk_len: chunk_len_of(p[2]),
    }
}

/// The warnings decoding a packet into a fragment records: a checksum
/// mismatch.
pub open spec fn fragment_warnings_of(p: Seq<u8>) -> Seq<DynamicHdrWarning> {
    warn_if(
        !checksum_valid(p),
        DynamicHdrWarning::ChecksumMismatch {
            expected: checksum_for(covered_bytes(p)),
            found: p[3],
        },
    )
}

impl DynamicHdrFragment {
    /// Decode a single Dynamic HDR InfoFrame packet into a fragment.
    ///
    /// Each Dynamic HDR packet carries a sequence index, the total metadata
    /// byte count, a format identifier, and up to 23 bytes of metadata. The
    /// caller is responsible for collecting fragments until the sequence is
    /// complete, then passing the full packet sequence to
    /// `DynamicHdrInfoFrame::decode_sequence`.
    ///
    /// # Errors
    ///
    /// Returns [`DecodeError::Truncated`] if `packet[2] > 27`.
    ///
    /// # Warnings
    ///
    /// The returned [`Decoded`] may carry:
    /// - [`DynamicHdrWarning::ChecksumMismatch`]
    pub fn decode(packet: &[u8; 31]) -> (r: Result<Decoded<DynamicHdrFragment, DynamicHdrWarning>, DecodeError>)
        ensures
            packet@[2] > 27 ==> r == Err::<Decoded<DynamicHdrFragment, DynamicHdrWarning>, DecodeError>(
                DecodeError::Truncated { claimed: packet@[2] },
            ),
            packet@[2] <= 27 ==> (r matches Ok(d) && d.value == fragment_of(packet@)
                && d.value.chunk@ == Seq::new(
                23,
                |i: int| if i < chunk_len_of(packet@[2]) { packet@[8 + i] } else { 0u8 },
            ) && d.warnings@ == fragment_warnings_of(packet@)),
    {
        let length = packet[2];
        if length > 27 {
            return Err(DecodeError::Truncated { claimed: length });
        }
        let mut warnings: Vec<DynamicHdrWarning> = Vec::new();
        if packet_sum(packet) != 0 {
            let expected = expected_checksum(packet);
            warnings.push(DynamicHdrWarning::ChecksumMismatch { expected, found: packet[3] });
        }
        assert(warnings@ =~= fragment_warnings_of(packet@));
        let chunk_len: u8 = if length < 4 {
            0
        } else if length - 4 > 23 {
            23
        } else {
            length - 4
        };
        let mut chunk = [0u8; 23];
        let mut i: usize = 0;
        while i < chunk_len as usize
            invariant
                chunk_len <= 23,
                chunk_len == chunk_len_of(packet@[2]),
                i <= chunk_len,
                forall|k: int| 0 <= k < i ==> chunk@[k] == packet@[8 + k],
                forall|k: int| i <= k < 23 ==> chunk@[k] == 0u8,
            decreases chunk_len - i,
        {
            chunk[i] = packet[8 + i];
            i = i + 1;
        }
        proof {
            lemma_array_of(chunk);
            assert(chunk@ =~= Seq::new(
                23,
                |i: int| if i < chunk_len_of(packet@[2]) { packet@[8 + i] } else { 0u8 },
            ));
        }
        let value = DynamicHdrFragment {
            seq_num: packet[4],
            total_bytes: read_le16(packet[5], packet[6]),
            format_id: packet[7],
            chunk,
            chunk_len,
        };
        Ok(Decoded { value, warnings })
    }
}

} // verus!

verus! {

// ---------------------------------------------------------------------------
// Sequences
// ---------------------------------------------------------------------------

/// The metadata bytes assembled from a packet sequence: each chunk appended in
/// turn, except one that would take the total past
/// [`MAX_DYNAMIC_HDR_PAYLOAD`] bytes, which is dropped.
pub open spec fn assembled(ps: Seq<Seq<u8>>) -> Seq<u8>
    decreases ps.len(),
{
    if ps.len() == 0 {
        Seq::empty()
    } else {
        let a = assembled(ps.drop_last());
        let c = chunk_of(ps.last());
        if a.len() + c.len() <= MAX_DYNAMIC_HDR_PAYLOAD {
            a + c
        } else {
            a
        }
    }
}

/// The length claimed by the first packet whose length field exceeds 27, if
/// any.
pub open spec fn truncated_claim(ps: Seq<Seq<u8>>) -> Option<u8>
    decreases ps.len(),
{
    if ps.len() == 0 {
        None
    } else {
        match truncated_claim(ps.drop_last()) {
            Some(c) => Some(c),
            None => if ps.last()[2] > 27 {
                Some(ps.last()[2])
            } else {
                None
            },
        }
    }
}

/// The warnings packet `i` of a sequence records: its fragment's warnings,
/// a sequence number other than its index, and (after the first packet) a
/// total byte count or format identifier other than the first packet's.
pub open spec fn packet_warnings(p: Seq<u8>, i: int, tb0: u16, fmt0: u8) -> Seq<DynamicHdrWarning> {
    fragment_warnings_of(p) + warn_if(
        p[4] != i as u8,
        DynamicHdrWarning::OutOfOrderPacket { index: i as u8, found: p[4] },
    ) + warn_if(
        i > 0 && le16(p[5], p[6]) != tb0,
        DynamicHdrWarning::InconsistentTotalBytes {
            packet: i as u8,
            expected: tb0,
            found: le16(p[5], p[6]),
        },
    ) + warn_if(
        i > 0 && p[7] != fmt0,
        DynamicHdrWarning::InconsistentFormatId { packet: i as u8, expected: fmt0, found: p[7] },
    )
}

/// The warnings of every packet of a sequence, in order.
pub open spec fn sequence_warnings(ps: Seq<Seq<u8>>, tb0: u16, fmt0: u8) -> Seq<DynamicHdrWarning>
    decreases ps.len(),
{
    if ps.len() == 0 {
        Seq::empty()
    } else {
        sequence_warnings(ps.drop_last(), tb0, fmt0) + packet_warnings(
            ps.last(),
            ps.len() - 1,
            tb0,
            fmt0,
        )
    }
}

/// The frame an assembled payload of the given format decodes to, or `None`
/// when a recognised format's payload is malformed.
pub open spec fn frame_of_payload(fmt: u8, payload: Seq<u8>) -> Option<DynamicHdrView> {
    if fmt == 0x02 {
        match slhdr_of_bits(bits_of_bytes(payload)) {
            Some(m) => Some(DynamicHdrView::SlHdr(m)),
            None => None,
        }
    } else if fmt == 0x04 {
        match hdr10plus_of_bits(bits_of_bytes(payload)) {
            Some(m) => Some(DynamicHdrView::Hdr10Plus(m)),
            None => None,
        }
    } else {
        Some(DynamicHdrView::Unknown { format_id: fmt, payload })
    }
}

/// The warnings decoding an assembled payload of the given format records.
pub open spec fn format_warnings(fmt: u8, payload: Seq<u8>) -> Seq<DynamicHdrWarning> {
    if fmt == 0x02 {
        slhdr_warnings(bits_of_bytes(payload))
    } else if fmt == 0x04 {
        hdr10plus_warnings(bits_of_bytes(payload))
    } else {
        Seq::empty()
    }
}

/// At most the first four warnings.
pub open spec fn first_four<T>(s: Seq<T>) -> Seq<T> {
    if s.len() <= 4 {
        s
    } else {
        s.take(4)
    }
}

/// A packet's length is truncated when the sequence up to it reports none.
proof fn lemma_truncated_claim_prefix(ps: Seq<Seq<u8>>, j: int)
    requires
        0 <= j <= ps.len(),
        truncated_claim(ps.take(j)) is Some,
    ensures
        truncated_claim(ps) == truncated_claim(ps.take(j)),
    decreases ps.len(),
{
    if j == ps.len() {
        assert(ps.take(j) =~= ps);
    } else {
        assert(ps.drop_last().take(j) =~= ps.take(j));
        lemma_truncated_claim_prefix(ps.drop_last(), j);
    }
}

/// The warnings of a fragment lifted into a warning list.
fn append_warnings(dst: &mut Vec<DynamicHdrWarning>, src: &Vec<DynamicHdrWarning>, limit: usize)
    ensures
        final(dst)@ == old(dst)@ + if src@.len() <= limit {
            src@
        } else {
            src@.take(limit as int)
        },
{
    let n = if src.len() <= limit {
        src.len()
    } else {
        limit
    };
    let mut i: usize = 0;
    while i < n
        invariant
            n <= src@.len(),
            n == if src@.len() <= limit {
                src@.len()
            } else {
                limit as nat
            },
            i <= n,
            dst@ == old(dst)@ + src@.take(i as int),
        decreases n - i,
    {
        dst.push(src[i]);
        i = i + 1;
        assert(dst@ =~= old(dst)@ + src@.take(i as int));
    }
    assert(src@.take(n as int) =~= if src@.len() <= limit {
        src@
    } else {
        src@.take(limit as int)
    });
}

impl DynamicHdrInfoFrame {
    /// Assemble a [`DynamicHdrInfoFrame`] from a complete sequence of wire packets.
    ///
    /// The caller is responsible for collecting the sequence. When the sum of
    /// `chunk_len` values across all [`DynamicHdrFragment`]s received via the
    /// top-level [`decode`](crate::decode) function equals `total_bytes`, the
    /// sequence is complete and ready to pass here.
    ///
    /// The format identifier is read from the first packet in the sequence
    /// (byte 7, PB3). Unknown format identifiers produce
    /// [`DynamicHdrInfoFrame::Unknown`] with the raw payload bytes retained.
    ///
    /// # Errors
    ///
    /// Returns [`DecodeError::EmptySequence`] if `packets` is empty,
    /// [`DecodeError::Truncated`] if any packet in `packets` has
    /// `packet[2] > 27` (for the first such packet), and
    /// [`DecodeError::MalformedPayload`] if the assembled HDR10+ or SL-HDR
    /// payload is malformed.
    ///
    /// # Warnings
    ///
    /// The returned [`Decoded`] may carry, per packet:
    /// - [`DynamicHdrWarning::ChecksumMismatch`] — for any packet whose
    ///   checksum does not verify;
    /// - [`DynamicHdrWarning::OutOfOrderPacket`] — for a packet whose `seq_num`
    ///   is not its position;
    /// - [`DynamicHdrWarning::InconsistentTotalBytes`] and
    ///   [`DynamicHdrWarning::InconsistentFormatId`] — for a later packet that
    ///   disagrees with the first;
    ///
    /// then at most four warnings from decoding the assembled payload.
    pub fn decode_sequence(packets: &[[u8; 31]]) -> (r: Result<
        Decoded<DynamicHdrInfoFrame, DynamicHdrWarning>,
        DecodeError,
    >)
        ensures
            packets@.len() == 0 ==> r == Err::<Decoded<DynamicHdrInfoFrame, DynamicHdrWarning>, DecodeError>(
                DecodeError::EmptySequence,
            ),
            packets@.len() > 0 ==> match truncated_claim(crate::encode::packets_view(packets@)) {
                Some(c) => r == Err::<Decoded<DynamicHdrInfoFrame, DynamicHdrWarning>, DecodeError>(
                    DecodeError::Truncated { claimed: c },
                ),
                None => {
                    let ps = crate::encode::packets_view(packets@);
                    let fmt = ps[0][7];
                    let tb = le16(ps[0][5], ps[0][6]);
                    let payload = assembled(ps);
                    match frame_of_payload(fmt, payload) {
                        Some(v) => r matches Ok(d) && d.value@ == v && d.warnings@
                            == sequence_warnings(ps, tb, fmt) + first_four(
                            format_warnings(fmt, payload),
                        ),
                        None => r == Err::<Decoded<DynamicHdrInfoFrame, DynamicHdrWarning>, DecodeError>(
                            DecodeError::MalformedPayload,
                        ),
                    }
                },
            },
    {
        if packets.len() == 0 {
            return Err(DecodeError::EmptySequence);
        }
        let ghost ps = crate::encode::packets_view(packets@);
        // Read sequence-level invariants from the first packet.
        let format_id = packets[0][7];
        let total_bytes = read_le16(packets[0][5], packets[0][6]);
        assert(format_id == ps[0][7] && total_bytes == le16(ps[0][5], ps[0][6]));
        let mut warnings: Vec<DynamicHdrWarning> = Vec::new();
        let mut payload: Vec<u8> = Vec::new();
        let mut i: usize = 0;
        assert(ps.take(0) =~= Seq::<Seq<u8>>::empty());
        while i < packets.len()
            invariant
                ps == crate::encode::packets_view(packets@),
                ps.len() == packets@.len(),
                format_id == ps[0][7],
                total_bytes == le16(ps[0][5], ps[0][6]),
                i <= packets.len(),
                truncated_claim(ps.take(i as int)) is None,
                warnings@ == sequence_warnings(ps.take(i as int), total_bytes, format_id),
                payload@ == assembled(ps.take(i as int)),
                payload@.len() <= MAX_DYNAMIC_HDR_PAYLOAD,
            decreases packets.len() - i,
        {
            let ghost p = ps[i as int];
            assert(p == packets@[i as int]@);
            assert(ps.take(i + 1).drop_last() =~= ps.take(i as int));
            let frag = match DynamicHdrFragment::decode(&packets[i]) {
                Ok(f) => f,
                Err(e) => {
                    proof {
                        lemma_truncated_claim_prefix(ps, i + 1);
                    }
                    return Err(e);
                },
            };
            append_warnings(&mut warnings, &frag.warnings, 1);
            // Sequence integrity.
            if frag.value.seq_num != i as u8 {
                warnings.push(
                    DynamicHdrWarning::OutOfOrderPacket { index: i as u8, found: frag.value.seq_num },
                );
            }
            if i > 0 {
                if frag.value.total_bytes != total_bytes {
                    warnings.push(
                        DynamicHdrWarning::InconsistentTotalBytes {
                            packet: i as u8,
                            expected: total_bytes,
                            found: frag.value.total_bytes,
                        },
                    );
                }
                if frag.value.format_id != format_id {
                    warnings.push(
                        DynamicHdrWarning::InconsistentFormatId {
                            packet: i as u8,
                            expected: format_id,
                            found: frag.value.format_id,
                        },
                    );
                }
            }
            assert(warnings@ =~= sequence_warnings(ps.take(i + 1), total_bytes, format_id));
            // Append the chunk when it still fits the payload buffer.
            let chunk_len = frag.value.chunk_len as usize;
            if payload.len() + chunk_len <= MAX_DYNAMIC_HDR_PAYLOAD {
                let ghost before = payload@;
                let mut j: usize = 0;
                while j < chunk_len
                    invariant
                        chunk_len <= 23,
                        chunk_len == chunk_len_of(p[2]),
                        frag.value == fragment_of(p),
                        frag.value.chunk@ == Seq::new(
                            23,
                            |i: int| if i < chunk_len_of(p[2]) { p[8 + i] } else { 0u8 },
                        ),
                        p.len() == 31,
                        j <= chunk_len,
                        payload@ == before + chunk_of(p).take(j as int),
                    decreases chunk_len - j,
                {
                    payload.push(frag.value.chunk[j]);
                    j = j + 1;
                    assert(payload@ =~= before + chunk_of(p).take(j as int));
                }
                assert(chunk_of(p).take(chunk_len as int) =~= chunk_of(p));
            }
            assert(payload@ =~= assembled(ps.take(i + 1)));
            i = i + 1;
        }
        assert(ps.take(packets.len() as int) =~= ps);
        let ghost bytes = payload@;
        let mut fmt_warns: Vec<DynamicHdrWarning> = Vec::new();
        let value = if format_id == 0x02 {
            match SlHdrMetadata::decode(payload.as_slice(), &mut fmt_warns) {
                Ok(meta) => DynamicHdrInfoFrame::SlHdr(Box::new(meta)),
                Err(e) => return Err(e),
            }
        } else if format_id == 0x04 {
            match Hdr10PlusMetadata::decode(payload.as_slice(), &mut fmt_warns) {
                Ok(meta) => DynamicHdrInfoFrame::Hdr10Plus(Box::new(meta)),
                Err(e) => return Err(e),
            }
        } else {
            DynamicHdrInfoFrame::Unknown { format_id, payload }
        };
        assert(fmt_warns@ =~= format_warnings(format_id, bytes));
        append_warnings(&mut warnings, &fmt_warns, 4);
        Ok(Decoded { value, warnings })
    }
}

} // verus!

verus! {

// ---------------------------------------------------------------------------
// Encoding
// ---------------------------------------------------------------------------

/// The 31-byte packet carrying one chunk of a sequence: type 0x20, version 1,
/// length `4 + chunk length`, then the sequence number, the total byte count
/// (little-endian), the format identifier and the chunk, zero-padded.
pub open spec fn dhdr_packet(fmt: u8, tb: u16, seq: u8, chunk: Seq<u8>) -> Seq<u8> {
    wire_packet(
        seq![0x20u8, 0x01u8, (4 + chunk.len()) as u8, seq, (tb % 256) as u8, (tb / 256) as u8, fmt]
            + chunk + Seq::new((23 - chunk.len()) as nat, |i: int| 0u8),
    )
}

/// The number of packets `n` metadata bytes take: one per 23 bytes, the last
/// one partial.
pub open spec fn packet_count(n: int) -> int {
    (n + 22) / 23
}

/// The bytes packet `k` carries: bytes `23 k` up to `23 k + 23` (or the end).
pub open spec fn chunk_at(payload: Seq<u8>, k: int) -> Seq<u8> {
    payload.subrange(
        23 * k,
        if 23 * k + 23 <= payload.len() {
            23 * k + 23
        } else {
            payload.len() as int
        },
    )
}

/// The packets carrying `payload`, numbered from `seq0`.
pub open spec fn dhdr_packets(fmt: u8, tb: u16, payload: Seq<u8>, seq0: int) -> Seq<Seq<u8>> {
    Seq::new(
        packet_count(payload.len() as int) as nat,
        |k: int| dhdr_packet(fmt, tb, (seq0 + k) as u8, chunk_at(payload, k)),
    )
}

/// Packet source for a Dynamic HDR InfoFrame.
///
/// Yields 31-byte wire packets, each carrying up to 23 bytes of the metadata
/// payload. Its view is the sequence of packets still to be yielded.
pub struct DynamicHdrIter {
    format_id: u8,
    total_bytes: u16,
    offset: usize,
    seq_num: u8,
    payload: Vec<u8>,
}

impl View for DynamicHdrIter {
    type V = Seq<Seq<u8>>;

    closed spec fn view(&self) -> Seq<Seq<u8>> {
        dhdr_packets(
            self.format_id,
            self.total_bytes,
            self.payload@.skip(self.offset as int),
            self.seq_num as int,
        )
    }
}

impl DynamicHdrIter {
    /// The position lies within the payload, and the packets left fit the
    /// 8-bit sequence numbering.
    pub closed spec fn wf(&self) -> bool {
        &&& self.offset <= self.payload@.len()
        &&& self.seq_num + packet_count(self.payload@.len() - self.offset) <= 255
    }

    /// A source yielding the packets that carry `payload`, numbered from 0.
    fn new(format_id: u8, payload: Vec<u8>) -> (it: Self)
        requires
            payload@.len() <= 255 * 23,
        ensures
            it.wf(),
            it@ == dhdr_packets(format_id, payload@.len() as u16, payload@, 0),
    {
        let total_bytes = payload.len() as u16;
        let it = DynamicHdrIter { format_id, total_bytes, offset: 0, seq_num: 0, payload };
        assert(it.payload@.skip(0) =~= it.payload@);
        it
    }

    /// Yield the next packet, if any.
    pub fn next(&mut self) -> (r: Option<[u8; 31]>)
        requires
            old(self).wf(),
        ensures
            final(self).wf(),
            old(self)@.len() == 0 ==> r is None && final(self)@ == old(self)@,
            old(self)@.len() > 0 ==> (r matches Some(p) && p@ == old(self)@[0] && final(self)@
                == old(self)@.drop_first()),
    {
        let payload_len = self.payload.len();
        if self.offset >= payload_len {
            return None;
        }
        let ghost rem = self.payload@.skip(self.offset as int);
        let remaining = payload_len - self.offset;
        let chunk_len: usize = if remaining < 23 {
            remaining
        } else {
            23
        };
        let mut hp = [0u8; 30];
        hp[0] = 0x20;  // Dynamic HDR type code
        hp[1] = 0x01;  // version
        hp[2] = (4 + chunk_len) as u8;
        hp[3] = self.seq_num;
        hp[4] = (self.total_bytes % 256) as u8;
        hp[5] = (self.total_bytes / 256) as u8;
        hp[6] = self.format_id;
        let mut j: usize = 0;
        while j < chunk_len
            invariant
                chunk_len <= 23,
                payload_len == self.payload@.len(),
                self.offset + chunk_len <= payload_len,
                j <= chunk_len,
                hp@[0] == 0x20u8,
                hp@[1] == 0x01u8,
                hp@[2] == (4 + chunk_len) as u8,
                hp@[3] == self.seq_num,
                hp@[4] == (self.total_bytes % 256) as u8,
                hp@[5] == (self.total_bytes / 256) as u8,
                hp@[6] == self.format_id,
                forall|k: int| 7 <= k < 7 + j ==> hp@[k] == self.payload@[self.offset + k - 7],
                forall|k: int| 7 + j <= k < 30 ==> hp@[k] == 0u8,
            decreases chunk_len - j,
        {
            hp[7 + j] = self.payload[self.offset + j];
            j = j + 1;
        }
        let ghost chunk = chunk_at(rem, 0);
        assert(chunk =~= self.payload@.subrange(
            self.offset as int,
            self.offset + chunk_len,
        ));
        assert(hp@ =~= seq![
            0x20u8,
            0x01u8,
            (4 + chunk.len()) as u8,
            self.seq_num,
            (self.total_bytes % 256) as u8,
            (self.total_bytes / 256) as u8,
            self.format_id,
        ] + chunk + Seq::new((23 - chunk.len()) as nat, |i: int| 0u8));
        let packet = assemble_packet(&hp);
        let ghost old_view = self@;
        self.offset = self.offset + chunk_len;
        self.seq_num = self.seq_num + 1;
        proof {
            let rem2 = self.payload@.skip(self.offset as int);
            assert forall|k: int| 0 <= k < self@.len() implies #[trigger] self@[k] == old_view[k + 1] by {
                assert(chunk_at(rem2, k) =~= chunk_at(rem, k + 1));
            }
            assert(self@ =~= old_view.drop_first());
        }
        Some(packet)
    }

    /// Collect every packet still to be yielded, in order.
    pub fn collect_packets(self) -> (v: Vec<[u8; 31]>)
        requires
            self.wf(),
        ensures
            crate::encode::packets_view(v@) == self@,
    {
        let ghost all = self@;
        let mut it = self;
        let mut out: Vec<[u8; 31]> = Vec::new();
        let mut done = false;
        while !done
            invariant
                it.wf(),
                crate::encode::packets_view(out@) + it@ == all,
                done ==> it@.len() == 0,
            decreases (if done {
                0
            } else {
                it@.len() + 1
            }),
        {
            let ghost before = out@;
            match it.next() {
                Some(p) => {
                    out.push(p);
                    assert(crate::encode::packets_view(out@) =~= crate::encode::packets_view(
                        before,
                    ).push(p@));
                },
                None => {
                    done = true;
                },
            }
        }
        assert(crate::encode::packets_view(out@) + it@ =~= crate::encode::packets_view(out@));
        out
    }
}

} // verus!

verus! {

/// The format identifier a frame is sent with.
pub open spec fn format_of(v: DynamicHdrView) -> u8 {
    match v {
        DynamicHdrView::Hdr10Plus(_) => 0x04,
        DynamicHdrView::SlHdr(_) => 0x02,
        DynamicHdrView::Unknown { format_id, .. } => format_id,
    }
}

/// The metadata bytes a frame is sent as: the packed encoding of HDR10+ or
/// SL-HDR metadata, or the raw bytes of an unknown format.
pub open spec fn payload_of(v: DynamicHdrView) -> Seq<u8> {
    match v {
        DynamicHdrView::Hdr10Plus(m) => bytes_of_bits(enc_hdr10plus(m)),
        DynamicHdrView::SlHdr(m) => bytes_of_bits(enc_slhdr(m)),
        DynamicHdrView::Unknown { payload, .. } => payload,
    }
}

/// A frame the encoder can send: encodable metadata, or an unknown payload
/// whose packets fit the 8-bit sequence numbering.
pub open spec fn dynamic_hdr_encodable(v: DynamicHdrView) -> bool {
    match v {
        DynamicHdrView::Hdr10Plus(m) => hdr10plus_encodable(m),
        DynamicHdrView::SlHdr(m) => slhdr_encodable(m),
        DynamicHdrView::Unknown { payload, .. } => payload.len() <= 255 * 23,
    }
}

/// The payload bytes of an encoder's buffer are the packed encoding.
proof fn lemma_buffer_payload(buf: Seq<u8>, len: int, enc: Seq<bool>)
    requires
        buf.len() == MAX_DYNAMIC_HDR_PAYLOAD,
        enc.len() <= max_payload_bits(),
        len == (enc.len() + 7) / 8,
        bits_of_bytes(buf) == enc + zero_bits(max_payload_bits() - enc.len()),
    ensures
        buf.take(len) == bytes_of_bits(enc),
{
    lemma_bits_of_bytes_take(buf, len);
    lemma_bytes_of_bits(enc);
    assert(bits_of_bytes(buf).take(len * 8) =~= enc + zero_bits(len * 8 - enc.len()));
    lemma_bits_of_bytes_injective(buf.take(len), bytes_of_bits(enc));
}

/// The first `len` bytes of a buffer.
fn prefix_vec(buf: &[u8; MAX_DYNAMIC_HDR_PAYLOAD], len: usize) -> (v: Vec<u8>)
    requires
        len <= MAX_DYNAMIC_HDR_PAYLOAD,
    ensures
        v@ == buf@.take(len as int),
{
    let mut v: Vec<u8> = Vec::new();
    let mut i: usize = 0;
    while i < len
        invariant
            len <= MAX_DYNAMIC_HDR_PAYLOAD,
            i <= len,
            v@ == buf@.take(i as int),
        decreases len - i,
    {
        v.push(buf[i]);
        i = i + 1;
        assert(v@ =~= buf@.take(i as int));
    }
    v
}

impl IntoPackets for DynamicHdrInfoFrame {
    type Iter = DynamicHdrIter;

    type Warning = DynamicHdrWarning;

    /// HDR10+ and SL-HDR metadata must be encodable; an unknown payload must
    /// fit 255 packets.
    open spec fn can_encode(&self) -> bool {
        dynamic_hdr_encodable(self@)
    }

    /// Encode to the packets carrying the frame's metadata bytes, 23 per
    /// packet; encoding never warns.
    fn into_packets(self) -> (r: Decoded<DynamicHdrIter, DynamicHdrWarning>)
        ensures
            r.value.wf(),
            r.value@ == dhdr_packets(
                format_of(self@),
                payload_of(self@).len() as u16,
                payload_of(self@),
                0,
            ),
            r.warnings@ == Seq::<DynamicHdrWarning>::empty(),
    {
        match self {
            DynamicHdrInfoFrame::Unknown { format_id, payload } => {
                Decoded::new(DynamicHdrIter::new(format_id, payload))
            },
            DynamicHdrInfoFrame::Hdr10Plus(meta) => {
                let (buf, len) = meta.encode();
                proof {
                    lemma_buffer_payload(buf@, len as int, enc_hdr10plus(*meta));
                }
                Decoded::new(DynamicHdrIter::new(0x04, prefix_vec(&buf, len)))
            },
            DynamicHdrInfoFrame::SlHdr(meta) => {
                let (buf, len) = meta.encode();
                proof {
                    lemma_buffer_payload(buf@, len as int, enc_slhdr(meta@));
                }
                Decoded::new(DynamicHdrIter::new(0x02, prefix_vec(&buf, len)))
            },
        }
    }
}

} // verus!

verus! {

// ---------------------------------------------------------------------------
// Laws
// ---------------------------------------------------------------------------

/// A frame whose packets decode back to it: well-formed metadata, or an
/// unknown format that is not one the decoder recognises with a non-empty
/// payload within [`MAX_DYNAMIC_HDR_PAYLOAD`] bytes.
pub open spec fn dynamic_hdr_wf(v: DynamicHdrView) -> bool {
    match v {
        DynamicHdrView::Hdr10Plus(m) => hdr10plus_wf(m),
        DynamicHdrView::SlHdr(m) => slhdr_wf(m),
        DynamicHdrView::Unknown { format_id, payload } => format_id != 0x02 && format_id != 0x04
            && 0 < payload.len() <= MAX_DYNAMIC_HDR_PAYLOAD,
    }
}

/// The warnings decoding a well-formed frame's payload records.
pub open spec fn dynamic_hdr_mode_warnings(v: DynamicHdrView) -> Seq<DynamicHdrWarning> {
    match v {
        DynamicHdrView::Hdr10Plus(m) => hdr10plus_mode_warnings(m),
        DynamicHdrView::SlHdr(m) => slhdr_mode_warnings(m),
        DynamicHdrView::Unknown { .. } => Seq::empty(),
    }
}

/// Every field of a packet of a sequence is read back as written, and its
/// checksum verifies.
pub proof fn lemma_dhdr_packet_fields(fmt: u8, tb: u16, seq: u8, chunk: Seq<u8>)
    requires
        chunk.len() <= 23,
    ensures
        dhdr_packet(fmt, tb, seq, chunk).len() == 31,
        dhdr_packet(fmt, tb, seq, chunk)[2] == 4 + chunk.len(),
        dhdr_packet(fmt, tb, seq, chunk)[4] == seq,
        le16(dhdr_packet(fmt, tb, seq, chunk)[5], dhdr_packet(fmt, tb, seq, chunk)[6]) == tb,
        dhdr_packet(fmt, tb, seq, chunk)[7] == fmt,
        chunk_of(dhdr_packet(fmt, tb, seq, chunk)) == chunk,
        checksum_valid(dhdr_packet(fmt, tb, seq, chunk)),
        fragment_warnings_of(dhdr_packet(fmt, tb, seq, chunk)) == Seq::<DynamicHdrWarning>::empty(),
{
    let hp = seq![0x20u8, 0x01u8, (4 + chunk.len()) as u8, seq, (tb % 256) as u8, (tb / 256) as u8, fmt]
        + chunk + Seq::new((23 - chunk.len()) as nat, |i: int| 0u8);
    assert(hp.len() == 30);
    lemma_wire_packet_valid(hp);
    let p = wire_packet(hp);
    assert forall|i: int| 4 <= i < 31 implies p[i] == hp[i - 1] by {}
    lemma_fundamental_div_mod(tb as int, 256);
    assert(chunk_of(p) =~= chunk);
}

/// The packets carrying a payload are numbered in order from zero, one per
/// 23 bytes with only the last one partial: packet `k` is a 31-byte packet
/// with a verifying checksum, sequence number `k`, length `4` plus its chunk,
/// the byte count and format, and bytes `23 k` onward of the payload as its
/// chunk. A [`DynamicHdrIter`] yields them in this order, one per call of
/// `next`, and nothing after the last.
pub proof fn lemma_dhdr_packets_numbered(fmt: u8, tb: u16, payload: Seq<u8>)
    requires
        payload.len() <= 255 * 23,
    ensures
        dhdr_packets(fmt, tb, payload, 0).len() == packet_count(payload.len() as int),
        packet_count(payload.len() as int) <= 255,
        forall|k: int|
            0 <= k < packet_count(payload.len() as int) ==> {
                let pk = #[trigger] dhdr_packets(fmt, tb, payload, 0)[k];
                &&& pk.len() == 31
                &&& checksum_valid(pk)
                &&& pk[4] == k
                &&& pk[2] == 4 + chunk_at(payload, k).len()
                &&& le16(pk[5], pk[6]) == tb
                &&& pk[7] == fmt
                &&& chunk_of(pk) == chunk_at(payload, k)
                &&& chunk_at(payload, k) == payload.subrange(
                    23 * k,
                    if k + 1 < packet_count(payload.len() as int) {
                        23 * k + 23
                    } else {
                        payload.len() as int
                    },
                )
            },
{
    let n = packet_count(payload.len() as int);
    assert forall|k: int| 0 <= k < n implies {
        let pk = #[trigger] dhdr_packets(fmt, tb, payload, 0)[k];
        &&& pk.len() == 31
        &&& checksum_valid(pk)
        &&& pk[4] == k
        &&& pk[2] == 4 + chunk_at(payload, k).len()
        &&& le16(pk[5], pk[6]) == tb
        &&& pk[7] == fmt
        &&& chunk_of(pk) == chunk_at(payload, k)
        &&& chunk_at(payload, k) == payload.subrange(
            23 * k,
            if k + 1 < n {
                23 * k + 23
            } else {
                payload.len() as int
            },
        )
    } by {
        let len = payload.len() as int;
        assert((k + 1 < n ==> 23 * k + 23 < len) && (k + 1 >= n ==> len <= 23 * k + 23))
            by (nonlinear_arith)
            requires
                n == (len + 22) / 23,
                0 <= k < n,
                0 <= len,
        ;
        assert(chunk_at(payload, k).len() <= 23);
        lemma_dhdr_packet_fields(fmt, tb, k as u8, chunk_at(payload, k));
    }
}

/// What the `j`-th call of `next` (counting from zero) returns on an iterator
/// that starts with the packets `ps`: the `j`-th packet, or nothing past the
/// last.
pub open spec fn nth_next(ps: Seq<Seq<u8>>, j: int) -> Option<Seq<u8>> {
    if 0 <= j < ps.len() {
        Some(ps[j])
    } else {
        None
    }
}

/// The packets left, after `j` calls of `next`, of an iterator that starts
/// with the packets `ps`.
pub open spec fn after_nexts(ps: Seq<Seq<u8>>, j: int) -> Seq<Seq<u8>> {
    if j < ps.len() {
        ps.skip(j)
    } else {
        Seq::empty()
    }
}

/// Iterating the packets of a payload of `L` bytes, call by call: each call
/// of [`DynamicHdrIter::next`] on what `j` calls left (by its contract, the
/// first remaining packet and the rest, or nothing and no change) returns
/// [`nth_next`] and leaves [`after_nexts`] of `j + 1`. The first
/// `ceil(L / 23)` calls return 31-byte packets with a verifying checksum whose
/// sequence number is the number of packets returned before; every later call
/// returns nothing. No call can overflow the sequence number, as there are at
/// most 255 packets.
pub proof fn lemma_dhdr_iter_calls(fmt: u8, payload: Seq<u8>, j: int)
    requires
        payload.len() <= 255 * 23,
        0 <= j,
    ensures
        ({
            let ps = dhdr_packets(fmt, payload.len() as u16, payload, 0);
            let left = after_nexts(ps, j);
            &&& after_nexts(ps, 0) == ps
            &&& left.len() == 0 ==> nth_next(ps, j) is None && after_nexts(ps, j + 1) == left
            &&& left.len() > 0 ==> nth_next(ps, j) == Some(left[0]) && after_nexts(ps, j + 1)
                == left.drop_first()
            &&& j < packet_count(payload.len() as int) ==> (nth_next(ps, j) matches Some(pk) && pk.len()
                == 31 && checksum_valid(pk) && pk[4] == j)
            &&& j >= packet_count(payload.len() as int) ==> nth_next(ps, j) is None
        }),
{
    let ps = dhdr_packets(fmt, payload.len() as u16, payload, 0);
    lemma_dhdr_packets_numbered(fmt, payload.len() as u16, payload);
    assert(ps.skip(0) =~= ps);
    if j < ps.len() {
        assert(ps.skip(j)[0] == ps[j]);
        if j + 1 < ps.len() {
            assert(ps.skip(j + 1) =~= ps.skip(j).drop_first());
        } else {
            assert(ps.skip(j).drop_first() =~= Seq::<Seq<u8>>::empty());
        }
        let pk = ps[j];
        assert(pk == dhdr_packets(fmt, payload.len() as u16, payload, 0)[j]);
    }
}

/// The sequence of packets carrying a payload reports no truncation and no
/// warnings, and reassembles to the payload.
#[verifier::spinoff_prover]
proof fn lemma_dhdr_packets_prefix(fmt: u8, tb: u16, payload: Seq<u8>, i: int)
    requires
        payload.len() <= MAX_DYNAMIC_HDR_PAYLOAD,
        0 <= i <= packet_count(payload.len() as int),
    ensures
        truncated_claim(dhdr_packets(fmt, tb, payload, 0).take(i)) is None,
        sequence_warnings(dhdr_packets(fmt, tb, payload, 0).take(i), tb, fmt)
            == Seq::<DynamicHdrWarning>::empty(),
        assembled(dhdr_packets(fmt, tb, payload, 0).take(i)) == payload.take(
            if 23 * i <= payload.len() {
                23 * i
            } else {
                payload.len() as int
            },
        ),
    decreases i,
{
    let ps = dhdr_packets(fmt, tb, payload, 0);
    if i == 0 {
        assert(ps.take(0) =~= Seq::<Seq<u8>>::empty());
        assert(payload.take(0) =~= Seq::<u8>::empty());
    } else {
        lemma_dhdr_packets_prefix(fmt, tb, payload, i - 1);
        assert(ps.take(i).drop_last() =~= ps.take(i - 1));
        let c = chunk_at(payload, i - 1);
        lemma_dhdr_packet_fields(fmt, tb, (i - 1) as u8, c);
        assert(ps.take(i).last() == dhdr_packet(fmt, tb, (i - 1) as u8, c));
        assert(payload.take(23 * (i - 1)) + c =~= payload.take(
            if 23 * i <= payload.len() {
                23 * i
            } else {
                payload.len() as int
            },
        ));
        assert(sequence_warnings(ps.take(i), tb, fmt) =~= Seq::<DynamicHdrWarning>::empty());
    }
}

/// The packets carrying a non-empty payload within [`MAX_DYNAMIC_HDR_PAYLOAD`]
/// bytes form a sequence that reports no truncation and no packet warnings,
/// carries the format and byte count in its first packet, and reassembles to
/// the payload.
pub proof fn lemma_dhdr_packets_sequence(fmt: u8, payload: Seq<u8>)
    requires
        0 < payload.len() <= MAX_DYNAMIC_HDR_PAYLOAD,
    ensures
        ({
            let ps = dhdr_packets(fmt, payload.len() as u16, payload, 0);
            &&& ps.len() > 0
            &&& truncated_claim(ps) is None
            &&& ps[0][7] == fmt
            &&& le16(ps[0][5], ps[0][6]) == payload.len() as u16
            &&& assembled(ps) == payload
            &&& sequence_warnings(ps, payload.len() as u16, fmt) == Seq::<DynamicHdrWarning>::empty()
        }),
{
    let tb = payload.len() as u16;
    let ps = dhdr_packets(fmt, tb, payload, 0);
    let n = packet_count(payload.len() as int);
    lemma_dhdr_packets_prefix(fmt, tb, payload, n);
    assert(ps.take(n) =~= ps);
    assert(payload.take(payload.len() as int) =~= payload);
    lemma_dhdr_packet_fields(fmt, tb, 0, chunk_at(payload, 0));
}

/// The payload of a well-formed frame decodes back to the frame, with only
/// the warnings its metadata's own decoding records.
pub proof fn lemma_dynamic_hdr_payload_round_trip(v: DynamicHdrView)
    requires
        dynamic_hdr_wf(v),
    ensures
        0 < payload_of(v).len() <= MAX_DYNAMIC_HDR_PAYLOAD,
        frame_of_payload(format_of(v), payload_of(v)) == Some(v),
        first_four(format_warnings(format_of(v), payload_of(v))) == dynamic_hdr_mode_warnings(v),
{
    let payload = payload_of(v);
    match v {
        DynamicHdrView::Hdr10Plus(m) => {
            lemma_enc_hdr10plus_len(m);
            lemma_bytes_of_bits(enc_hdr10plus(m));
            lemma_hdr10plus_round_trip(
                m,
                zero_bits(payload.len() * 8 - enc_hdr10plus(m).len()),
            );
        },
        DynamicHdrView::SlHdr(m) => {
            lemma_slhdr_wf_encodable(m);
            lemma_enc_slhdr_nonempty(m);
            lemma_bytes_of_bits(enc_slhdr(m));
            lemma_slhdr_round_trip(m, zero_bits(payload.len() * 8 - enc_slhdr(m).len()));
        },
        DynamicHdrView::Unknown { .. } => {},
    }
}

/// Round trip: the packets a well-formed frame encodes to form a sequence
/// that reports no truncation, no packet warnings, reassembles to the frame's
/// payload and decodes back to the frame; the only warnings are those its
/// metadata's own decoding records.
pub proof fn lemma_dynamic_hdr_round_trip(v: DynamicHdrView)
    requires
        dynamic_hdr_wf(v),
    ensures
        ({
            let ps = dhdr_packets(format_of(v), payload_of(v).len() as u16, payload_of(v), 0);
            &&& ps.len() > 0
            &&& truncated_claim(ps) is None
            &&& ps[0][7] == format_of(v)
            &&& le16(ps[0][5], ps[0][6]) == payload_of(v).len() as u16
            &&& assembled(ps) == payload_of(v)
            &&& sequence_warnings(ps, payload_of(v).len() as u16, format_of(v))
                == Seq::<DynamicHdrWarning>::empty()
            &&& frame_of_payload(format_of(v), payload_of(v)) == Some(v)
            &&& first_four(format_warnings(format_of(v), payload_of(v)))
                == dynamic_hdr_mode_warnings(v)
        }),
{
    lemma_dynamic_hdr_payload_round_trip(v);
    lemma_dhdr_packets_sequence(format_of(v), payload_of(v));
}

/// Round trip through [`DynamicHdrInfoFrame::decode_sequence`]: the packets
/// that [`IntoPackets::into_packets`] yields for a well-formed frame are what
/// `decode_sequence`'s contract reads as a sequence with no truncated packet,
/// whose first packet's format and byte count give back the frame, with no
/// packet warnings and only the warnings its metadata's own decoding records
/// (an application mode above 1, or an unrecognised SL-HDR payload mode).
pub proof fn lemma_decode_sequence_round_trip(v: DynamicHdrView)
    requires
        dynamic_hdr_wf(v),
    ensures
        ({
            let ps = dhdr_packets(format_of(v), payload_of(v).len() as u16, payload_of(v), 0);
            let fmt = ps[0][7];
            let tb = le16(ps[0][5], ps[0][6]);
            &&& ps.len() > 0
            &&& truncated_claim(ps) is None
            &&& frame_of_payload(fmt, assembled(ps)) == Some(v)
            &&& sequence_warnings(ps, tb, fmt) + first_four(format_warnings(fmt, assembled(ps)))
                == dynamic_hdr_mode_warnings(v)
        }),
{
    lemma_dynamic_hdr_round_trip(v);
    let ps = dhdr_packets(format_of(v), payload_of(v).len() as u16, payload_of(v), 0);
    assert(Seq::<DynamicHdrWarning>::empty() + dynamic_hdr_mode_warnings(v)
        =~= dynamic_hdr_mode_warnings(v));
}

} // verus!
