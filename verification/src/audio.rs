use vstd::prelude::*;

use crate::bytes::{bit_set, lemma_low_bits_bound, warn_if};
use crate::checksum::{
    assemble_packet, checksum_for, checksum_valid, covered_bytes, expected_checksum,
    lemma_wire_packet_valid, packet_sum, wire_packet,
};
use crate::decoded::Decoded;
use crate::encode::{packets_view, IntoPackets, SinglePacketIter};
use crate::error::DecodeError;
use crate::warn::AudioWarning;

verus! {

/// Audio coding type (CT field, PB1 bits 6–3).
///
/// Identifies the audio format being transmitted. `ReferToStream` defers to
/// the audio bitstream's own header; this is the common case for compressed
/// formats.
#[derive(Debug, Clone, Copy, PartialEq, Eq, Structural)]
#[non_exhaustive]
pub enum AudioCodingType {
    /// Coding type is indicated in the audio stream header (CT = 0).
    ReferToStream,
    /// Linear PCM (CT = 1).
    Lpcm,
    /// Dolby AC-3 (CT = 2).
    Ac3,
    /// MPEG-1 layers 1 & 2 (CT = 3).
    Mpeg1,
    /// MPEG-1 layer 3 / MP3 (CT = 4).
    Mp3,
    /// MPEG-2 multi-channel (CT = 5).
    Mpeg2Multichannel,
    /// AAC LC (CT = 6).
    AacLc,
    /// DTS (CT = 7).
    Dts,
    /// ATRAC (CT = 8).
    Atrac,
    /// One Bit Audio / DSD (CT = 9).
    OneBitAudio,
    /// Enhanced AC-3 / Dolby Digital Plus (CT = 10).
    EnhancedAc3,
    /// DTS-HD (CT = 11).
    DtsHd,
    /// MLP / Dolby TrueHD (CT = 12).
    MlpTrueHd,
    /// DST (CT = 13).
    Dst,
    /// WMA Pro (CT = 14).
    WmaPro,
    /// Coding type is in the CXT extension field (CT = 15).
    Extension,
}

/// Audio channel count (CC field, PB1 bits 2–0).
#[derive(Debug, Clone, Copy, PartialEq, Eq, Structural)]
#[non_exhaustive]
pub enum ChannelCount {
    /// Channel count is indicated in the audio stream header (CC = 0).
    ReferToStream,
    /// Explicit channel count (CC = 1–7).
    ///
    /// The stored value is the actual number of channels (2–8). On the wire
    /// the CC field carries `count - 1`. Values outside 2–8 are clamped on
    /// encode: `Count(0)` or `Count(1)` encode as CC = 0, which is
    /// indistinguishable from [`ReferToStream`](Self::ReferToStream);
    /// `Count(n)` for n > 8 encodes as CC = 7 (eight channels).
    Count(u8),
}

/// Audio sample frequency (SF field, PB2 bits 4–2).
#[derive(Debug, Clone, Copy, PartialEq, Eq, Structural)]
#[non_exhaustive]
pub enum SampleFrequency {
    /// Sample frequency is indicated in the audio stream header (SF = 0).
    ReferToStream,
    /// 32 kHz (SF = 1).
    Hz32000,
    /// 44.1 kHz (SF = 2).
    Hz44100,
    /// 48 kHz (SF = 3).
    Hz48000,
    /// 88.2 kHz (SF = 4).
    Hz88200,
    /// 96 kHz (SF = 5).
    Hz96000,
    /// 176.4 kHz (SF = 6).
    Hz176400,
    /// 192 kHz (SF = 7).
    Hz192000,
}

/// Audio sample size (SS field, PB2 bits 1–0).
#[derive(Debug, Clone, Copy, PartialEq, Eq, Structural)]
#[non_exhaustive]
pub enum SampleSize {
    /// Sample size is indicated in the audio stream header (SS = 0).
    ReferToStream,
    /// 16-bit samples (SS = 1).
    Bits16,
    /// 20-bit samples (SS = 2).
    Bits20,
    /// 24-bit samples (SS = 3).
    Bits24,
}

/// LFE channel playback level relative to the other channels (LSV field,
/// PB5 bits 6–3).
#[derive(Debug, Clone, Copy, PartialEq, Eq, Structural)]
#[non_exhaustive]
pub enum LfePlaybackLevel {
    /// No LFE playback level information (LSV = 0).
    NoInfo,
    /// LFE is played back at +10 dB relative to the other channels (LSV = 1).
    Plus10Db,
    /// LFE is played back at 0 dB relative to the other channels (LSV = 2).
    Ref0Db,
}

/// An Audio InfoFrame (CEA-861, type code 0x84).
///
/// Carries the audio format metadata required by the sink to configure its
/// audio decoder and speaker mapping. Transmitted alongside the audio stream.
///
/// The `coding_ext` field is only meaningful when `coding_type` is
/// [`AudioCodingType::Extension`]; in all other cases it should be `0`.
#[derive(Debug, Clone, PartialEq, Eq, Structural)]
pub struct AudioInfoFrame {
    /// Audio coding type (CT, PB1 bits 6–3).
    pub coding_type: AudioCodingType,
    /// Number of audio channels (CC, PB1 bits 2–0).
    pub channel_count: ChannelCount,
    /// Audio sample frequency (SF, PB2 bits 4–2).
    pub sample_freq: SampleFrequency,
    /// Audio sample size (SS, PB2 bits 1–0).
    pub sample_size: SampleSize,
    /// Audio coding extension type (CXT, PB3 bits 4–0).
    ///
    /// Only meaningful when `coding_type` is [`AudioCodingType::Extension`].
    pub coding_ext: u8,
    /// Channel/speaker allocation code (CA, PB4).
    pub channel_allocation: u8,
    /// LFE playback level relative to the other channels (LSV, PB5 bits 6–3).
    pub lfe_playback_level: LfePlaybackLevel,
    /// Prohibit downmixing by the sink (DM_INH, PB5 bit 7).
    pub downmix_inhibit: bool,
}

// ---------------------------------------------------------------------------
// Field codes
// ---------------------------------------------------------------------------

/// The coding type named by a 4-bit CT code.
pub open spec fn coding_type_of_code(ct: u8) -> AudioCodingType {
    match ct {
        0 => AudioCodingType::ReferToStream,
        1 => AudioCodingType::Lpcm,
        2 => AudioCodingType::Ac3,
        3 => AudioCodingType::Mpeg1,
        4 => AudioCodingType::Mp3,
        5 => AudioCodingType::Mpeg2Multichannel,
        6 => AudioCodingType::AacLc,
        7 => AudioCodingType::Dts,
        8 => AudioCodingType::Atrac,
        9 => AudioCodingType::OneBitAudio,
        10 => AudioCodingType::EnhancedAc3,
        11 => AudioCodingType::DtsHd,
        12 => AudioCodingType::MlpTrueHd,
        13 => AudioCodingType::Dst,
        14 => AudioCodingType::WmaPro,
        _ => AudioCodingType::Extension,
    }
}

/// The 4-bit CT code of a coding type.
pub open spec fn code_of_coding_type(ct: AudioCodingType) -> u8 {
    match ct {
        AudioCodingType::ReferToStream => 0,
        AudioCodingType::Lpcm => 1,
        AudioCodingType::Ac3 => 2,
        AudioCodingType::Mpeg1 => 3,
        AudioCodingType::Mp3 => 4,
        AudioCodingType::Mpeg2Multichannel => 5,
        AudioCodingType::AacLc => 6,
        AudioCodingType::Dts => 7,
        AudioCodingType::Atrac => 8,
        AudioCodingType::OneBitAudio => 9,
        AudioCodingType::EnhancedAc3 => 10,
        AudioCodingType::DtsHd => 11,
        AudioCodingType::MlpTrueHd => 12,
        AudioCodingType::Dst => 13,
        AudioCodingType::WmaPro => 14,
        AudioCodingType::Extension => 15,
    }
}

/// The channel count named by a 3-bit CC code: the wire carries `count - 1`.
pub open spec fn channel_count_of_code(cc: u8) -> ChannelCount {
    if cc == 0 {
        ChannelCount::ReferToStream
    } else {
        ChannelCount::Count((cc + 1) as u8)
    }
}

/// The CC code of a channel count; explicit counts outside 2–8 are clamped.
pub open spec fn code_of_channel_count(cc: ChannelCount) -> u8 {
    match cc {
        ChannelCount::ReferToStream => 0,
        ChannelCount::Count(n) => if n <= 1 {
            0
        } else if n >= 8 {
            7
        } else {
            (n - 1) as u8
        },
    }
}

/// The sample frequency named by a 3-bit SF code.
pub open spec fn sample_frequency_of_code(sf: u8) -> SampleFrequency {
    match sf {
        0 => SampleFrequency::ReferToStream,
        1 => SampleFrequency::Hz32000,
        2 => SampleFrequency::Hz44100,
        3 => SampleFrequency::Hz48000,
        4 => SampleFrequency::Hz88200,
        5 => SampleFrequency::Hz96000,
        6 => SampleFrequency::Hz176400,
        _ => SampleFrequency::Hz192000,
    }
}

/// The SF code of a sample frequency.
pub open spec fn code_of_sample_frequency(sf: SampleFrequency) -> u8 {
    match sf {
        SampleFrequency::ReferToStream => 0,
        SampleFrequency::Hz32000 => 1,
        SampleFrequency::Hz44100 => 2,
        SampleFrequency::Hz48000 => 3,
        SampleFrequency::Hz88200 => 4,
        SampleFrequency::Hz96000 => 5,
        SampleFrequency::Hz176400 => 6,
        SampleFrequency::Hz192000 => 7,
    }
}

/// The sample size named by a 2-bit SS code.
pub open spec fn sample_size_of_code(ss: u8) -> SampleSize {
    match ss {
        0 => SampleSize::ReferToStream,
        1 => SampleSize::Bits16,
        2 => SampleSize::Bits20,
        _ => SampleSize::Bits24,
    }
}

/// The SS code of a sample size.
pub open spec fn code_of_sample_size(ss: SampleSize) -> u8 {
    match ss {
        SampleSize::ReferToStream => 0,
        SampleSize::Bits16 => 1,
        SampleSize::Bits20 => 2,
        SampleSize::Bits24 => 3,
    }
}

/// The LFE playback level named by an LSV code; undefined codes fall back to
/// [`LfePlaybackLevel::NoInfo`].
pub open spec fn lfe_level_of_code(lsv: u8) -> LfePlaybackLevel {
    match lsv {
        1 => LfePlaybackLevel::Plus10Db,
        2 => LfePlaybackLevel::Ref0Db,
        _ => LfePlaybackLevel::NoInfo,
    }
}

/// The LSV code of an LFE playback level.
pub open spec fn code_of_lfe_level(l: LfePlaybackLevel) -> u8 {
    match l {
        LfePlaybackLevel::NoInfo => 0,
        LfePlaybackLevel::Plus10Db => 1,
        LfePlaybackLevel::Ref0Db => 2,
    }
}

fn decode_coding_type(ct: u8) -> (r: AudioCodingType)
    ensures
        r == coding_type_of_code(ct),
{
    match ct {
        0 => AudioCodingType::ReferToStream,
        1 => AudioCodingType::Lpcm,
        2 => AudioCodingType::Ac3,
        3 => AudioCodingType::Mpeg1,
        4 => AudioCodingType::Mp3,
        5 => AudioCodingType::Mpeg2Multichannel,
        6 => AudioCodingType::AacLc,
        7 => AudioCodingType::Dts,
        8 => AudioCodingType::Atrac,
        9 => AudioCodingType::OneBitAudio,
        10 => AudioCodingType::EnhancedAc3,
        11 => AudioCodingType::DtsHd,
        12 => AudioCodingType::MlpTrueHd,
        13 => AudioCodingType::Dst,
        14 => AudioCodingType::WmaPro,
        _ => AudioCodingType::Extension,
    }
}

fn encode_coding_type(ct: AudioCodingType) -> (r: u8)
    ensures
        r == code_of_coding_type(ct),
{
    match ct {
        AudioCodingType::ReferToStream => 0,
        AudioCodingType::Lpcm => 1,
        AudioCodingType::Ac3 => 2,
        AudioCodingType::Mpeg1 => 3,
        AudioCodingType::Mp3 => 4,
        AudioCodingType::Mpeg2Multichannel => 5,
        AudioCodingType::AacLc => 6,
        AudioCodingType::Dts => 7,
        AudioCodingType::Atrac => 8,
        AudioCodingType::OneBitAudio => 9,
        AudioCodingType::EnhancedAc3 => 10,
        AudioCodingType::DtsHd => 11,
        AudioCodingType::MlpTrueHd => 12,
        AudioCodingType::Dst => 13,
        AudioCodingType::WmaPro => 14,
        AudioCodingType::Extension => 15,
    }
}

fn decode_sample_frequency(sf: u8) -> (r: SampleFrequency)
    ensures
        r == sample_frequency_of_code(sf),
{
    match sf {
        0 => SampleFrequency::ReferToStream,
        1 => SampleFrequency::Hz32000,
        2 => SampleFrequency::Hz44100,
        3 => SampleFrequency::Hz48000,
        4 => SampleFrequency::Hz88200,
        5 => SampleFrequency::Hz96000,
        6 => SampleFrequency::Hz176400,
        _ => SampleFrequency::Hz192000,
    }
}

fn encode_sample_frequency(sf: SampleFrequency) -> (r: u8)
    ensures
        r == code_of_sample_frequency(sf),
{
    match sf {
        SampleFrequency::ReferToStream => 0,
        SampleFrequency::Hz32000 => 1,
        SampleFrequency::Hz44100 => 2,
        SampleFrequency::Hz48000 => 3,
        SampleFrequency::Hz88200 => 4,
        SampleFrequency::Hz96000 => 5,
        SampleFrequency::Hz176400 => 6,
        SampleFrequency::Hz192000 => 7,
    }
}

fn decode_sample_size(ss: u8) -> (r: SampleSize)
    ensures
        r == sample_size_of_code(ss),
{
    match ss {
        0 => SampleSize::ReferToStream,
        1 => SampleSize::Bits16,
        2 => SampleSize::Bits20,
        _ => SampleSize::Bits24,
    }
}

fn encode_sample_size(ss: SampleSize) -> (r: u8)
    ensures
        r == code_of_sample_size(ss),
{
    match ss {
        SampleSize::ReferToStream => 0,
        SampleSize::Bits16 => 1,
        SampleSize::Bits20 => 2,
        SampleSize::Bits24 => 3,
    }
}

fn encode_lfe_level(l: LfePlaybackLevel) -> (r: u8)
    ensures
        r == code_of_lfe_level(l),
{
    match l {
        LfePlaybackLevel::NoInfo => 0,
        LfePlaybackLevel::Plus10Db => 1,
        LfePlaybackLevel::Ref0Db => 2,
    }
}

// ---------------------------------------------------------------------------
// Wire format
// ---------------------------------------------------------------------------

/// The frame that a 31-byte packet decodes to (valid when `packet[2] <= 27`).
pub open spec fn audio_frame_of(p: Seq<u8>) -> AudioInfoFrame {
    AudioInfoFrame {
        coding_type: coding_type_of_code((p[4] >> 3u8) & 0x0Fu8),
        channel_count: channel_count_of_code(p[4] & 0x07u8),
        sample_freq: sample_frequency_of_code((p[5] >> 2u8) & 0x07u8),
        sample_size: sample_size_of_code(p[5] & 0x03u8),
        coding_ext: p[6] & 0x1Fu8,
        channel_allocation: p[7],
        lfe_playback_level: lfe_level_of_code((p[8] >> 3u8) & 0x0Fu8),
        downmix_inhibit: bit_set(p[8], 7),
    }
}

/// The warnings decoding a packet produces, in the order they are recorded:
/// checksum, reserved bits PB1[7], PB2[5..7], PB3[5..7], PB5[0..2], then an
/// undefined LSV code.
pub open spec fn audio_warnings_of(p: Seq<u8>) -> Seq<AudioWarning> {
    let lsv = (p[8] >> 3u8) & 0x0Fu8;
    warn_if(
        !checksum_valid(p),
        AudioWarning::ChecksumMismatch { expected: checksum_for(covered_bytes(p)), found: p[3] },
    ) + warn_if(bit_set(p[4], 7), AudioWarning::ReservedFieldNonZero { byte: 4, bit: 7 })
        + warn_if(bit_set(p[5], 5), AudioWarning::ReservedFieldNonZero { byte: 5, bit: 5 })
        + warn_if(bit_set(p[5], 6), AudioWarning::ReservedFieldNonZero { byte: 5, bit: 6 })
        + warn_if(bit_set(p[5], 7), AudioWarning::ReservedFieldNonZero { byte: 5, bit: 7 })
        + warn_if(bit_set(p[6], 5), AudioWarning::ReservedFieldNonZero { byte: 6, bit: 5 })
        + warn_if(bit_set(p[6], 6), AudioWarning::ReservedFieldNonZero { byte: 6, bit: 6 })
        + warn_if(bit_set(p[6], 7), AudioWarning::ReservedFieldNonZero { byte: 6, bit: 7 })
        + warn_if(bit_set(p[8], 0), AudioWarning::ReservedFieldNonZero { byte: 8, bit: 0 })
        + warn_if(bit_set(p[8], 1), AudioWarning::ReservedFieldNonZero { byte: 8, bit: 1 })
        + warn_if(bit_set(p[8], 2), AudioWarning::ReservedFieldNonZero { byte: 8, bit: 2 })
        + warn_if(lsv > 2, AudioWarning::UnknownEnumValue { field: "lfe_playback_level", raw: lsv })
}

/// The 30 checksum-covered bytes an Audio InfoFrame encodes to: type 0x84,
/// version 1, length 10, PB1–PB5 carrying the fields, PB6–PB27 zero.
pub open spec fn audio_covered_of(f: AudioInfoFrame) -> Seq<u8> {
    let ct = code_of_coding_type(f.coding_type);
    let cc = code_of_channel_count(f.channel_count);
    let sf = code_of_sample_frequency(f.sample_freq);
    let ss = code_of_sample_size(f.sample_size);
    let lsv = code_of_lfe_level(f.lfe_playback_level);
    let dm: u8 = if f.downmix_inhibit { 1 } else { 0 };
    seq![
        0x84u8,
        0x01u8,
        0x0Au8,
        (ct << 3u8) | (cc & 0x07u8),
        (sf << 2u8) | (ss & 0x03u8),
        f.coding_ext & 0x1Fu8,
        f.channel_allocation,
        (dm << 7u8) | (lsv << 3u8),
    ] + Seq::new(22, |i: int| 0u8)
}

/// An Audio InfoFrame that survives a round trip through the wire format:
/// its coding extension fits the 5-bit field and an explicit channel count
/// lies in 2–8.
pub open spec fn audio_frame_wf(f: AudioInfoFrame) -> bool {
    &&& f.coding_ext < 32
    &&& match f.channel_count {
        ChannelCount::Count(n) => 2 <= n <= 8,
        ChannelCount::ReferToStream => true,
    }
}

fn push_reserved(ws: &mut Vec<AudioWarning>, b: u8, byte: u8, bit: u8)
    requires
        bit < 8,
    ensures
        final(ws)@ == old(ws)@ + warn_if(
            bit_set(b, bit),
            AudioWarning::ReservedFieldNonZero { byte, bit },
        ),
{
    if (b >> bit) & 1 == 1 {
        ws.push(AudioWarning::ReservedFieldNonZero { byte, bit });
    }
    assert(ws@ =~= old(ws)@ + warn_if(bit_set(b, bit), AudioWarning::ReservedFieldNonZero { byte, bit }));
}

/// The warnings decoding `packet` records, in order.
fn audio_warnings(packet: &[u8; 31]) -> (ws: Vec<AudioWarning>)
    ensures
        ws@ == audio_warnings_of(packet@),
{
    let ghost p = packet@;
    let mut ws: Vec<AudioWarning> = Vec::new();
    // Checksum: sum of all 31 bytes must be 0x00 mod 256.
    if packet_sum(packet) != 0 {
        let expected = expected_checksum(packet);
        ws.push(AudioWarning::ChecksumMismatch { expected, found: packet[3] });
    }
    assert(ws@ =~= warn_if(
        !checksum_valid(p),
        AudioWarning::ChecksumMismatch { expected: checksum_for(covered_bytes(p)), found: p[3] },
    ));
    push_reserved(&mut ws, packet[4], 4, 7);
    push_reserved(&mut ws, packet[5], 5, 5);
    push_reserved(&mut ws, packet[5], 5, 6);
    push_reserved(&mut ws, packet[5], 5, 7);
    push_reserved(&mut ws, packet[6], 6, 5);
    push_reserved(&mut ws, packet[6], 6, 6);
    push_reserved(&mut ws, packet[6], 6, 7);
    push_reserved(&mut ws, packet[8], 8, 0);
    push_reserved(&mut ws, packet[8], 8, 1);
    push_reserved(&mut ws, packet[8], 8, 2);
    let lsv = (packet[8] >> 3) & 0x0F;
    let ghost before = ws@;
    if lsv > 2 {
        ws.push(AudioWarning::UnknownEnumValue { field: "lfe_playback_level", raw: lsv });
    }
    assert(ws@ =~= before + warn_if(lsv > 2, AudioWarning::UnknownEnumValue { field: "lfe_playback_level", raw: lsv }));
    ws
}

impl AudioInfoFrame {
    /// Decode an Audio InfoFrame from a 31-byte wire packet.
    ///
    /// # Errors
    ///
    /// Returns [`DecodeError::Truncated`] if `packet[2] > 27`.
    ///
    /// # Warnings
    ///
    /// The returned [`Decoded`] carries exactly the warnings
    /// [`audio_warnings_of`] lists: checksum mismatch, reserved bits set, and
    /// an undefined LFE playback level (which decodes as `NoInfo`).
    pub fn decode(packet: &[u8; 31]) -> (r: Result<Decoded<AudioInfoFrame, AudioWarning>, DecodeError>)
        ensures
            packet@[2] > 27 ==> r == Err::<Decoded<AudioInfoFrame, AudioWarning>, DecodeError>(
                DecodeError::Truncated { claimed: packet@[2] },
            ),
            packet@[2] <= 27 ==> (r matches Ok(d) && d.value == audio_frame_of(packet@)
                && d.warnings@ == audio_warnings_of(packet@)),
    {
        let length = packet[2];
        if length > 27 {
            return Err(DecodeError::Truncated { claimed: length });
        }
        let pb1 = packet[4];
        let pb2 = packet[5];
        let pb3 = packet[6];
        let pb5 = packet[8];
        let cc = pb1 & 0x07;
        proof {
            lemma_low_bits_bound(pb1);
        }
        let channel_count = if cc == 0 {
            ChannelCount::ReferToStream
        } else {
            // wire CC = channels - 1
            ChannelCount::Count(cc + 1)
        };
        let lsv = (pb5 >> 3) & 0x0F;
        let lfe_playback_level = match lsv {
            1 => LfePlaybackLevel::Plus10Db,
            2 => LfePlaybackLevel::Ref0Db,
            _ => LfePlaybackLevel::NoInfo,
        };
        let value = AudioInfoFrame {
            // PB1 (byte 4): bit 7 reserved, bits[6:3] = CT, bits[2:0] = CC
            coding_type: decode_coding_type((pb1 >> 3) & 0x0F),
            channel_count,
            // PB2 (byte 5): bits[7:6] reserved, bits[4:2] = SF, bits[1:0] = SS
            sample_freq: decode_sample_frequency((pb2 >> 2) & 0x07),
            sample_size: decode_sample_size(pb2 & 0x03),
            // PB3 (byte 6): bits[7:5] reserved, bits[4:0] = CXT
            coding_ext: pb3 & 0x1F,
            // PB4 (byte 7): channel allocation
            channel_allocation: packet[7],
            // PB5 (byte 8): bit[7] = DM_INH, bits[6:3] = LSV, bits[2:0] reserved
            lfe_playback_level,
            downmix_inhibit: (pb5 >> 7) & 1 == 1,
        };
        let warnings = audio_warnings(packet);
        let decoded = Decoded { value, warnings };
        Ok(decoded)
    }
}

impl IntoPackets for AudioInfoFrame {
    type Iter = SinglePacketIter;

    type Warning = AudioWarning;

    /// Every frame of this type can be encoded.
    open spec fn can_encode(&self) -> bool {
        true
    }

    /// Encode to a single wire packet; encoding never warns.
    fn into_packets(self) -> (r: Decoded<SinglePacketIter, AudioWarning>)
        ensures
            packets_view(r.value@) == seq![wire_packet(audio_covered_of(self))],
            r.warnings@ == Seq::<AudioWarning>::empty(),
    {
        let ct = encode_coding_type(self.coding_type);
        let cc: u8 = match self.channel_count {
            ChannelCount::ReferToStream => 0,
            // Actual channel count n (2–8) encodes as n-1 on the wire.
            ChannelCount::Count(n) => if n <= 1 {
                0
            } else if n >= 8 {
                7
            } else {
                n - 1
            },
        };
        let sf = encode_sample_frequency(self.sample_freq);
        let ss = encode_sample_size(self.sample_size);
        let lsv = encode_lfe_level(self.lfe_playback_level);
        let dm: u8 = if self.downmix_inhibit { 1 } else { 0 };

        // The 30 bytes that feed into checksum computation:
        // [type, version, length, PB1..PB27].
        let mut hp = [0u8; 30];
        hp[0] = 0x84;
        hp[1] = 0x01;
        hp[2] = 0x0A;
        hp[3] = (ct << 3) | (cc & 0x07);
        hp[4] = (sf << 2) | (ss & 0x03);
        hp[5] = self.coding_ext & 0x1F;
        hp[6] = self.channel_allocation;
        hp[7] = (dm << 7) | (lsv << 3);
        // PB6–PB10 (hp[8]–hp[12]) are reserved; already zero.
        assert(hp@ =~= audio_covered_of(self));
        let packet = assemble_packet(&hp);
        let r = Decoded::new(SinglePacketIter::new(packet));
        assert(packets_view(r.value@) =~= seq![wire_packet(audio_covered_of(self))]);
        r
    }
}

// ---------------------------------------------------------------------------
// Laws
// ---------------------------------------------------------------------------

proof fn lemma_audio_field_bits(ct: u8, cc: u8, sf: u8, ss: u8, cxt: u8, dm: u8, lsv: u8)
    by (bit_vector)
    requires
        ct < 16,
        cc < 8,
        sf < 8,
        ss < 4,
        cxt < 32,
        dm < 2,
        lsv < 3,
    ensures
        (((ct << 3u8) | (cc & 0x07u8)) >> 3u8) & 0x0Fu8 == ct,
        ((ct << 3u8) | (cc & 0x07u8)) & 0x07u8 == cc,
        (((ct << 3u8) | (cc & 0x07u8)) >> 7u8) & 1u8 == 0u8,
        (((sf << 2u8) | (ss & 0x03u8)) >> 2u8) & 0x07u8 == sf,
        ((sf << 2u8) | (ss & 0x03u8)) & 0x03u8 == ss,
        (((sf << 2u8) | (ss & 0x03u8)) >> 5u8) & 1u8 == 0u8,
        (((sf << 2u8) | (ss & 0x03u8)) >> 6u8) & 1u8 == 0u8,
        (((sf << 2u8) | (ss & 0x03u8)) >> 7u8) & 1u8 == 0u8,
        (cxt & 0x1Fu8) & 0x1Fu8 == cxt,
        ((cxt & 0x1Fu8) >> 5u8) & 1u8 == 0u8,
        ((cxt & 0x1Fu8) >> 6u8) & 1u8 == 0u8,
        ((cxt & 0x1Fu8) >> 7u8) & 1u8 == 0u8,
        (((dm << 7u8) | (lsv << 3u8)) >> 3u8) & 0x0Fu8 == lsv,
        ((((dm << 7u8) | (lsv << 3u8)) >> 7u8) & 1u8 == 1u8) == (dm == 1),
        (((dm << 7u8) | (lsv << 3u8)) >> 0u8) & 1u8 == 0u8,
        (((dm << 7u8) | (lsv << 3u8)) >> 1u8) & 1u8 == 0u8,
        (((dm << 7u8) | (lsv << 3u8)) >> 2u8) & 1u8 == 0u8,
{
}

/// Round trip: encoding a well-formed Audio InfoFrame and decoding the packet
/// gives back the same frame, with no warnings and no error.
pub proof fn lemma_audio_round_trip(f: AudioInfoFrame)
    requires
        audio_frame_wf(f),
    ensures
        wire_packet(audio_covered_of(f))[2] <= 27,
        audio_frame_of(wire_packet(audio_covered_of(f))) == f,
        audio_warnings_of(wire_packet(audio_covered_of(f))) == Seq::<AudioWarning>::empty(),
{
    let hp = audio_covered_of(f);
    lemma_wire_packet_valid(hp);
    let p = wire_packet(hp);
    let ct = code_of_coding_type(f.coding_type);
    let cc = code_of_channel_count(f.channel_count);
    let sf = code_of_sample_frequency(f.sample_freq);
    let ss = code_of_sample_size(f.sample_size);
    let lsv = code_of_lfe_level(f.lfe_playback_level);
    let dm: u8 = if f.downmix_inhibit { 1 } else { 0 };
    assert(p[4] == hp[3] && p[5] == hp[4] && p[6] == hp[5] && p[7] == hp[6] && p[8] == hp[7]);
    lemma_audio_field_bits(ct, cc, sf, ss, f.coding_ext, dm, lsv);
    assert(audio_frame_of(p) == f);
    assert(audio_warnings_of(p) =~= Seq::<AudioWarning>::empty());
}

/// Every packet that decodes yields a well-formed frame, so re-encoding a
/// decoded frame and decoding again reproduces it exactly.
pub proof fn lemma_audio_decode_encode_stable(p: Seq<u8>)
    requires
        p.len() == 31,
    ensures
        audio_frame_wf(audio_frame_of(p)),
        audio_frame_of(wire_packet(audio_covered_of(audio_frame_of(p)))) == audio_frame_of(p),
{
    lemma_low_bits_bound(p[4]);
    lemma_low_bits_bound(p[6]);
    lemma_audio_round_trip(audio_frame_of(p));
}

// ---------------------------------------------------------------------------
// What the field codes mean
// ---------------------------------------------------------------------------

/// The sample rate a sample frequency names, in Hz; 0 when it defers to the
/// stream.
pub open spec fn sample_rate_hz(sf: SampleFrequency) -> nat {
    match sf {
        SampleFrequency::ReferToStream => 0,
        SampleFrequency::Hz32000 => 32000,
        SampleFrequency::Hz44100 => 44100,
        SampleFrequency::Hz48000 => 48000,
        SampleFrequency::Hz88200 => 88200,
        SampleFrequency::Hz96000 => 96000,
        SampleFrequency::Hz176400 => 176400,
        SampleFrequency::Hz192000 => 192000,
    }
}

/// The number of bits per sample a sample size names; 0 when it defers to
/// the stream.
pub open spec fn sample_bits(ss: SampleSize) -> nat {
    match ss {
        SampleSize::ReferToStream => 0,
        SampleSize::Bits16 => 16,
        SampleSize::Bits20 => 20,
        SampleSize::Bits24 => 24,
    }
}

/// The SF field of a packet (PB2 bits 4–2).
pub open spec fn sf_field(p: Seq<u8>) -> u8 {
    (p[5] >> 2u8) & 0x07u8
}

/// The SS field of a packet (PB2 bits 1–0).
pub open spec fn ss_field(p: Seq<u8>) -> u8 {
    p[5] & 0x03u8
}

/// The LSV field of a packet (PB5 bits 6–3).
pub open spec fn lsv_field(p: Seq<u8>) -> u8 {
    (p[8] >> 3u8) & 0x0Fu8
}

proof fn lemma_pb2_fields(sf: u8, ss: u8)
    by (bit_vector)
    requires
        sf < 8,
        ss < 4,
    ensures
        (((sf << 2u8) | (ss & 0x03u8)) >> 2u8) & 0x07u8 == sf,
        ((sf << 2u8) | (ss & 0x03u8)) & 0x03u8 == ss,
{
}

proof fn lemma_pb5_lsv(dm: u8, lsv: u8)
    by (bit_vector)
    requires
        dm < 2,
        lsv < 16,
    ensures
        (((dm << 7u8) | (lsv << 3u8)) >> 3u8) & 0x0Fu8 == lsv,
{
}

/// The SF, SS and LSV fields of the packet a frame encodes to are its codes.
proof fn lemma_audio_wire_codes(f: AudioInfoFrame)
    ensures
        sf_field(wire_packet(audio_covered_of(f))) == code_of_sample_frequency(f.sample_freq),
        ss_field(wire_packet(audio_covered_of(f))) == code_of_sample_size(f.sample_size),
        lsv_field(wire_packet(audio_covered_of(f))) == code_of_lfe_level(f.lfe_playback_level),
{
    let hp = audio_covered_of(f);
    lemma_wire_packet_valid(hp);
    let p = wire_packet(hp);
    assert(p[5] == hp[4] && p[8] == hp[7]);
    lemma_pb2_fields(code_of_sample_frequency(f.sample_freq), code_of_sample_size(f.sample_size));
    let dm: u8 = if f.downmix_inhibit { 1 } else { 0 };
    lemma_pb5_lsv(dm, code_of_lfe_level(f.lfe_playback_level));
}

/// The SF field ranks the standard sample rates: decoding two packets, the
/// one with the higher SF field names the strictly higher sample rate (SF 0,
/// the lowest, defers to the stream), and encoding two frames, the one with
/// the higher sample rate gets the strictly higher SF field. So SF 1–7 name
/// 32, 44.1, 48, 88.2, 96, 176.4 and 192 kHz in turn.
pub proof fn lemma_sample_rate_order(p: Seq<u8>, q: Seq<u8>, f: AudioInfoFrame, g: AudioInfoFrame)
    requires
        p.len() == 31,
        q.len() == 31,
    ensures
        sf_field(p) < sf_field(q) <==> sample_rate_hz(audio_frame_of(p).sample_freq)
            < sample_rate_hz(audio_frame_of(q).sample_freq),
        sample_rate_hz(f.sample_freq) < sample_rate_hz(g.sample_freq) <==> sf_field(
            wire_packet(audio_covered_of(f)),
        ) < sf_field(wire_packet(audio_covered_of(g))),
{
    lemma_low_bits_bound(p[5]);
    lemma_low_bits_bound(q[5]);
    lemma_audio_wire_codes(f);
    lemma_audio_wire_codes(g);
}

/// The SS field ranks the sample sizes: a higher SS field decodes to strictly
/// more bits per sample (SS 0, the lowest, defers to the stream), and a frame
/// with more bits per sample encodes to a strictly higher SS field. So SS 1–3
/// name 16, 20 and 24 bits.
pub proof fn lemma_sample_size_order(p: Seq<u8>, q: Seq<u8>, f: AudioInfoFrame, g: AudioInfoFrame)
    requires
        p.len() == 31,
        q.len() == 31,
    ensures
        ss_field(p) < ss_field(q) <==> sample_bits(audio_frame_of(p).sample_size) < sample_bits(
            audio_frame_of(q).sample_size,
        ),
        sample_bits(f.sample_size) < sample_bits(g.sample_size) <==> ss_field(
            wire_packet(audio_covered_of(f)),
        ) < ss_field(wire_packet(audio_covered_of(g))),
{
    lemma_low_bits_bound(p[5]);
    lemma_low_bits_bound(q[5]);
    lemma_audio_wire_codes(f);
    lemma_audio_wire_codes(g);
}

/// The LFE gain a playback level names, in dB relative to the other
/// channels; none when there is no information.
pub open spec fn lfe_gain_db(l: LfePlaybackLevel) -> Option<int> {
    match l {
        LfePlaybackLevel::NoInfo => None,
        LfePlaybackLevel::Plus10Db => Some(10),
        LfePlaybackLevel::Ref0Db => Some(0),
    }
}

/// The LSV field: 1 decodes to a +10 dB LFE gain and 2 to 0 dB, every other
/// value to no information; a frame's LFE gain is written as LSV 1 for
/// +10 dB, 2 for 0 dB and 0 for none.
pub proof fn lemma_lfe_level_meaning(p: Seq<u8>, f: AudioInfoFrame)
    requires
        p.len() == 31,
    ensures
        lfe_gain_db(audio_frame_of(p).lfe_playback_level) == (if lsv_field(p) == 1 {
            Some(10int)
        } else if lsv_field(p) == 2 {
            Some(0int)
        } else {
            None
        }),
        lsv_field(wire_packet(audio_covered_of(f))) == (if lfe_gain_db(f.lfe_playback_level)
            == Some(10int) {
            1u8
        } else if lfe_gain_db(f.lfe_playback_level) == Some(0int) {
            2u8
        } else {
            0u8
        }),
{
    lemma_audio_wire_codes(f);
}

/// The CC field of a packet (PB1 bits 2–0).
pub open spec fn cc_field(p: Seq<u8>) -> u8 {
    p[4] & 0x07u8
}

/// The CT field of a packet (PB1 bits 6–3).
pub open spec fn ct_field(p: Seq<u8>) -> u8 {
    (p[4] >> 3u8) & 0x0Fu8
}

proof fn lemma_pb1_fields(ct: u8, cc: u8)
    by (bit_vector)
    requires
        ct < 16,
        cc < 8,
    ensures
        (((ct << 3u8) | (cc & 0x07u8)) >> 3u8) & 0x0Fu8 == ct,
        ((ct << 3u8) | (cc & 0x07u8)) & 0x07u8 == cc,
{
}

proof fn lemma_pb1_bounds(b: u8)
    by (bit_vector)
    ensures
        b & 0x07u8 < 8,
        (b >> 3u8) & 0x0Fu8 < 16,
{
}

/// The number of channels a channel count names; none when it defers to the
/// stream.
pub open spec fn channels(cc: ChannelCount) -> Option<nat> {
    match cc {
        ChannelCount::ReferToStream => None,
        ChannelCount::Count(n) => Some(n as nat),
    }
}

/// The CC field carries the channel count less one: CC 0 defers to the
/// stream and CC `k` (1–7) decodes to `k + 1` channels; a frame with 2–8
/// channels is written with CC equal to its count less one, and one that
/// defers to the stream with CC 0.
pub proof fn lemma_channel_count_meaning(p: Seq<u8>, f: AudioInfoFrame)
    requires
        p.len() == 31,
    ensures
        channels(audio_frame_of(p).channel_count) == (if cc_field(p) == 0 {
            None
        } else {
            Some((cc_field(p) + 1) as nat)
        }),
        (channels(f.channel_count) matches Some(n) && 2 <= n <= 8) ==> cc_field(
            wire_packet(audio_covered_of(f)),
        ) + 1 == channels(f.channel_count).unwrap(),
        channels(f.channel_count) is None ==> cc_field(wire_packet(audio_covered_of(f))) == 0,
{
    lemma_pb1_bounds(p[4]);
    let hp = audio_covered_of(f);
    lemma_wire_packet_valid(hp);
    assert(wire_packet(hp)[4] == hp[3]);
    lemma_pb1_fields(code_of_coding_type(f.coding_type), code_of_channel_count(f.channel_count));
}

/// The audio formats the CT field names, in CTA-861 order: CT `k` (0–15)
/// is the `k`-th entry.
pub open spec fn coding_types_in_order() -> Seq<AudioCodingType> {
    seq![
        AudioCodingType::ReferToStream,
        AudioCodingType::Lpcm,
        AudioCodingType::Ac3,
        AudioCodingType::Mpeg1,
        AudioCodingType::Mp3,
        AudioCodingType::Mpeg2Multichannel,
        AudioCodingType::AacLc,
        AudioCodingType::Dts,
        AudioCodingType::Atrac,
        AudioCodingType::OneBitAudio,
        AudioCodingType::EnhancedAc3,
        AudioCodingType::DtsHd,
        AudioCodingType::MlpTrueHd,
        AudioCodingType::Dst,
        AudioCodingType::WmaPro,
        AudioCodingType::Extension,
    ]
}

/// The CT field indexes the CTA-861 list of audio formats: decoding a packet
/// gives the entry its CT field selects, and encoding a frame writes the
/// position of its format in the list.
pub proof fn lemma_coding_type_meaning(p: Seq<u8>, f: AudioInfoFrame)
    requires
        p.len() == 31,
    ensures
        audio_frame_of(p).coding_type == coding_types_in_order()[ct_field(p) as int],
        coding_types_in_order()[ct_field(wire_packet(audio_covered_of(f))) as int]
            == f.coding_type,
        ct_field(wire_packet(audio_covered_of(f))) < 16,
{
    lemma_pb1_bounds(p[4]);
    let hp = audio_covered_of(f);
    lemma_wire_packet_valid(hp);
    assert(wire_packet(hp)[4] == hp[3]);
    lemma_pb1_fields(code_of_coding_type(f.coding_type), code_of_channel_count(f.channel_count));
}

} // verus!
