use vstd::prelude::*;

use vstd::arithmetic::power2::{lemma2_to64, pow2};

use crate::bytes::{array_of, lemma_array_of, lemma_array_of_view};
use crate::dynamic_hdr::bits::{
    bits_of, bits_of_bytes, holds_at, lemma_bits_of_bytes_take, lemma_holds_at_prefix,
    lemma_holds_at_split, lemma_read_at_bound, lemma_read_field, max_payload_bits, read_at, zero_bits, BitReader,
    BitWriter, MAX_DYNAMIC_HDR_PAYLOAD,
};
use crate::dynamic_hdr::fields::{
    enc_fields, enc_groups, fields_fit, groups_fit, lemma_enc_fields_len, lemma_enc_groups_len,
    lemma_enc_groups_prefix, lemma_fields_round_trip, lemma_groups_round_trip,
    lemma_parse_fields_advance,
    lemma_parse_fields_fit, lemma_parse_groups_shape, parse_fields, parse_groups, read_fields,
    read_groups, width_sum, widths_ok, write_fields,
};
use crate::dynamic_hdr::hdr10plus::{flag_val, pad};
use crate::error::DecodeError;
use crate::warn::DynamicHdrWarning;

verus! {

// ---------------------------------------------------------------------------
// SL-HDR metadata types (ETSI TS 103 433-1 Table A.1)
// ---------------------------------------------------------------------------

/// SL-HDR dynamic metadata (ETSI TS 103 433-1 Table A.1, format identifier
/// `0x02`).
#[derive(Debug, Clone, PartialEq, Eq)]
pub struct SlHdrMetadata {
    /// `itu_t_t35_country_code` (8 bits).
    pub itu_t_t35_country_code: u8,
    /// `terminal_provider_code` (16 bits).
    pub terminal_provider_code: u16,
    /// `terminal_provider_oriented_code_message_idc` (8 bits).
    pub terminal_provider_oriented_code_message_idc: u8,
    /// `sl_hdr_mode_value_minus1` (4 bits).
    pub sl_hdr_mode_value_minus1: u8,
    /// `sl_hdr_spec_major_version_idc` (4 bits).
    pub sl_hdr_spec_major_version_idc: u8,
    /// `sl_hdr_spec_minor_version_idc` (7 bits).
    pub sl_hdr_spec_minor_version_idc: u8,
    /// When `true`, all SL-HDR parameters are cancelled and `body` is `None`.
    pub sl_hdr_cancel_flag: bool,
    /// Present only when `sl_hdr_cancel_flag` is `false`.
    pub body: Option<SlHdrBody>,
}

/// Main SL-HDR parameter block, present when `sl_hdr_cancel_flag` is `false`.
#[derive(Debug, Clone, PartialEq, Eq)]
pub struct SlHdrBody {
    /// `sl_hdr_persistence_flag`.
    pub sl_hdr_persistence_flag: bool,
    /// `sl_hdr_payload_mode` (3 bits): 0 = tone-mapping, 1 = luminance/colour
    /// mapping.
    pub sl_hdr_payload_mode: u8,
    /// Present when `original_picture_info_present_flag` is set.
    pub original_picture_info: Option<SlHdrPictureInfo>,
    /// Present when `target_picture_info_present_flag` is set.
    pub target_picture_info: Option<SlHdrPictureInfo>,
    /// Present when `src_mdcv_info_present_flag` is set.
    pub src_mdcv_info: Option<SlHdrMdcvInfo>,
    /// `matrix_coefficient_value[0..4]` (4 × 16 bits).
    pub matrix_coefficient_values: [u16; 4],
    /// `chroma_to_luma_injection[0..2]` (2 × 16 bits).
    pub chroma_to_luma_injection: [u16; 2],
    /// `k_coefficient_value[0..3]` (3 × 8 bits).
    pub k_coefficient_values: [u8; 3],
    /// Mode-dependent payload data.
    pub payload: SlHdrPayload,
    /// Raw extension bytes, present when `sl_hdr_extension_present_flag` was
    /// set.
    pub extension: Option<SlHdrExtension>,
}

/// Picture colour and luminance info (original or target picture).
#[derive(Debug, Clone, PartialEq, Eq)]
pub struct SlHdrPictureInfo {
    /// `*_picture_primaries` (8 bits).
    pub primaries: u8,
    /// `*_picture_max_luminance` (16 bits).
    pub max_luminance: u16,
    /// `*_picture_min_luminance` (16 bits).
    pub min_luminance: u16,
}

/// Source mastering display colour volume info.
#[derive(Debug, Clone, PartialEq, Eq, Default)]
pub struct SlHdrMdcvInfo {
    /// Chromaticity coordinates `[component][0=x, 1=y]` for 3 primaries
    /// (3 × 2 × 16 bits).
    pub primaries: [[u16; 2]; 3],
    /// `src_mdcv_ref_white_x` (16 bits).
    pub ref_white_x: u16,
    /// `src_mdcv_ref_white_y` (16 bits).
    pub ref_white_y: u16,
    /// `src_mdcv_max_mastering_luminance` (16 bits).
    pub max_mastering_luminance: u16,
    /// `src_mdcv_min_mastering_luminance` (16 bits).
    pub min_mastering_luminance: u16,
}

/// Mode-dependent payload.
#[derive(Debug, Clone, PartialEq, Eq)]
pub enum SlHdrPayload {
    /// `sl_hdr_payload_mode == 0`: tone-mapping tables.
    Mode0(SlHdrMode0),
    /// `sl_hdr_payload_mode == 1`: luminance/colour mapping tables.
    Mode1(Box<SlHdrMode1>),
    /// Any other `sl_hdr_payload_mode` value; the raw mode byte is preserved.
    ///
    /// Encoding this variant is lossy: only the `sl_hdr_payload_mode` field is
    /// written; the payload body bytes are not retained and cannot be re-emitted.
    Unknown(u8),
}

/// Tone-mapping payload (`sl_hdr_payload_mode == 0`).
#[derive(Debug, Clone, PartialEq, Eq, Default)]
pub struct SlHdrMode0 {
    /// `tone_mapping_input_signal_black_level_offset` (8 bits).
    pub tone_mapping_input_signal_black_level_offset: u8,
    /// `tone_mapping_input_signal_white_level_offset` (8 bits).
    pub tone_mapping_input_signal_white_level_offset: u8,
    /// `shadow_gain_control` (8 bits).
    pub shadow_gain_control: u8,
    /// `highlight_gain_control` (8 bits).
    pub highlight_gain_control: u8,
    /// `mid_tone_width_adjustment_factor` (8 bits).
    pub mid_tone_width_adjustment_factor: u8,
    /// `tone_mapping_output_fine_tuning` table (up to 15 entries; count is 4
    /// bits).
    pub tone_mapping_output_fine_tuning: SlHdrTable15,
    /// `saturation_gain` table (up to 15 entries; count is 4 bits).
    pub saturation_gain: SlHdrTable15,
}

/// Luminance/colour mapping payload (`sl_hdr_payload_mode == 1`).
#[derive(Debug, Clone, PartialEq, Eq, Default)]
pub struct SlHdrMode1 {
    /// `lm_uniform_sampling_flag`. When `true`, `luminance_mapping.x` is not
    /// present in the bitstream and holds zeros.
    pub lm_uniform_sampling_flag: bool,
    /// Luminance mapping table (up to 127 entries; count is 7 bits).
    pub luminance_mapping: SlHdrTable127,
    /// `cc_uniform_sampling_flag`. When `true`, `colour_correction.x` is not
    /// present in the bitstream and holds zeros.
    pub cc_uniform_sampling_flag: bool,
    /// Colour correction table (up to 127 entries; count is 7 bits).
    pub colour_correction: SlHdrTable127,
}

/// A table of up to 15 (x, y) byte pairs.
#[derive(Debug, Clone, PartialEq, Eq, Default)]
pub struct SlHdrTable15 {
    /// Number of valid entries (up to 15).
    pub count: u8,
    /// X values; only `x[..count]` is valid.
    pub x: [u8; 15],
    /// Y values; only `y[..count]` is valid.
    pub y: [u8; 15],
}

/// A table of up to 127 (x, y) u16 pairs.
///
/// X values are absent from the bitstream (and zeroed here) when the
/// corresponding `*_uniform_sampling_flag` is `true`.
#[derive(Debug, Clone, PartialEq, Eq)]
pub struct SlHdrTable127 {
    /// Number of valid entries (up to 127).
    pub count: u8,
    /// X values; only `x[..count]` is valid.
    pub x: [u16; 127],
    /// Y values; only `y[..count]` is valid.
    pub y: [u16; 127],
}

impl Default for SlHdrTable127 {
    fn default() -> (t: Self)
        ensures
            t.count == 0,
            forall|i: int| 0 <= i < 127 ==> t.x[i] == 0 && t.y[i] == 0,
    {
        Self { count: 0, x: [0u16; 127], y: [0u16; 127] }
    }
}

/// Raw extension data from `sl_hdr_extension_*` fields.
#[derive(Debug, Clone, PartialEq, Eq)]
pub struct SlHdrExtension {
    /// `sl_hdr_extension_6bits` (6 bits).
    pub extension_6bits: u8,
    /// Raw `sl_hdr_extension_data_byte` bytes.
    pub data: Vec<u8>,
}

// ---------------------------------------------------------------------------
// Views
// ---------------------------------------------------------------------------

/// The contents of an [`SlHdrBody`], with the extension as its 6-bit field
/// and data bytes.
pub struct SlHdrBodyView {
    /// `sl_hdr_persistence_flag`.
    pub sl_hdr_persistence_flag: bool,
    /// `sl_hdr_payload_mode`.
    pub sl_hdr_payload_mode: u8,
    /// Original picture info.
    pub original_picture_info: Option<SlHdrPictureInfo>,
    /// Target picture info.
    pub target_picture_info: Option<SlHdrPictureInfo>,
    /// Source mastering display colour volume info.
    pub src_mdcv_info: Option<SlHdrMdcvInfo>,
    /// Matrix coefficients.
    pub matrix_coefficient_values: [u16; 4],
    /// Chroma-to-luma injection.
    pub chroma_to_luma_injection: [u16; 2],
    /// K coefficients.
    pub k_coefficient_values: [u8; 3],
    /// Mode-dependent payload.
    pub payload: SlHdrPayload,
    /// The extension's 6-bit field and data bytes.
    pub extension: Option<(u8, Seq<u8>)>,
}

/// The contents of an [`SlHdrMetadata`].
pub struct SlHdrMetadataView {
    /// `itu_t_t35_country_code`.
    pub itu_t_t35_country_code: u8,
    /// `terminal_provider_code`.
    pub terminal_provider_code: u16,
    /// `terminal_provider_oriented_code_message_idc`.
    pub terminal_provider_oriented_code_message_idc: u8,
    /// `sl_hdr_mode_value_minus1`.
    pub sl_hdr_mode_value_minus1: u8,
    /// `sl_hdr_spec_major_version_idc`.
    pub sl_hdr_spec_major_version_idc: u8,
    /// `sl_hdr_spec_minor_version_idc`.
    pub sl_hdr_spec_minor_version_idc: u8,
    /// `sl_hdr_cancel_flag`.
    pub sl_hdr_cancel_flag: bool,
    /// The body.
    pub body: Option<SlHdrBodyView>,
}

/// The 6-bit field and data bytes of an optional extension.
pub open spec fn ext_view(e: Option<SlHdrExtension>) -> Option<(u8, Seq<u8>)> {
    match e {
        Some(x) => Some((x.extension_6bits, x.data@)),
        None => None,
    }
}

impl View for SlHdrBody {
    type V = SlHdrBodyView;

    open spec fn view(&self) -> SlHdrBodyView {
        SlHdrBodyView {
            sl_hdr_persistence_flag: self.sl_hdr_persistence_flag,
            sl_hdr_payload_mode: self.sl_hdr_payload_mode,
            original_picture_info: self.original_picture_info,
            target_picture_info: self.target_picture_info,
            src_mdcv_info: self.src_mdcv_info,
            matrix_coefficient_values: self.matrix_coefficient_values,
            chroma_to_luma_injection: self.chroma_to_luma_injection,
            k_coefficient_values: self.k_coefficient_values,
            payload: self.payload,
            extension: ext_view(self.extension),
        }
    }
}

/// The view of an optional body.
pub open spec fn body_view(b: Option<SlHdrBody>) -> Option<SlHdrBodyView> {
    match b {
        Some(x) => Some(x@),
        None => None,
    }
}

impl View for SlHdrMetadata {
    type V = SlHdrMetadataView;

    open spec fn view(&self) -> SlHdrMetadataView {
        SlHdrMetadataView {
            itu_t_t35_country_code: self.itu_t_t35_country_code,
            terminal_provider_code: self.terminal_provider_code,
            terminal_provider_oriented_code_message_idc:
                self.terminal_provider_oriented_code_message_idc,
            sl_hdr_mode_value_minus1: self.sl_hdr_mode_value_minus1,
            sl_hdr_spec_major_version_idc: self.sl_hdr_spec_major_version_idc,
            sl_hdr_spec_minor_version_idc: self.sl_hdr_spec_minor_version_idc,
            sl_hdr_cancel_flag: self.sl_hdr_cancel_flag,
            body: body_view(self.body),
        }
    }
}

// ---------------------------------------------------------------------------
// Field layouts
// ---------------------------------------------------------------------------

/// Country code, provider code, message idc, mode − 1, major and minor
/// version, cancel flag.
pub const HEAD_FIELDS: [u8; 7] = [8, 16, 8, 4, 4, 7, 1];

/// Persistence flag, the four presence flags, payload mode.
pub const BODY_FLAG_FIELDS: [u8; 6] = [1, 1, 1, 1, 1, 3];

/// Primaries, maximum and minimum luminance.
pub const PICTURE_FIELDS: [u8; 3] = [8, 16, 16];

/// Three (x, y) primaries, reference white (x, y), maximum and minimum
/// mastering luminance.
pub const MDCV_FIELDS: [u8; 10] = [16, 16, 16, 16, 16, 16, 16, 16, 16, 16];

/// Four matrix coefficients, two chroma-to-luma injections, three k
/// coefficients.
pub const COEFF_FIELDS: [u8; 9] = [16, 16, 16, 16, 16, 16, 8, 8, 8];

/// The five mode-0 scalars and the two table counts.
pub const MODE0_FIELDS: [u8; 7] = [8, 8, 8, 8, 8, 4, 4];

/// One (x, y) byte pair.
pub const PAIR8_FIELDS: [u8; 2] = [8, 8];

/// A mode-1 table's uniform-sampling flag and count.
pub const TABLE127_HEAD_FIELDS: [u8; 2] = [1, 7];

/// One (x, y) mode-1 table entry.
pub const XY16_FIELDS: [u8; 2] = [16, 16];

/// One mode-1 table entry with uniform sampling (y only).
pub const Y16_FIELDS: [u8; 1] = [16];

/// The extension's 6-bit field and 10-bit length.
pub const EXT_HEAD_FIELDS: [u8; 2] = [6, 10];

/// One extension data byte.
pub const BYTE_FIELDS: [u8; 1] = [8];

/// The widths of a mode-1 table entry.
pub open spec fn entry_widths(uniform: bool) -> Seq<u8> {
    if uniform {
        Y16_FIELDS@
    } else {
        XY16_FIELDS@
    }
}

// ---------------------------------------------------------------------------
// What a payload decodes to
// ---------------------------------------------------------------------------

/// The picture info held in the fields `v`.
pub open spec fn picture_of(v: Seq<u32>) -> SlHdrPictureInfo {
    SlHdrPictureInfo {
        primaries: v[0] as u8,
        max_luminance: v[1] as u16,
        min_luminance: v[2] as u16,
    }
}

/// Reading picture info when `present`.
pub open spec fn parse_opt_picture(bits: Seq<bool>, p: int, present: bool) -> Option<
    (Option<SlHdrPictureInfo>, int),
> {
    if present {
        match parse_fields(bits, p, PICTURE_FIELDS@) {
            None => None,
            Some((v, q)) => Some((Some(picture_of(v)), q)),
        }
    } else {
        Some((None, p))
    }
}

/// The mastering display colour volume held in the fields `v`.
pub open spec fn mdcv_of(v: Seq<u32>) -> SlHdrMdcvInfo {
    SlHdrMdcvInfo {
        primaries: array_of(
            seq![
                array_of(seq![v[0] as u16, v[1] as u16]),
                array_of(seq![v[2] as u16, v[3] as u16]),
                array_of(seq![v[4] as u16, v[5] as u16]),
            ],
        ),
        ref_white_x: v[6] as u16,
        ref_white_y: v[7] as u16,
        max_mastering_luminance: v[8] as u16,
        min_mastering_luminance: v[9] as u16,
    }
}

/// Reading mastering display colour volume info when `present`.
pub open spec fn parse_opt_mdcv(bits: Seq<bool>, p: int, present: bool) -> Option<
    (Option<SlHdrMdcvInfo>, int),
> {
    if present {
        match parse_fields(bits, p, MDCV_FIELDS@) {
            None => None,
            Some((v, q)) => Some((Some(mdcv_of(v)), q)),
        }
    } else {
        Some((None, p))
    }
}

/// The 15-entry table held in the pairs `gs`.
pub open spec fn table15_of(count: u8, gs: Seq<Seq<u32>>) -> SlHdrTable15 {
    SlHdrTable15 {
        count,
        x: array_of(pad(Seq::new(gs.len(), |i: int| gs[i][0] as u8), 15, 0u8)),
        y: array_of(pad(Seq::new(gs.len(), |i: int| gs[i][1] as u8), 15, 0u8)),
    }
}

/// Reading a mode-0 payload: five scalars, two table counts, then each
/// table's pairs.
pub open spec fn parse_mode0(bits: Seq<bool>, p: int) -> Option<(SlHdrMode0, int)> {
    match parse_fields(bits, p, MODE0_FIELDS@) {
        None => None,
        Some((v, p1)) => match parse_groups(bits, p1, v[5] as nat, PAIR8_FIELDS@) {
            None => None,
            Some((g1, p2)) => match parse_groups(bits, p2, v[6] as nat, PAIR8_FIELDS@) {
                None => None,
                Some((g2, p3)) => Some(
                    (
                        SlHdrMode0 {
                            tone_mapping_input_signal_black_level_offset: v[0] as u8,
                            tone_mapping_input_signal_white_level_offset: v[1] as u8,
                            shadow_gain_control: v[2] as u8,
                            highlight_gain_control: v[3] as u8,
                            mid_tone_width_adjustment_factor: v[4] as u8,
                            tone_mapping_output_fine_tuning: table15_of(v[5] as u8, g1),
                            saturation_gain: table15_of(v[6] as u8, g2),
                        },
                        p3,
                    ),
                ),
            },
        },
    }
}

/// The 127-entry table held in the entries `gs`; x values are zero under
/// uniform sampling.
pub open spec fn table127_of(count: u8, gs: Seq<Seq<u32>>, uniform: bool) -> SlHdrTable127 {
    SlHdrTable127 {
        count,
        x: array_of(
            pad(
                Seq::new(
                    gs.len(),
                    |i: int|
                        if uniform {
                            0u16
                        } else {
                            gs[i][0] as u16
                        },
                ),
                127,
                0u16,
            ),
        ),
        y: array_of(
            pad(
                Seq::new(
                    gs.len(),
                    |i: int|
                        if uniform {
                            gs[i][0] as u16
                        } else {
                            gs[i][1] as u16
                        },
                ),
                127,
                0u16,
            ),
        ),
    }
}

/// Reading a mode-1 table: the uniform-sampling flag, the count, then each
/// entry (y only under uniform sampling, else x then y).
pub open spec fn parse_table127(bits: Seq<bool>, p: int) -> Option<((bool, SlHdrTable127), int)> {
    match parse_fields(bits, p, TABLE127_HEAD_FIELDS@) {
        None => None,
        Some((h, p1)) => match parse_groups(bits, p1, h[1] as nat, entry_widths(h[0] == 1)) {
            None => None,
            Some((gs, p2)) => Some(((h[0] == 1, table127_of(h[1] as u8, gs, h[0] == 1)), p2)),
        },
    }
}

/// Reading a mode-1 payload: the luminance mapping table, then the colour
/// correction table.
pub open spec fn parse_mode1(bits: Seq<bool>, p: int) -> Option<(SlHdrMode1, int)> {
    match parse_table127(bits, p) {
        None => None,
        Some((lm, p1)) => match parse_table127(bits, p1) {
            None => None,
            Some((cc, p2)) => Some(
                (
                    SlHdrMode1 {
                        lm_uniform_sampling_flag: lm.0,
                        luminance_mapping: lm.1,
                        cc_uniform_sampling_flag: cc.0,
                        colour_correction: cc.1,
                    },
                    p2,
                ),
            ),
        },
    }
}

/// Reading the payload of the given mode; other modes carry no bits.
pub open spec fn parse_payload(bits: Seq<bool>, p: int, mode: u8) -> Option<(SlHdrPayload, int)> {
    if mode == 0 {
        match parse_mode0(bits, p) {
            None => None,
            Some((m, q)) => Some((SlHdrPayload::Mode0(m), q)),
        }
    } else if mode == 1 {
        match parse_mode1(bits, p) {
            None => None,
            Some((m, q)) => Some((SlHdrPayload::Mode1(Box::new(m)), q)),
        }
    } else {
        Some((SlHdrPayload::Unknown(mode), p))
    }
}

/// Reading the extension when `present`: its 6-bit field, its 10-bit length,
/// then that many bytes.
pub open spec fn parse_opt_ext(bits: Seq<bool>, p: int, present: bool) -> Option<
    (Option<(u8, Seq<u8>)>, int),
> {
    if present {
        match parse_fields(bits, p, EXT_HEAD_FIELDS@) {
            None => None,
            Some((e, p1)) => match parse_groups(bits, p1, e[1] as nat, BYTE_FIELDS@) {
                None => None,
                Some((gs, p2)) => Some(
                    (Some((e[0] as u8, Seq::new(gs.len(), |i: int| gs[i][0] as u8))), p2),
                ),
            },
        }
    } else {
        Some((None, p))
    }
}

/// The body fields read before the payload: the flags, the optional picture
/// and mastering info, and the coefficient fields.
pub type SlHdrBodyStart = (
    Seq<u32>,
    Option<SlHdrPictureInfo>,
    Option<SlHdrPictureInfo>,
    Option<SlHdrMdcvInfo>,
    Seq<u32>,
);

/// Reading the body fields before the payload.
pub open spec fn parse_body_start(bits: Seq<bool>, p: int) -> Option<(SlHdrBodyStart, int)> {
    match parse_fields(bits, p, BODY_FLAG_FIELDS@) {
        None => None,
        Some((f, p1)) => match parse_opt_picture(bits, p1, f[1] == 1) {
            None => None,
            Some((orig, p2)) => match parse_opt_picture(bits, p2, f[2] == 1) {
                None => None,
                Some((target, p3)) => match parse_opt_mdcv(bits, p3, f[3] == 1) {
                    None => None,
                    Some((mdcv, p4)) => match parse_fields(bits, p4, COEFF_FIELDS@) {
                        None => None,
                        Some((c, p5)) => Some(((f, orig, target, mdcv, c), p5)),
                    },
                },
            },
        },
    }
}

/// Reading a body: its start, the payload of its mode, its extension.
pub open spec fn parse_body(bits: Seq<bool>, p: int) -> Option<SlHdrBodyView> {
    match parse_body_start(bits, p) {
        None => None,
        Some((s, p5)) => match parse_payload(bits, p5, s.0[5] as u8) {
            None => None,
            Some((payload, p6)) => match parse_opt_ext(bits, p6, s.0[4] == 1) {
                None => None,
                Some((ext, p7)) => Some(
                    SlHdrBodyView {
                        sl_hdr_persistence_flag: s.0[0] == 1,
                        sl_hdr_payload_mode: s.0[5] as u8,
                        original_picture_info: s.1,
                        target_picture_info: s.2,
                        src_mdcv_info: s.3,
                        matrix_coefficient_values: array_of(
                            seq![s.4[0] as u16, s.4[1] as u16, s.4[2] as u16, s.4[3] as u16],
                        ),
                        chroma_to_luma_injection: array_of(seq![s.4[4] as u16, s.4[5] as u16]),
                        k_coefficient_values: array_of(
                            seq![s.4[6] as u8, s.4[7] as u8, s.4[8] as u8],
                        ),
                        payload,
                        extension: ext,
                    },
                ),
            },
        },
    }
}

/// The metadata an SL-HDR bit string decodes to, or `None` when it is too
/// short for the fields it declares.
pub open spec fn slhdr_of_bits(bits: Seq<bool>) -> Option<SlHdrMetadataView> {
    match parse_fields(bits, 0, HEAD_FIELDS@) {
        None => None,
        Some((h, p1)) => if h[6] == 1 {
            Some(
                SlHdrMetadataView {
                    itu_t_t35_country_code: h[0] as u8,
                    terminal_provider_code: h[1] as u16,
                    terminal_provider_oriented_code_message_idc: h[2] as u8,
                    sl_hdr_mode_value_minus1: h[3] as u8,
                    sl_hdr_spec_major_version_idc: h[4] as u8,
                    sl_hdr_spec_minor_version_idc: h[5] as u8,
                    sl_hdr_cancel_flag: true,
                    body: None,
                },
            )
        } else {
            match parse_body(bits, p1) {
                None => None,
                Some(b) => Some(
                    SlHdrMetadataView {
                        itu_t_t35_country_code: h[0] as u8,
                        terminal_provider_code: h[1] as u16,
                        terminal_provider_oriented_code_message_idc: h[2] as u8,
                        sl_hdr_mode_value_minus1: h[3] as u8,
                        sl_hdr_spec_major_version_idc: h[4] as u8,
                        sl_hdr_spec_minor_version_idc: h[5] as u8,
                        sl_hdr_cancel_flag: false,
                        body: Some(b),
                    },
                ),
            }
        },
    }
}

/// The warnings reading a body records: a payload mode other than 0 or 1,
/// once the fields before the payload have been read.
pub open spec fn body_warnings(bits: Seq<bool>, p: int) -> Seq<DynamicHdrWarning> {
    match parse_body_start(bits, p) {
        None => Seq::empty(),
        Some((s, p5)) => if s.0[5] as u8 > 1 {
            seq![
                DynamicHdrWarning::UnknownEnumValue {
                    field: "sl_hdr_payload_mode",
                    raw: s.0[5] as u8,
                },
            ]
        } else {
            Seq::empty()
        },
    }
}

/// The warnings decoding an SL-HDR bit string records: those of its body,
/// when it is not cancelled.
pub open spec fn slhdr_warnings(bits: Seq<bool>) -> Seq<DynamicHdrWarning> {
    match parse_fields(bits, 0, HEAD_FIELDS@) {
        None => Seq::empty(),
        Some((h, p1)) => if h[6] == 1 {
            Seq::empty()
        } else {
            body_warnings(bits, p1)
        },
    }
}

} // verus!

verus! {

// ---------------------------------------------------------------------------
// Decoding
// ---------------------------------------------------------------------------

/// The widths of the fixed layouts.
proof fn lemma_layout_widths()
    ensures
        widths_ok(HEAD_FIELDS@),
        widths_ok(BODY_FLAG_FIELDS@),
        widths_ok(PICTURE_FIELDS@),
        widths_ok(MDCV_FIELDS@),
        widths_ok(COEFF_FIELDS@),
        widths_ok(MODE0_FIELDS@),
        widths_ok(PAIR8_FIELDS@),
        widths_ok(TABLE127_HEAD_FIELDS@),
        widths_ok(XY16_FIELDS@),
        widths_ok(Y16_FIELDS@),
        widths_ok(EXT_HEAD_FIELDS@),
        widths_ok(BYTE_FIELDS@),
        width_sum(HEAD_FIELDS@) == 48,
        width_sum(BODY_FLAG_FIELDS@) == 8,
        width_sum(PICTURE_FIELDS@) == 40,
        width_sum(MDCV_FIELDS@) == 160,
        width_sum(COEFF_FIELDS@) == 120,
        width_sum(MODE0_FIELDS@) == 48,
        width_sum(PAIR8_FIELDS@) == 16,
        width_sum(TABLE127_HEAD_FIELDS@) == 8,
        width_sum(XY16_FIELDS@) == 32,
        width_sum(Y16_FIELDS@) == 16,
        width_sum(EXT_HEAD_FIELDS@) == 16,
        width_sum(BYTE_FIELDS@) == 8,
{
    reveal_with_fuel(width_sum, 11);
}

/// Read picture info when `present`.
fn decode_opt_picture(r: &mut BitReader<'_>, present: bool) -> (res: Result<
    Option<SlHdrPictureInfo>,
    DecodeError,
>)
    requires
        old(r).wf(),
    ensures
        final(r).wf(),
        final(r).bits() == old(r).bits(),
        match parse_opt_picture(old(r).bits(), old(r).pos(), present) {
            Some((o, q)) => res == Ok::<Option<SlHdrPictureInfo>, DecodeError>(o) && final(r).pos()
                == q,
            None => res == Err::<Option<SlHdrPictureInfo>, DecodeError>(
                DecodeError::MalformedPayload,
            ),
        },
{
    if !present {
        return Ok(None);
    }
    let ghost p0 = r.pos();
    proof {
        lemma_layout_widths();
    }
    let v = read_fields(r, &PICTURE_FIELDS)?;
    proof {
        lemma_parse_fields_advance(old(r).bits(), p0, PICTURE_FIELDS@);
    }
    Ok(Some(SlHdrPictureInfo { primaries: v[0] as u8, max_luminance: v[1] as u16, min_luminance: v[2] as u16 }))
}

/// Read mastering display colour volume info when `present`.
fn decode_opt_mdcv(r: &mut BitReader<'_>, present: bool) -> (res: Result<
    Option<SlHdrMdcvInfo>,
    DecodeError,
>)
    requires
        old(r).wf(),
    ensures
        final(r).wf(),
        final(r).bits() == old(r).bits(),
        match parse_opt_mdcv(old(r).bits(), old(r).pos(), present) {
            Some((o, q)) => res == Ok::<Option<SlHdrMdcvInfo>, DecodeError>(o) && final(r).pos()
                == q,
            None => res == Err::<Option<SlHdrMdcvInfo>, DecodeError>(
                DecodeError::MalformedPayload,
            ),
        },
{
    if !present {
        return Ok(None);
    }
    let ghost p0 = r.pos();
    proof {
        lemma_layout_widths();
    }
    let v = read_fields(r, &MDCV_FIELDS)?;
    proof {
        lemma_parse_fields_advance(old(r).bits(), p0, MDCV_FIELDS@);
    }
    let p0 = [v[0] as u16, v[1] as u16];
    let p1 = [v[2] as u16, v[3] as u16];
    let p2 = [v[4] as u16, v[5] as u16];
    let primaries = [p0, p1, p2];
    proof {
        lemma_array_of(p0);
        lemma_array_of(p1);
        lemma_array_of(p2);
        assert(p0@ =~= seq![v@[0] as u16, v@[1] as u16]);
        assert(p1@ =~= seq![v@[2] as u16, v@[3] as u16]);
        assert(p2@ =~= seq![v@[4] as u16, v@[5] as u16]);
        lemma_array_of(primaries);
        assert(primaries@ =~= seq![
            array_of(seq![v@[0] as u16, v@[1] as u16]),
            array_of(seq![v@[2] as u16, v@[3] as u16]),
            array_of(seq![v@[4] as u16, v@[5] as u16]),
        ]);
    }
    Ok(
        Some(
            SlHdrMdcvInfo {
                primaries,
                ref_white_x: v[6] as u16,
                ref_white_y: v[7] as u16,
                max_mastering_luminance: v[8] as u16,
                min_mastering_luminance: v[9] as u16,
            },
        ),
    )
}

/// The 15-entry table from the pairs read.
fn table15_from(count: u8, gs: &Vec<Vec<u32>>, Ghost(sg): Ghost<Seq<Seq<u32>>>) -> (t:
    SlHdrTable15)
    requires
        count <= 15,
        sg.len() == count,
        gs@.len() == count,
        forall|i: int| 0 <= i < count ==> (#[trigger] gs@[i])@ == sg[i],
        forall|i: int| 0 <= i < count ==> (#[trigger] sg[i]).len() == 2,
    ensures
        t == table15_of(count, sg),
{
    let mut x = [0u8; 15];
    let mut y = [0u8; 15];
    let mut i: usize = 0;
    while i < count as usize
        invariant
            count <= 15,
            sg.len() == count,
            gs@.len() == count,
            forall|i: int| 0 <= i < count ==> (#[trigger] gs@[i])@ == sg[i],
            forall|i: int| 0 <= i < count ==> (#[trigger] sg[i]).len() == 2,
            i <= count,
            forall|k: int| 0 <= k < i ==> x@[k] == sg[k][0] as u8,
            forall|k: int| 0 <= k < i ==> y@[k] == sg[k][1] as u8,
            forall|k: int| i <= k < 15 ==> x@[k] == 0u8,
            forall|k: int| i <= k < 15 ==> y@[k] == 0u8,
        decreases count - i,
    {
        x[i] = gs[i][0] as u8;
        y[i] = gs[i][1] as u8;
        i = i + 1;
    }
    proof {
        assert(x@ =~= pad(Seq::new(sg.len(), |i: int| sg[i][0] as u8), 15, 0u8));
        assert(y@ =~= pad(Seq::new(sg.len(), |i: int| sg[i][1] as u8), 15, 0u8));
        lemma_array_of(x);
        lemma_array_of(y);
    }
    SlHdrTable15 { count, x, y }
}

/// Read a mode-0 payload.
fn decode_mode0(r: &mut BitReader<'_>) -> (res: Result<SlHdrMode0, DecodeError>)
    requires
        old(r).wf(),
    ensures
        final(r).wf(),
        final(r).bits() == old(r).bits(),
        match parse_mode0(old(r).bits(), old(r).pos()) {
            Some((m, q)) => res == Ok::<SlHdrMode0, DecodeError>(m) && final(r).pos() == q,
            None => res == Err::<SlHdrMode0, DecodeError>(DecodeError::MalformedPayload),
        },
{
    let ghost bits = r.bits();
    let ghost p0 = r.pos();
    proof {
        lemma_layout_widths();
        lemma2_to64();
    }
    let v = read_fields(r, &MODE0_FIELDS)?;
    proof {
        lemma_parse_fields_advance(bits, p0, MODE0_FIELDS@);
        lemma_parse_fields_fit(bits, p0, MODE0_FIELDS@);
        assert(MODE0_FIELDS@[5] == 4 && MODE0_FIELDS@[6] == 4);
    }
    let ftm_count = v[5] as u8;
    let sg_count = v[6] as u8;
    let ghost p1 = r.pos();
    let g1 = read_groups(r, ftm_count as usize, &PAIR8_FIELDS)?;
    let ghost s1 = parse_groups(bits, p1, ftm_count as nat, PAIR8_FIELDS@).unwrap().0;
    proof {
        lemma_parse_groups_shape(bits, p1, ftm_count as nat, PAIR8_FIELDS@);
    }
    let ghost p2 = r.pos();
    let g2 = read_groups(r, sg_count as usize, &PAIR8_FIELDS)?;
    let ghost s2 = parse_groups(bits, p2, sg_count as nat, PAIR8_FIELDS@).unwrap().0;
    proof {
        lemma_parse_groups_shape(bits, p2, sg_count as nat, PAIR8_FIELDS@);
    }
    Ok(SlHdrMode0 {
        tone_mapping_input_signal_black_level_offset: v[0] as u8,
        tone_mapping_input_signal_white_level_offset: v[1] as u8,
        shadow_gain_control: v[2] as u8,
        highlight_gain_control: v[3] as u8,
        mid_tone_width_adjustment_factor: v[4] as u8,
        tone_mapping_output_fine_tuning: table15_from(ftm_count, &g1, Ghost(s1)),
        saturation_gain: table15_from(sg_count, &g2, Ghost(s2)),
    })
}

/// The 127-entry table from the entries read.
fn table127_from(count: u8, gs: &Vec<Vec<u32>>, uniform: bool, Ghost(sg): Ghost<Seq<Seq<u32>>>) -> (t:
    SlHdrTable127)
    requires
        count <= 127,
        sg.len() == count,
        gs@.len() == count,
        forall|i: int| 0 <= i < count ==> (#[trigger] gs@[i])@ == sg[i],
        forall|i: int| 0 <= i < count ==> (#[trigger] sg[i]).len() == entry_widths(uniform).len(),
    ensures
        t == table127_of(count, sg, uniform),
{
    let mut x = [0u16; 127];
    let mut y = [0u16; 127];
    let mut i: usize = 0;
    while i < count as usize
        invariant
            count <= 127,
            sg.len() == count,
            gs@.len() == count,
            forall|i: int| 0 <= i < count ==> (#[trigger] gs@[i])@ == sg[i],
            forall|i: int| 0 <= i < count ==> (#[trigger] sg[i]).len() == entry_widths(
                uniform,
            ).len(),
            entry_widths(uniform).len() == if uniform {
                1int
            } else {
                2int
            },
            i <= count,
            forall|k: int|
                0 <= k < i ==> x@[k] == if uniform {
                    0u16
                } else {
                    sg[k][0] as u16
                },
            forall|k: int|
                0 <= k < i ==> y@[k] == if uniform {
                    sg[k][0] as u16
                } else {
                    sg[k][1] as u16
                },
            forall|k: int| i <= k < 127 ==> x@[k] == 0u16,
            forall|k: int| i <= k < 127 ==> y@[k] == 0u16,
        decreases count - i,
    {
        if uniform {
            y[i] = gs[i][0] as u16;
        } else {
            x[i] = gs[i][0] as u16;
            y[i] = gs[i][1] as u16;
        }
        i = i + 1;
    }
    proof {
        assert(x@ =~= pad(
            Seq::new(
                sg.len(),
                |i: int|
                    if uniform {
                        0u16
                    } else {
                        sg[i][0] as u16
                    },
            ),
            127,
            0u16,
        ));
        assert(y@ =~= pad(
            Seq::new(
                sg.len(),
                |i: int|
                    if uniform {
                        sg[i][0] as u16
                    } else {
                        sg[i][1] as u16
                    },
            ),
            127,
            0u16,
        ));
        lemma_array_of(x);
        lemma_array_of(y);
    }
    SlHdrTable127 { count, x, y }
}

/// Read a mode-1 table.
fn decode_table127(r: &mut BitReader<'_>) -> (res: Result<(bool, SlHdrTable127), DecodeError>)
    requires
        old(r).wf(),
    ensures
        final(r).wf(),
        final(r).bits() == old(r).bits(),
        match parse_table127(old(r).bits(), old(r).pos()) {
            Some((t, q)) => res == Ok::<(bool, SlHdrTable127), DecodeError>(t) && final(r).pos()
                == q,
            None => res == Err::<(bool, SlHdrTable127), DecodeError>(
                DecodeError::MalformedPayload,
            ),
        },
{
    let ghost bits = r.bits();
    let ghost p0 = r.pos();
    proof {
        lemma_layout_widths();
        lemma2_to64();
    }
    let h = read_fields(r, &TABLE127_HEAD_FIELDS)?;
    proof {
        lemma_parse_fields_advance(bits, p0, TABLE127_HEAD_FIELDS@);
        lemma_parse_fields_fit(bits, p0, TABLE127_HEAD_FIELDS@);
        assert(TABLE127_HEAD_FIELDS@[1] == 7);
    }
    let uniform = h[0] == 1;
    let count = h[1] as u8;
    let ghost p1 = r.pos();
    let gs = if uniform {
        read_groups(r, count as usize, &Y16_FIELDS)?
    } else {
        read_groups(r, count as usize, &XY16_FIELDS)?
    };
    let ghost sg = parse_groups(bits, p1, count as nat, entry_widths(uniform)).unwrap().0;
    proof {
        lemma_parse_groups_shape(bits, p1, count as nat, entry_widths(uniform));
    }
    Ok((uniform, table127_from(count, &gs, uniform, Ghost(sg))))
}

/// Read a mode-1 payload.
fn decode_mode1(r: &mut BitReader<'_>) -> (res: Result<SlHdrMode1, DecodeError>)
    requires
        old(r).wf(),
    ensures
        final(r).wf(),
        final(r).bits() == old(r).bits(),
        match parse_mode1(old(r).bits(), old(r).pos()) {
            Some((m, q)) => res == Ok::<SlHdrMode1, DecodeError>(m) && final(r).pos() == q,
            None => res == Err::<SlHdrMode1, DecodeError>(DecodeError::MalformedPayload),
        },
{
    let lm = decode_table127(r)?;
    let cc = decode_table127(r)?;
    Ok(SlHdrMode1 {
        lm_uniform_sampling_flag: lm.0,
        luminance_mapping: lm.1,
        cc_uniform_sampling_flag: cc.0,
        colour_correction: cc.1,
    })
}

/// Read the payload of the given mode.
fn decode_payload(r: &mut BitReader<'_>, mode: u8) -> (res: Result<SlHdrPayload, DecodeError>)
    requires
        old(r).wf(),
    ensures
        final(r).wf(),
        final(r).bits() == old(r).bits(),
        match parse_payload(old(r).bits(), old(r).pos(), mode) {
            Some((m, q)) => res == Ok::<SlHdrPayload, DecodeError>(m) && final(r).pos() == q,
            None => res == Err::<SlHdrPayload, DecodeError>(DecodeError::MalformedPayload),
        },
{
    if mode == 0 {
        Ok(SlHdrPayload::Mode0(decode_mode0(r)?))
    } else if mode == 1 {
        Ok(SlHdrPayload::Mode1(Box::new(decode_mode1(r)?)))
    } else {
        Ok(SlHdrPayload::Unknown(mode))
    }
}

/// Read the extension when `present`.
fn decode_opt_ext(r: &mut BitReader<'_>, present: bool) -> (res: Result<
    Option<SlHdrExtension>,
    DecodeError,
>)
    requires
        old(r).wf(),
    ensures
        final(r).wf(),
        final(r).bits() == old(r).bits(),
        match parse_opt_ext(old(r).bits(), old(r).pos(), present) {
            Some((e, q)) => res matches Ok(x) && ext_view(x) == e && final(r).pos() == q,
            None => res == Err::<Option<SlHdrExtension>, DecodeError>(
                DecodeError::MalformedPayload,
            ),
        },
{
    if !present {
        return Ok(None);
    }
    let ghost bits = r.bits();
    let ghost p0 = r.pos();
    proof {
        lemma_layout_widths();
        lemma2_to64();
    }
    let e = read_fields(r, &EXT_HEAD_FIELDS)?;
    proof {
        lemma_parse_fields_advance(bits, p0, EXT_HEAD_FIELDS@);
        lemma_parse_fields_fit(bits, p0, EXT_HEAD_FIELDS@);
        assert(EXT_HEAD_FIELDS@[1] == 10);
    }
    let length = e[1] as usize;
    let ghost p1 = r.pos();
    let gs = read_groups(r, length, &BYTE_FIELDS)?;
    let ghost sg = parse_groups(bits, p1, length as nat, BYTE_FIELDS@).unwrap().0;
    proof {
        lemma_parse_groups_shape(bits, p1, length as nat, BYTE_FIELDS@);
    }
    let mut data: Vec<u8> = Vec::new();
    let mut i: usize = 0;
    while i < length
        invariant
            sg.len() == length,
            gs@.len() == length,
            forall|i: int| 0 <= i < length ==> (#[trigger] gs@[i])@ == sg[i],
            forall|i: int| 0 <= i < length ==> (#[trigger] sg[i]).len() == 1,
            i <= length,
            data@ == Seq::new(i as nat, |k: int| sg[k][0] as u8),
        decreases length - i,
    {
        data.push(gs[i][0] as u8);
        i = i + 1;
        assert(data@ =~= Seq::new(i as nat, |k: int| sg[k][0] as u8));
    }
    Ok(Some(SlHdrExtension { extension_6bits: e[0] as u8, data }))
}

} // verus!

verus! {

/// Read the body fields before the payload.
fn decode_body_start(r: &mut BitReader<'_>) -> (res: Result<
    (Vec<u32>, Option<SlHdrPictureInfo>, Option<SlHdrPictureInfo>, Option<SlHdrMdcvInfo>, Vec<u32>),
    DecodeError,
>)
    requires
        old(r).wf(),
    ensures
        final(r).wf(),
        final(r).bits() == old(r).bits(),
        match parse_body_start(old(r).bits(), old(r).pos()) {
            Some((s, q)) => res matches Ok(x) && x.0@ == s.0 && x.1 == s.1 && x.2 == s.2 && x.3
                == s.3 && x.4@ == s.4 && final(r).pos() == q && s.0.len() == 6 && s.4.len() == 9,
            None => res is Err,
        },
{
    let ghost bits = r.bits();
    let ghost p0 = r.pos();
    proof {
        lemma_layout_widths();
    }
    let f = read_fields(r, &BODY_FLAG_FIELDS)?;
    proof {
        lemma_parse_fields_advance(bits, p0, BODY_FLAG_FIELDS@);
    }
    let original = decode_opt_picture(r, f[1] == 1)?;
    let target = decode_opt_picture(r, f[2] == 1)?;
    let mdcv = decode_opt_mdcv(r, f[3] == 1)?;
    let ghost p4 = r.pos();
    let c = read_fields(r, &COEFF_FIELDS)?;
    proof {
        lemma_parse_fields_advance(bits, p4, COEFF_FIELDS@);
    }
    Ok((f, original, target, mdcv, c))
}

/// Read a body, recording a warning for an unrecognised payload mode.
fn decode_body(r: &mut BitReader<'_>, warnings: &mut Vec<DynamicHdrWarning>) -> (res: Result<
    SlHdrBody,
    DecodeError,
>)
    requires
        old(r).wf(),
    ensures
        final(r).wf(),
        match parse_body(old(r).bits(), old(r).pos()) {
            Some(b) => res matches Ok(x) && x@ == b,
            None => res == Err::<SlHdrBody, DecodeError>(DecodeError::MalformedPayload),
        },
        final(warnings)@ == old(warnings)@ + body_warnings(old(r).bits(), old(r).pos()),
{
    let ghost bits = r.bits();
    let ghost p0 = r.pos();
    let ghost w0 = warnings@;
    let start = match decode_body_start(r) {
        Ok(s) => s,
        Err(_) => {
            assert(warnings@ =~= w0 + body_warnings(bits, p0));
            return Err(DecodeError::MalformedPayload);
        },
    };
    let (flags, original_picture_info, target_picture_info, src_mdcv_info, c) = start;
    let sl_hdr_payload_mode = flags[5] as u8;
    let payload = if sl_hdr_payload_mode == 0 || sl_hdr_payload_mode == 1 {
        decode_payload(r, sl_hdr_payload_mode)
    } else {
        warnings.push(
            DynamicHdrWarning::UnknownEnumValue {
                field: "sl_hdr_payload_mode",
                raw: sl_hdr_payload_mode,
            },
        );
        decode_payload(r, sl_hdr_payload_mode)
    };
    assert(warnings@ =~= w0 + body_warnings(bits, p0));
    let payload = payload?;
    // GamutMappingEnabledFlag is not present in a standalone HDMI payload;
    // the gamut-mapping block is skipped entirely.
    let extension = decode_opt_ext(r, flags[4] == 1)?;
    let matrix_coefficient_values = [c[0] as u16, c[1] as u16, c[2] as u16, c[3] as u16];
    let chroma_to_luma_injection = [c[4] as u16, c[5] as u16];
    let k_coefficient_values = [c[6] as u8, c[7] as u8, c[8] as u8];
    proof {
        lemma_array_of(matrix_coefficient_values);
        lemma_array_of(chroma_to_luma_injection);
        lemma_array_of(k_coefficient_values);
        assert(matrix_coefficient_values@ =~= seq![
            c@[0] as u16,
            c@[1] as u16,
            c@[2] as u16,
            c@[3] as u16,
        ]);
        assert(chroma_to_luma_injection@ =~= seq![c@[4] as u16, c@[5] as u16]);
        assert(k_coefficient_values@ =~= seq![c@[6] as u8, c@[7] as u8, c@[8] as u8]);
    }
    Ok(SlHdrBody {
        sl_hdr_persistence_flag: flags[0] == 1,
        sl_hdr_payload_mode,
        original_picture_info,
        target_picture_info,
        src_mdcv_info,
        matrix_coefficient_values,
        chroma_to_luma_injection,
        k_coefficient_values,
        payload,
        extension,
    })
}

impl SlHdrMetadata {
    /// Parse an SL-HDR metadata payload (ETSI TS 103 433-1 Table A.1).
    ///
    /// Each non-fatal anomaly encountered (unrecognised `sl_hdr_payload_mode`
    /// values) is appended to `warnings`.
    ///
    /// `GamutMappingEnabledFlag` is not defined within the SL-HDR payload
    /// itself — it comes from an outer HEVC context unavailable in a
    /// standalone HDMI payload. The gamut-mapping block is therefore always
    /// skipped.
    ///
    /// # Errors
    ///
    /// Returns [`DecodeError::MalformedPayload`] if the payload is too short.
    pub fn decode(payload: &[u8], warnings: &mut Vec<DynamicHdrWarning>) -> (res: Result<
        Self,
        DecodeError,
    >)
        ensures
            match slhdr_of_bits(bits_of_bytes(payload@)) {
                Some(v) => res matches Ok(m) && m@ == v,
                None => res == Err::<SlHdrMetadata, DecodeError>(DecodeError::MalformedPayload),
            },
            final(warnings)@ == old(warnings)@ + slhdr_warnings(bits_of_bytes(payload@)),
    {
        let ghost bits = bits_of_bytes(payload@);
        let ghost w0 = warnings@;
        let mut r = BitReader::new(payload);
        proof {
            lemma_layout_widths();
        }
        let h = match read_fields(&mut r, &HEAD_FIELDS) {
            Ok(h) => h,
            Err(e) => {
                assert(warnings@ =~= w0 + slhdr_warnings(bits));
                return Err(e);
            },
        };
        proof {
            lemma_parse_fields_advance(bits, 0, HEAD_FIELDS@);
        }
        let sl_hdr_cancel_flag = h[6] == 1;
        let body = if sl_hdr_cancel_flag {
            assert(warnings@ =~= w0 + slhdr_warnings(bits));
            None
        } else {
            Some(decode_body(&mut r, warnings)?)
        };
        Ok(SlHdrMetadata {
            itu_t_t35_country_code: h[0] as u8,
            terminal_provider_code: h[1] as u16,
            terminal_provider_oriented_code_message_idc: h[2] as u8,
            sl_hdr_mode_value_minus1: h[3] as u8,
            sl_hdr_spec_major_version_idc: h[4] as u8,
            sl_hdr_spec_minor_version_idc: h[5] as u8,
            sl_hdr_cancel_flag,
            body,
        })
    }
}

} // verus!

verus! {

// ---------------------------------------------------------------------------
// What metadata encodes to
// ---------------------------------------------------------------------------

/// The values of the header fields.
pub open spec fn head_vals(m: SlHdrMetadataView) -> Seq<u32> {
    seq![
        m.itu_t_t35_country_code as u32,
        m.terminal_provider_code as u32,
        m.terminal_provider_oriented_code_message_idc as u32,
        m.sl_hdr_mode_value_minus1 as u32,
        m.sl_hdr_spec_major_version_idc as u32,
        m.sl_hdr_spec_minor_version_idc as u32,
        flag_val(m.sl_hdr_cancel_flag),
    ]
}

/// The values of picture info's fields.
pub open spec fn picture_vals(p: SlHdrPictureInfo) -> Seq<u32> {
    seq![p.primaries as u32, p.max_luminance as u32, p.min_luminance as u32]
}

/// The bits of optional picture info.
pub open spec fn enc_opt_picture(o: Option<SlHdrPictureInfo>) -> Seq<bool> {
    match o {
        Some(p) => enc_fields(picture_vals(p), PICTURE_FIELDS@),
        None => Seq::empty(),
    }
}

/// The values of mastering display colour volume fields.
pub open spec fn mdcv_vals(m: SlHdrMdcvInfo) -> Seq<u32> {
    seq![
        m.primaries[0][0] as u32,
        m.primaries[0][1] as u32,
        m.primaries[1][0] as u32,
        m.primaries[1][1] as u32,
        m.primaries[2][0] as u32,
        m.primaries[2][1] as u32,
        m.ref_white_x as u32,
        m.ref_white_y as u32,
        m.max_mastering_luminance as u32,
        m.min_mastering_luminance as u32,
    ]
}

/// The bits of optional mastering display colour volume info.
pub open spec fn enc_opt_mdcv(o: Option<SlHdrMdcvInfo>) -> Seq<bool> {
    match o {
        Some(m) => enc_fields(mdcv_vals(m), MDCV_FIELDS@),
        None => Seq::empty(),
    }
}

/// The values of the coefficient fields.
pub open spec fn coeff_vals(b: SlHdrBodyView) -> Seq<u32> {
    seq![
        b.matrix_coefficient_values[0] as u32,
        b.matrix_coefficient_values[1] as u32,
        b.matrix_coefficient_values[2] as u32,
        b.matrix_coefficient_values[3] as u32,
        b.chroma_to_luma_injection[0] as u32,
        b.chroma_to_luma_injection[1] as u32,
        b.k_coefficient_values[0] as u32,
        b.k_coefficient_values[1] as u32,
        b.k_coefficient_values[2] as u32,
    ]
}

/// The pairs of a 15-entry table carried on the wire.
pub open spec fn table15_groups(t: SlHdrTable15) -> Seq<Seq<u32>> {
    Seq::new(t.count as nat, |i: int| seq![t.x[i] as u32, t.y[i] as u32])
}

/// The bits of a mode-0 payload.
pub open spec fn enc_mode0(m: SlHdrMode0) -> Seq<bool> {
    enc_fields(
        seq![
            m.tone_mapping_input_signal_black_level_offset as u32,
            m.tone_mapping_input_signal_white_level_offset as u32,
            m.shadow_gain_control as u32,
            m.highlight_gain_control as u32,
            m.mid_tone_width_adjustment_factor as u32,
            m.tone_mapping_output_fine_tuning.count as u32,
            m.saturation_gain.count as u32,
        ],
        MODE0_FIELDS@,
    ) + enc_groups(table15_groups(m.tone_mapping_output_fine_tuning), PAIR8_FIELDS@) + enc_groups(
        table15_groups(m.saturation_gain),
        PAIR8_FIELDS@,
    )
}

/// The entries of a 127-entry table carried on the wire.
pub open spec fn table127_groups(uniform: bool, t: SlHdrTable127) -> Seq<Seq<u32>> {
    Seq::new(
        t.count as nat,
        |i: int|
            if uniform {
                seq![t.y[i] as u32]
            } else {
                seq![t.x[i] as u32, t.y[i] as u32]
            },
    )
}

/// The bits of a mode-1 table.
pub open spec fn enc_table127(uniform: bool, t: SlHdrTable127) -> Seq<bool> {
    enc_fields(seq![flag_val(uniform), t.count as u32], TABLE127_HEAD_FIELDS@) + enc_groups(
        table127_groups(uniform, t),
        entry_widths(uniform),
    )
}

/// The bits of a mode-1 payload.
pub open spec fn enc_mode1(m: SlHdrMode1) -> Seq<bool> {
    enc_table127(m.lm_uniform_sampling_flag, m.luminance_mapping) + enc_table127(
        m.cc_uniform_sampling_flag,
        m.colour_correction,
    )
}

/// The bits of a payload; an unrecognised mode carries none.
pub open spec fn enc_payload(p: SlHdrPayload) -> Seq<bool> {
    match p {
        SlHdrPayload::Mode0(m) => enc_mode0(m),
        SlHdrPayload::Mode1(m) => enc_mode1(*m),
        SlHdrPayload::Unknown(_) => Seq::empty(),
    }
}

/// The data bytes of an extension carried on the wire.
pub open spec fn ext_groups(data: Seq<u8>) -> Seq<Seq<u32>> {
    Seq::new(data.len(), |i: int| seq![data[i] as u32])
}

/// The bits of an optional extension: its 6-bit field, the low 10 bits of its
/// length, then every data byte.
pub open spec fn enc_opt_ext(e: Option<(u8, Seq<u8>)>) -> Seq<bool> {
    match e {
        Some((e6, data)) => enc_fields(seq![e6 as u32, (data.len() as u16) as u32], EXT_HEAD_FIELDS@)
            + enc_groups(ext_groups(data), BYTE_FIELDS@),
        None => Seq::empty(),
    }
}

/// The bits of a body.
pub open spec fn enc_body(b: SlHdrBodyView) -> Seq<bool> {
    enc_fields(
        seq![
            flag_val(b.sl_hdr_persistence_flag),
            flag_val(b.original_picture_info is Some),
            flag_val(b.target_picture_info is Some),
            flag_val(b.src_mdcv_info is Some),
            flag_val(b.extension is Some),
            b.sl_hdr_payload_mode as u32,
        ],
        BODY_FLAG_FIELDS@,
    ) + enc_opt_picture(b.original_picture_info) + enc_opt_picture(b.target_picture_info)
        + enc_opt_mdcv(b.src_mdcv_info) + enc_fields(coeff_vals(b), COEFF_FIELDS@) + enc_payload(
        b.payload,
    ) + enc_opt_ext(b.extension)
}

/// The bit string SL-HDR metadata encodes to.
pub open spec fn enc_slhdr(m: SlHdrMetadataView) -> Seq<bool> {
    enc_fields(head_vals(m), HEAD_FIELDS@) + match m.body {
        Some(b) => enc_body(b),
        None => Seq::empty(),
    }
}

/// A payload the encoder can write: its tables fit their slots.
pub open spec fn payload_encodable(p: SlHdrPayload) -> bool {
    match p {
        SlHdrPayload::Mode0(m) => m.tone_mapping_output_fine_tuning.count <= 15
            && m.saturation_gain.count <= 15,
        SlHdrPayload::Mode1(m) => m.luminance_mapping.count <= 127 && m.colour_correction.count
            <= 127,
        SlHdrPayload::Unknown(_) => true,
    }
}

/// Metadata the encoder can write: its tables fit their slots and its bits fit
/// the payload buffer (see [`lemma_slhdr_encodable`] for a bound on the
/// counts that gives the second).
pub open spec fn slhdr_encodable(m: SlHdrMetadataView) -> bool {
    &&& m.body matches Some(b) ==> payload_encodable(b.payload)
    &&& enc_slhdr(m).len() <= max_payload_bits()
}

} // verus!

verus! {

// ---------------------------------------------------------------------------
// Encoding
// ---------------------------------------------------------------------------

/// Write a 15-entry table's pairs.
fn encode_table15(w: &mut BitWriter, t: &SlHdrTable15)
    requires
        old(w).wf(),
        t.count <= 15,
        old(w).written().len() + enc_groups(table15_groups(*t), PAIR8_FIELDS@).len()
            <= max_payload_bits(),
    ensures
        final(w).wf(),
        final(w).written() == old(w).written() + enc_groups(table15_groups(*t), PAIR8_FIELDS@),
{
    proof {
        lemma_layout_widths();
    }
    let ghost w0 = w.written();
    let ghost gs = table15_groups(*t);
    let mut i: u8 = 0;
    assert(gs.take(0) =~= Seq::<Seq<u32>>::empty());
    while i < t.count
        invariant
            w.wf(),
            t.count <= 15,
            gs == table15_groups(*t),
            widths_ok(PAIR8_FIELDS@),
            i <= t.count,
            w0.len() + enc_groups(gs, PAIR8_FIELDS@).len() <= max_payload_bits(),
            w.written() == w0 + enc_groups(gs.take(i as int), PAIR8_FIELDS@),
        decreases t.count - i,
    {
        let entry = [t.x[i as usize] as u32, t.y[i as usize] as u32];
        proof {
            assert(entry@ =~= gs[i as int]);
            lemma_enc_groups_prefix(gs, PAIR8_FIELDS@, i as int);
        }
        write_fields(w, &entry, &PAIR8_FIELDS);
        i = i + 1;
    }
    assert(gs.take(t.count as int) =~= gs);
}

/// Write a mode-0 payload.
fn encode_mode0(w: &mut BitWriter, m: &SlHdrMode0)
    requires
        old(w).wf(),
        payload_encodable(SlHdrPayload::Mode0(*m)),
        old(w).written().len() + enc_mode0(*m).len() <= max_payload_bits(),
    ensures
        final(w).wf(),
        final(w).written() == old(w).written() + enc_mode0(*m),
{
    proof {
        lemma_layout_widths();
    }
    let vals = [
        m.tone_mapping_input_signal_black_level_offset as u32,
        m.tone_mapping_input_signal_white_level_offset as u32,
        m.shadow_gain_control as u32,
        m.highlight_gain_control as u32,
        m.mid_tone_width_adjustment_factor as u32,
        m.tone_mapping_output_fine_tuning.count as u32,
        m.saturation_gain.count as u32,
    ];
    assert(vals@ =~= seq![
        m.tone_mapping_input_signal_black_level_offset as u32,
        m.tone_mapping_input_signal_white_level_offset as u32,
        m.shadow_gain_control as u32,
        m.highlight_gain_control as u32,
        m.mid_tone_width_adjustment_factor as u32,
        m.tone_mapping_output_fine_tuning.count as u32,
        m.saturation_gain.count as u32,
    ]);
    proof {
        lemma_enc_fields_len(vals@, MODE0_FIELDS@);
    }
    write_fields(w, &vals, &MODE0_FIELDS);
    encode_table15(w, &m.tone_mapping_output_fine_tuning);
    encode_table15(w, &m.saturation_gain);
}

/// Write a mode-1 table.
fn encode_table127(w: &mut BitWriter, uniform: bool, t: &SlHdrTable127)
    requires
        old(w).wf(),
        t.count <= 127,
        old(w).written().len() + enc_table127(uniform, *t).len() <= max_payload_bits(),
    ensures
        final(w).wf(),
        final(w).written() == old(w).written() + enc_table127(uniform, *t),
{
    proof {
        lemma_layout_widths();
    }
    let head = [if uniform {
        1
    } else {
        0
    }, t.count as u32];
    assert(head@ =~= seq![flag_val(uniform), t.count as u32]);
    proof {
        lemma_enc_fields_len(head@, TABLE127_HEAD_FIELDS@);
    }
    write_fields(w, &head, &TABLE127_HEAD_FIELDS);
    let ghost w0 = w.written();
    let ghost gs = table127_groups(uniform, *t);
    let ghost ws = entry_widths(uniform);
    let mut i: u8 = 0;
    assert(gs.take(0) =~= Seq::<Seq<u32>>::empty());
    while i < t.count
        invariant
            w.wf(),
            t.count <= 127,
            gs == table127_groups(uniform, *t),
            ws == entry_widths(uniform),
            widths_ok(ws),
            ws.len() == if uniform {
                1int
            } else {
                2int
            },
            i <= t.count,
            w0.len() + enc_groups(gs, ws).len() <= max_payload_bits(),
            w.written() == w0 + enc_groups(gs.take(i as int), ws),
        decreases t.count - i,
    {
        proof {
            lemma_enc_groups_prefix(gs, ws, i as int);
        }
        if uniform {
            let entry = [t.y[i as usize] as u32];
            assert(entry@ =~= gs[i as int]);
            write_fields(w, &entry, &Y16_FIELDS);
        } else {
            let entry = [t.x[i as usize] as u32, t.y[i as usize] as u32];
            assert(entry@ =~= gs[i as int]);
            write_fields(w, &entry, &XY16_FIELDS);
        }
        i = i + 1;
    }
    assert(gs.take(t.count as int) =~= gs);
}

/// Write a mode-1 payload.
fn encode_mode1(w: &mut BitWriter, m: &SlHdrMode1)
    requires
        old(w).wf(),
        m.luminance_mapping.count <= 127,
        m.colour_correction.count <= 127,
        old(w).written().len() + enc_mode1(*m).len() <= max_payload_bits(),
    ensures
        final(w).wf(),
        final(w).written() == old(w).written() + enc_mode1(*m),
{
    encode_table127(w, m.lm_uniform_sampling_flag, &m.luminance_mapping);
    encode_table127(w, m.cc_uniform_sampling_flag, &m.colour_correction);
}

/// Write an extension.
fn encode_extension(w: &mut BitWriter, ext: &SlHdrExtension)
    requires
        old(w).wf(),
        old(w).written().len() + enc_opt_ext(ext_view(Some(*ext))).len() <= max_payload_bits(),
    ensures
        final(w).wf(),
        final(w).written() == old(w).written() + enc_opt_ext(ext_view(Some(*ext))),
{
    proof {
        lemma_layout_widths();
    }
    let head = [ext.extension_6bits as u32, (ext.data.len() as u16) as u32];
    assert(head@ =~= seq![ext.extension_6bits as u32, (ext.data@.len() as u16) as u32]);
    proof {
        lemma_enc_fields_len(head@, EXT_HEAD_FIELDS@);
    }
    write_fields(w, &head, &EXT_HEAD_FIELDS);
    let ghost w0 = w.written();
    let ghost gs = ext_groups(ext.data@);
    let mut i: usize = 0;
    assert(gs.take(0) =~= Seq::<Seq<u32>>::empty());
    while i < ext.data.len()
        invariant
            w.wf(),
            gs == ext_groups(ext.data@),
            widths_ok(BYTE_FIELDS@),
            i <= ext.data.len(),
            w0.len() + enc_groups(gs, BYTE_FIELDS@).len() <= max_payload_bits(),
            w.written() == w0 + enc_groups(gs.take(i as int), BYTE_FIELDS@),
        decreases ext.data.len() - i,
    {
        let entry = [ext.data[i] as u32];
        proof {
            assert(entry@ =~= gs[i as int]);
            lemma_enc_groups_prefix(gs, BYTE_FIELDS@, i as int);
        }
        write_fields(w, &entry, &BYTE_FIELDS);
        i = i + 1;
    }
    assert(gs.take(ext.data.len() as int) =~= gs);
}

/// Write optional picture info.
fn encode_opt_picture(w: &mut BitWriter, o: &Option<SlHdrPictureInfo>)
    requires
        old(w).wf(),
        old(w).written().len() + enc_opt_picture(*o).len() <= max_payload_bits(),
    ensures
        final(w).wf(),
        final(w).written() == old(w).written() + enc_opt_picture(*o),
{
    proof {
        lemma_layout_widths();
    }
    if let Some(info) = o {
        let v = [info.primaries as u32, info.max_luminance as u32, info.min_luminance as u32];
        assert(v@ =~= picture_vals(*info));
        proof {
            lemma_enc_fields_len(v@, PICTURE_FIELDS@);
        }
        write_fields(w, &v, &PICTURE_FIELDS);
    } else {
        assert(w.written() =~= old(w).written() + enc_opt_picture(*o));
    }
}

/// Write optional mastering display colour volume info.
fn encode_opt_mdcv(w: &mut BitWriter, o: &Option<SlHdrMdcvInfo>)
    requires
        old(w).wf(),
        old(w).written().len() + enc_opt_mdcv(*o).len() <= max_payload_bits(),
    ensures
        final(w).wf(),
        final(w).written() == old(w).written() + enc_opt_mdcv(*o),
{
    proof {
        lemma_layout_widths();
    }
    if let Some(mdcv) = o {
        let v = [
            mdcv.primaries[0][0] as u32,
            mdcv.primaries[0][1] as u32,
            mdcv.primaries[1][0] as u32,
            mdcv.primaries[1][1] as u32,
            mdcv.primaries[2][0] as u32,
            mdcv.primaries[2][1] as u32,
            mdcv.ref_white_x as u32,
            mdcv.ref_white_y as u32,
            mdcv.max_mastering_luminance as u32,
            mdcv.min_mastering_luminance as u32,
        ];
        assert(v@ =~= mdcv_vals(*mdcv));
        proof {
            lemma_enc_fields_len(v@, MDCV_FIELDS@);
        }
        write_fields(w, &v, &MDCV_FIELDS);
    } else {
        assert(w.written() =~= old(w).written() + enc_opt_mdcv(*o));
    }
}

/// Write a payload; an unrecognised mode writes nothing.
fn encode_payload(w: &mut BitWriter, p: &SlHdrPayload)
    requires
        old(w).wf(),
        payload_encodable(*p),
        old(w).written().len() + enc_payload(*p).len() <= max_payload_bits(),
    ensures
        final(w).wf(),
        final(w).written() == old(w).written() + enc_payload(*p),
{
    match p {
        SlHdrPayload::Mode0(m) => encode_mode0(w, m),
        SlHdrPayload::Mode1(m) => encode_mode1(w, m),
        SlHdrPayload::Unknown(_) => {
            // No bits for an unknown mode — encoding is lossy.
            assert(w.written() =~= old(w).written() + enc_payload(*p));
        },
    }
}

/// Write a body.
#[verifier::rlimit(60)]
fn encode_body(w: &mut BitWriter, body: &SlHdrBody)
    requires
        old(w).wf(),
        payload_encodable(body.payload),
        old(w).written().len() + enc_body(body@).len() <= max_payload_bits(),
    ensures
        final(w).wf(),
        final(w).written() == old(w).written() + enc_body(body@),
{
    proof {
        lemma_layout_widths();
    }
    let ghost w0 = w.written();
    let flags = [
        if body.sl_hdr_persistence_flag {
            1
        } else {
            0
        },
        if body.original_picture_info.is_some() {
            1
        } else {
            0
        },
        if body.target_picture_info.is_some() {
            1
        } else {
            0
        },
        if body.src_mdcv_info.is_some() {
            1
        } else {
            0
        },
        if body.extension.is_some() {
            1
        } else {
            0
        },
        body.sl_hdr_payload_mode as u32,
    ];
    assert(flags@ =~= seq![
        flag_val(body@.sl_hdr_persistence_flag),
        flag_val(body@.original_picture_info is Some),
        flag_val(body@.target_picture_info is Some),
        flag_val(body@.src_mdcv_info is Some),
        flag_val(body@.extension is Some),
        body@.sl_hdr_payload_mode as u32,
    ]);
    let c = [
        body.matrix_coefficient_values[0] as u32,
        body.matrix_coefficient_values[1] as u32,
        body.matrix_coefficient_values[2] as u32,
        body.matrix_coefficient_values[3] as u32,
        body.chroma_to_luma_injection[0] as u32,
        body.chroma_to_luma_injection[1] as u32,
        body.k_coefficient_values[0] as u32,
        body.k_coefficient_values[1] as u32,
        body.k_coefficient_values[2] as u32,
    ];
    assert(c@ =~= coeff_vals(body@));
    proof {
        lemma_enc_fields_len(flags@, BODY_FLAG_FIELDS@);
        lemma_enc_fields_len(c@, COEFF_FIELDS@);
    }
    write_fields(w, &flags, &BODY_FLAG_FIELDS);
    encode_opt_picture(w, &body.original_picture_info);
    encode_opt_picture(w, &body.target_picture_info);
    encode_opt_mdcv(w, &body.src_mdcv_info);
    write_fields(w, &c, &COEFF_FIELDS);
    encode_payload(w, &body.payload);
    // GamutMappingEnabledFlag is always treated as false; no gamut block written.
    if let Some(ext) = &body.extension {
        encode_extension(w, ext);
    }
    assert(w.written() =~= w0 + enc_body(body@));
}

impl SlHdrMetadata {
    /// Serialize this metadata with a [`BitWriter`].
    ///
    /// Returns `(buf, len)` — the populated prefix of `buf`; the last byte is
    /// zero-padded.
    pub fn encode(&self) -> (r: ([u8; MAX_DYNAMIC_HDR_PAYLOAD], usize))
        requires
            slhdr_encodable(self@),
        ensures
            r.1 == (enc_slhdr(self@).len() + 7) / 8,
            bits_of_bytes(r.0@) == enc_slhdr(self@) + zero_bits(
                max_payload_bits() - enc_slhdr(self@).len(),
            ),
    {
        proof {
            lemma_layout_widths();
            lemma_enc_fields_len(head_vals(self@), HEAD_FIELDS@);
        }
        let mut w = BitWriter::new();
        let head = [
            self.itu_t_t35_country_code as u32,
            self.terminal_provider_code as u32,
            self.terminal_provider_oriented_code_message_idc as u32,
            self.sl_hdr_mode_value_minus1 as u32,
            self.sl_hdr_spec_major_version_idc as u32,
            self.sl_hdr_spec_minor_version_idc as u32,
            if self.sl_hdr_cancel_flag {
                1
            } else {
                0
            },
        ];
        assert(head@ =~= head_vals(self@));
        write_fields(&mut w, &head, &HEAD_FIELDS);
        if let Some(body) = &self.body {
            encode_body(&mut w, body);
        }
        assert(w.written() =~= enc_slhdr(self@));
        w.finish()
    }
}

} // verus!

verus! {

// ---------------------------------------------------------------------------
// Laws
// ---------------------------------------------------------------------------

/// A 15-entry table that survives a round trip: at most 15 entries, unused
/// slots zero.
pub open spec fn table15_wf(t: SlHdrTable15) -> bool {
    &&& t.count <= 15
    &&& forall|k: int| t.count <= k < 15 ==> #[trigger] t.x[k] == 0 && t.y[k] == 0
}

/// A 127-entry table that survives a round trip: at most 127 entries, unused
/// slots zero, and x values zero under uniform sampling.
pub open spec fn table127_wf(uniform: bool, t: SlHdrTable127) -> bool {
    &&& t.count <= 127
    &&& forall|k: int|
        0 <= k < 127 ==> if k < t.count {
            uniform ==> #[trigger] t.x[k] == 0
        } else {
            t.x[k] == 0 && t.y[k] == 0
        }
}

/// A payload that matches its mode and survives a round trip; an unrecognised
/// mode carries its own value.
pub open spec fn payload_wf(mode: u8, p: SlHdrPayload) -> bool {
    match p {
        SlHdrPayload::Mode0(m) => mode == 0 && table15_wf(m.tone_mapping_output_fine_tuning)
            && table15_wf(m.saturation_gain),
        SlHdrPayload::Mode1(m) => mode == 1 && table127_wf(
            m.lm_uniform_sampling_flag,
            m.luminance_mapping,
        ) && table127_wf(m.cc_uniform_sampling_flag, m.colour_correction),
        SlHdrPayload::Unknown(x) => x == mode && mode > 1,
    }
}

/// A body that survives a round trip: its mode fits 3 bits and matches its
/// payload, and its extension's field and length fit their widths.
pub open spec fn body_wf(b: SlHdrBodyView) -> bool {
    &&& b.sl_hdr_payload_mode < 8
    &&& payload_wf(b.sl_hdr_payload_mode, b.payload)
    &&& b.extension matches Some((e6, data)) ==> e6 < 64 && data.len() < 1024
}

/// SL-HDR metadata that survives a round trip: header fields fit their
/// widths, a body present exactly when not cancelled, and that body
/// well-formed.
pub open spec fn slhdr_wf(m: SlHdrMetadataView) -> bool {
    &&& m.sl_hdr_mode_value_minus1 < 16
    &&& m.sl_hdr_spec_major_version_idc < 16
    &&& m.sl_hdr_spec_minor_version_idc < 128
    &&& m.sl_hdr_cancel_flag == m.body is None
    &&& m.body matches Some(b) ==> body_wf(b)
}

/// The warning reading a well-formed encoded body records: only for an
/// unrecognised payload mode.
pub open spec fn body_mode_warnings(b: SlHdrBodyView) -> Seq<DynamicHdrWarning> {
    if b.sl_hdr_payload_mode > 1 {
        seq![
            DynamicHdrWarning::UnknownEnumValue {
                field: "sl_hdr_payload_mode",
                raw: b.sl_hdr_payload_mode,
            },
        ]
    } else {
        Seq::empty()
    }
}

/// The warnings decoding well-formed encoded metadata records: only an
/// unrecognised payload mode.
pub open spec fn slhdr_mode_warnings(m: SlHdrMetadataView) -> Seq<DynamicHdrWarning> {
    match m.body {
        Some(b) => body_mode_warnings(b),
        None => Seq::empty(),
    }
}

proof fn lemma_opt_picture_round_trip(bits: Seq<bool>, p: int, o: Option<SlHdrPictureInfo>)
    requires
        holds_at(bits, p, enc_opt_picture(o)),
    ensures
        parse_opt_picture(bits, p, o is Some) == Some((o, p + enc_opt_picture(o).len())),
{
    lemma2_to64();
    lemma_layout_widths();
    if let Some(info) = o {
        assert(fields_fit(picture_vals(info), PICTURE_FIELDS@));
        lemma_fields_round_trip(bits, p, picture_vals(info), PICTURE_FIELDS@);
    }
}

proof fn lemma_opt_mdcv_round_trip(bits: Seq<bool>, p: int, o: Option<SlHdrMdcvInfo>)
    requires
        holds_at(bits, p, enc_opt_mdcv(o)),
    ensures
        parse_opt_mdcv(bits, p, o is Some) == Some((o, p + enc_opt_mdcv(o).len())),
{
    lemma2_to64();
    lemma_layout_widths();
    if let Some(m) = o {
        let v = mdcv_vals(m);
        assert(fields_fit(v, MDCV_FIELDS@));
        lemma_fields_round_trip(bits, p, v, MDCV_FIELDS@);
        lemma_array_of(m.primaries[0]);
        lemma_array_of(m.primaries[1]);
        lemma_array_of(m.primaries[2]);
        assert(m.primaries[0]@ =~= seq![v[0] as u16, v[1] as u16]);
        assert(m.primaries[1]@ =~= seq![v[2] as u16, v[3] as u16]);
        assert(m.primaries[2]@ =~= seq![v[4] as u16, v[5] as u16]);
        lemma_array_of(m.primaries);
        assert(m.primaries@ =~= seq![
            array_of(seq![v[0] as u16, v[1] as u16]),
            array_of(seq![v[2] as u16, v[3] as u16]),
            array_of(seq![v[4] as u16, v[5] as u16]),
        ]);
        assert(mdcv_of(v) == m);
    }
}

proof fn lemma_table15_round_trip(bits: Seq<bool>, p: int, t: SlHdrTable15)
    requires
        table15_wf(t),
        holds_at(bits, p, enc_groups(table15_groups(t), PAIR8_FIELDS@)),
    ensures
        parse_groups(bits, p, t.count as nat, PAIR8_FIELDS@) == Some(
            (table15_groups(t), p + enc_groups(table15_groups(t), PAIR8_FIELDS@).len()),
        ),
        table15_of(t.count, table15_groups(t)) == t,
{
    lemma2_to64();
    lemma_layout_widths();
    let gs = table15_groups(t);
    assert(groups_fit(gs, PAIR8_FIELDS@));
    lemma_groups_round_trip(bits, p, gs, PAIR8_FIELDS@);
    lemma_array_of(t.x);
    lemma_array_of(t.y);
    assert forall|k: int| 0 <= k < 15 implies #[trigger] t.x@[k] == pad(
        Seq::new(gs.len(), |i: int| gs[i][0] as u8),
        15,
        0u8,
    )[k] && t.y@[k] == pad(Seq::new(gs.len(), |i: int| gs[i][1] as u8), 15, 0u8)[k] by {
        if k >= t.count {
            assert(t.x[k] == 0 && t.y[k] == 0);
        }
    }
    assert(t.x@ =~= pad(Seq::new(gs.len(), |i: int| gs[i][0] as u8), 15, 0u8));
    assert forall|k: int| 0 <= k < 15 implies #[trigger] t.y@[k] == pad(
        Seq::new(gs.len(), |i: int| gs[i][1] as u8),
        15,
        0u8,
    )[k] by {
        assert(t.x@[k] == pad(Seq::new(gs.len(), |i: int| gs[i][0] as u8), 15, 0u8)[k]);
    }
    assert(t.y@ =~= pad(Seq::new(gs.len(), |i: int| gs[i][1] as u8), 15, 0u8));
}

proof fn lemma_mode0_round_trip(bits: Seq<bool>, p: int, m: SlHdrMode0)
    requires
        table15_wf(m.tone_mapping_output_fine_tuning),
        table15_wf(m.saturation_gain),
        holds_at(bits, p, enc_mode0(m)),
    ensures
        parse_mode0(bits, p) == Some((m, p + enc_mode0(m).len())),
{
    lemma2_to64();
    lemma_layout_widths();
    let v = seq![
        m.tone_mapping_input_signal_black_level_offset as u32,
        m.tone_mapping_input_signal_white_level_offset as u32,
        m.shadow_gain_control as u32,
        m.highlight_gain_control as u32,
        m.mid_tone_width_adjustment_factor as u32,
        m.tone_mapping_output_fine_tuning.count as u32,
        m.saturation_gain.count as u32,
    ];
    let a = enc_fields(v, MODE0_FIELDS@);
    let b = enc_groups(table15_groups(m.tone_mapping_output_fine_tuning), PAIR8_FIELDS@);
    let c = enc_groups(table15_groups(m.saturation_gain), PAIR8_FIELDS@);
    lemma_holds_at_split(bits, p, a + b, c);
    lemma_holds_at_split(bits, p, a, b);
    assert(fields_fit(v, MODE0_FIELDS@));
    lemma_fields_round_trip(bits, p, v, MODE0_FIELDS@);
    lemma_table15_round_trip(bits, p + 48, m.tone_mapping_output_fine_tuning);
    lemma_table15_round_trip(bits, p + 48 + b.len(), m.saturation_gain);
}

proof fn lemma_table127_round_trip(bits: Seq<bool>, p: int, uniform: bool, t: SlHdrTable127)
    requires
        table127_wf(uniform, t),
        holds_at(bits, p, enc_table127(uniform, t)),
    ensures
        parse_table127(bits, p) == Some(((uniform, t), p + enc_table127(uniform, t).len())),
{
    lemma2_to64();
    lemma_layout_widths();
    let h = seq![flag_val(uniform), t.count as u32];
    let gs = table127_groups(uniform, t);
    let ws = entry_widths(uniform);
    lemma_holds_at_split(bits, p, enc_fields(h, TABLE127_HEAD_FIELDS@), enc_groups(gs, ws));
    assert(fields_fit(h, TABLE127_HEAD_FIELDS@));
    lemma_fields_round_trip(bits, p, h, TABLE127_HEAD_FIELDS@);
    assert(groups_fit(gs, ws));
    lemma_groups_round_trip(bits, p + 8, gs, ws);
    lemma_array_of(t.x);
    lemma_array_of(t.y);
    let xs = Seq::new(
        gs.len(),
        |i: int|
            if uniform {
                0u16
            } else {
                gs[i][0] as u16
            },
    );
    let ys = Seq::new(
        gs.len(),
        |i: int|
            if uniform {
                gs[i][0] as u16
            } else {
                gs[i][1] as u16
            },
    );
    assert forall|k: int| 0 <= k < 127 implies #[trigger] t.x@[k] == pad(xs, 127, 0u16)[k]
        && t.y@[k] == pad(ys, 127, 0u16)[k] by {
        if k < t.count {
            if uniform {
                assert(t.x[k] == 0);
            }
        } else {
            assert(t.x[k] == 0 && t.y[k] == 0);
        }
    }
    assert(t.x@ =~= pad(xs, 127, 0u16));
    assert forall|k: int| 0 <= k < 127 implies #[trigger] t.y@[k] == pad(ys, 127, 0u16)[k] by {
        assert(t.x@[k] == pad(xs, 127, 0u16)[k]);
    }
    assert(t.y@ =~= pad(ys, 127, 0u16));
}

proof fn lemma_payload_round_trip(bits: Seq<bool>, p: int, mode: u8, pl: SlHdrPayload)
    requires
        payload_wf(mode, pl),
        holds_at(bits, p, enc_payload(pl)),
    ensures
        parse_payload(bits, p, mode) == Some((pl, p + enc_payload(pl).len())),
{
    match pl {
        SlHdrPayload::Mode0(m) => {
            lemma_mode0_round_trip(bits, p, m);
        },
        SlHdrPayload::Mode1(m) => {
            let a = enc_table127(m.lm_uniform_sampling_flag, m.luminance_mapping);
            let b = enc_table127(m.cc_uniform_sampling_flag, m.colour_correction);
            lemma_holds_at_split(bits, p, a, b);
            lemma_table127_round_trip(
                bits,
                p,
                m.lm_uniform_sampling_flag,
                m.luminance_mapping,
            );
            lemma_table127_round_trip(
                bits,
                p + a.len(),
                m.cc_uniform_sampling_flag,
                m.colour_correction,
            );
        },
        SlHdrPayload::Unknown(_) => {},
    }
}

proof fn lemma_opt_ext_round_trip(bits: Seq<bool>, p: int, e: Option<(u8, Seq<u8>)>)
    requires
        e matches Some((e6, data)) ==> e6 < 64 && data.len() < 1024,
        holds_at(bits, p, enc_opt_ext(e)),
    ensures
        parse_opt_ext(bits, p, e is Some) == Some((e, p + enc_opt_ext(e).len())),
{
    lemma2_to64();
    lemma_layout_widths();
    if let Some((e6, data)) = e {
        let h = seq![e6 as u32, (data.len() as u16) as u32];
        let gs = ext_groups(data);
        lemma_holds_at_split(bits, p, enc_fields(h, EXT_HEAD_FIELDS@), enc_groups(gs, BYTE_FIELDS@));
        assert(fields_fit(h, EXT_HEAD_FIELDS@));
        lemma_fields_round_trip(bits, p, h, EXT_HEAD_FIELDS@);
        assert(groups_fit(gs, BYTE_FIELDS@));
        lemma_groups_round_trip(bits, p + 16, gs, BYTE_FIELDS@);
        assert(Seq::new(gs.len(), |i: int| gs[i][0] as u8) =~= data);
    }
}

/// The body fields before the payload are read back from their bits.
proof fn lemma_body_start_round_trip(bits: Seq<bool>, p: int, b: SlHdrBodyView)
    requires
        body_wf(b),
        holds_at(
            bits,
            p,
            enc_fields(
                seq![
                    flag_val(b.sl_hdr_persistence_flag),
                    flag_val(b.original_picture_info is Some),
                    flag_val(b.target_picture_info is Some),
                    flag_val(b.src_mdcv_info is Some),
                    flag_val(b.extension is Some),
                    b.sl_hdr_payload_mode as u32,
                ],
                BODY_FLAG_FIELDS@,
            ) + enc_opt_picture(b.original_picture_info) + enc_opt_picture(b.target_picture_info)
                + enc_opt_mdcv(b.src_mdcv_info) + enc_fields(coeff_vals(b), COEFF_FIELDS@),
        ),
    ensures
        parse_body_start(bits, p) matches Some((s, q)) && s.0 == seq![
            flag_val(b.sl_hdr_persistence_flag),
            flag_val(b.original_picture_info is Some),
            flag_val(b.target_picture_info is Some),
            flag_val(b.src_mdcv_info is Some),
            flag_val(b.extension is Some),
            b.sl_hdr_payload_mode as u32,
        ] && s.1 == b.original_picture_info && s.2 == b.target_picture_info && s.3
            == b.src_mdcv_info && s.4 == coeff_vals(b) && q == p + (enc_fields(
            s.0,
            BODY_FLAG_FIELDS@,
        ) + enc_opt_picture(b.original_picture_info) + enc_opt_picture(b.target_picture_info)
            + enc_opt_mdcv(b.src_mdcv_info) + enc_fields(coeff_vals(b), COEFF_FIELDS@)).len(),
{
    lemma2_to64();
    lemma_layout_widths();
    let f = seq![
        flag_val(b.sl_hdr_persistence_flag),
        flag_val(b.original_picture_info is Some),
        flag_val(b.target_picture_info is Some),
        flag_val(b.src_mdcv_info is Some),
        flag_val(b.extension is Some),
        b.sl_hdr_payload_mode as u32,
    ];
    let e1 = enc_fields(f, BODY_FLAG_FIELDS@);
    let e2 = enc_opt_picture(b.original_picture_info);
    let e3 = enc_opt_picture(b.target_picture_info);
    let e4 = enc_opt_mdcv(b.src_mdcv_info);
    let e5 = enc_fields(coeff_vals(b), COEFF_FIELDS@);
    lemma_holds_at_split(bits, p, e1 + e2 + e3 + e4, e5);
    lemma_holds_at_split(bits, p, e1 + e2 + e3, e4);
    lemma_holds_at_split(bits, p, e1 + e2, e3);
    lemma_holds_at_split(bits, p, e1, e2);
    assert(fields_fit(f, BODY_FLAG_FIELDS@));
    lemma_fields_round_trip(bits, p, f, BODY_FLAG_FIELDS@);
    lemma_opt_picture_round_trip(bits, p + 8, b.original_picture_info);
    lemma_opt_picture_round_trip(bits, p + 8 + e2.len(), b.target_picture_info);
    lemma_opt_mdcv_round_trip(bits, p + 8 + e2.len() + e3.len(), b.src_mdcv_info);
    assert(fields_fit(coeff_vals(b), COEFF_FIELDS@));
    lemma_fields_round_trip(bits, p + (e1 + e2 + e3 + e4).len(), coeff_vals(b), COEFF_FIELDS@);
}

/// A body is read back from its bits, with only the payload-mode warning.
#[verifier::rlimit(40)]
proof fn lemma_body_round_trip(bits: Seq<bool>, p: int, b: SlHdrBodyView)
    requires
        body_wf(b),
        holds_at(bits, p, enc_body(b)),
    ensures
        parse_body(bits, p) == Some(b),
        body_warnings(bits, p) == body_mode_warnings(b),
{
    let f = seq![
        flag_val(b.sl_hdr_persistence_flag),
        flag_val(b.original_picture_info is Some),
        flag_val(b.target_picture_info is Some),
        flag_val(b.src_mdcv_info is Some),
        flag_val(b.extension is Some),
        b.sl_hdr_payload_mode as u32,
    ];
    let start = enc_fields(f, BODY_FLAG_FIELDS@) + enc_opt_picture(b.original_picture_info)
        + enc_opt_picture(b.target_picture_info) + enc_opt_mdcv(b.src_mdcv_info) + enc_fields(
        coeff_vals(b),
        COEFF_FIELDS@,
    );
    let e6 = enc_payload(b.payload);
    let e7 = enc_opt_ext(b.extension);
    assert(enc_body(b) =~= start + e6 + e7);
    lemma_holds_at_split(bits, p, start + e6, e7);
    lemma_holds_at_split(bits, p, start, e6);
    lemma_body_start_round_trip(bits, p, b);
    lemma_payload_round_trip(bits, p + start.len(), b.sl_hdr_payload_mode, b.payload);
    lemma_opt_ext_round_trip(bits, p + start.len() + e6.len(), b.extension);
    lemma_array_of(b.matrix_coefficient_values);
    lemma_array_of(b.chroma_to_luma_injection);
    lemma_array_of(b.k_coefficient_values);
    let c = coeff_vals(b);
    assert(b.matrix_coefficient_values@ =~= seq![
        c[0] as u16,
        c[1] as u16,
        c[2] as u16,
        c[3] as u16,
    ]);
    assert(b.chroma_to_luma_injection@ =~= seq![c[4] as u16, c[5] as u16]);
    assert(b.k_coefficient_values@ =~= seq![c[6] as u8, c[7] as u8, c[8] as u8]);
}

/// The encoding holds at least the header fields.
pub proof fn lemma_enc_slhdr_nonempty(m: SlHdrMetadataView)
    ensures
        enc_slhdr(m).len() >= 48,
{
    lemma_layout_widths();
    lemma_enc_fields_len(head_vals(m), HEAD_FIELDS@);
}

/// The number of extension data bytes a body carries.
pub open spec fn ext_len(m: SlHdrMetadataView) -> int {
    match m.body {
        Some(b) => match b.extension {
            Some((_, data)) => data.len() as int,
            None => 0,
        },
        None => 0,
    }
}

proof fn lemma_enc_table127_len(uniform: bool, t: SlHdrTable127)
    requires
        t.count <= 127,
    ensures
        enc_table127(uniform, t).len() <= 4072,
{
    lemma_layout_widths();
    lemma_enc_fields_len(seq![flag_val(uniform), t.count as u32], TABLE127_HEAD_FIELDS@);
    let gs = table127_groups(uniform, t);
    let ws = entry_widths(uniform);
    lemma_enc_groups_len(gs, ws);
    let c = t.count as int;
    let w = width_sum(ws) as int;
    assert(w <= 32);
    assert(c * w <= 127 * 32) by (nonlinear_arith)
        requires
            0 <= c <= 127,
            0 <= w <= 32,
    ;
}

proof fn lemma_enc_table15_len(t: SlHdrTable15)
    requires
        t.count <= 15,
    ensures
        enc_groups(table15_groups(t), PAIR8_FIELDS@).len() <= 240,
{
    lemma_layout_widths();
    lemma_enc_groups_len(table15_groups(t), PAIR8_FIELDS@);
}

proof fn lemma_enc_payload_len(p: SlHdrPayload)
    requires
        payload_encodable(p),
    ensures
        enc_payload(p).len() <= 8144,
{
    lemma_layout_widths();
    match p {
        SlHdrPayload::Mode0(m) => {
            lemma_enc_fields_len(
                seq![
                    m.tone_mapping_input_signal_black_level_offset as u32,
                    m.tone_mapping_input_signal_white_level_offset as u32,
                    m.shadow_gain_control as u32,
                    m.highlight_gain_control as u32,
                    m.mid_tone_width_adjustment_factor as u32,
                    m.tone_mapping_output_fine_tuning.count as u32,
                    m.saturation_gain.count as u32,
                ],
                MODE0_FIELDS@,
            );
            lemma_enc_table15_len(m.tone_mapping_output_fine_tuning);
            lemma_enc_table15_len(m.saturation_gain);
        },
        SlHdrPayload::Mode1(m) => {
            lemma_enc_table127_len(m.lm_uniform_sampling_flag, m.luminance_mapping);
            lemma_enc_table127_len(m.cc_uniform_sampling_flag, m.colour_correction);
        },
        SlHdrPayload::Unknown(_) => {},
    }
}

/// The length of encoded SL-HDR metadata whose tables fit their slots: at
/// most 8576 bits besides 8 per extension data byte.
pub proof fn lemma_enc_slhdr_len(m: SlHdrMetadataView)
    requires
        m.body matches Some(b) ==> payload_encodable(b.payload),
    ensures
        enc_slhdr(m).len() <= 8576 + 8 * ext_len(m),
{
    lemma_layout_widths();
    lemma_enc_fields_len(head_vals(m), HEAD_FIELDS@);
    if let Some(b) = m.body {
        lemma_enc_fields_len(
            seq![
                flag_val(b.sl_hdr_persistence_flag),
                flag_val(b.original_picture_info is Some),
                flag_val(b.target_picture_info is Some),
                flag_val(b.src_mdcv_info is Some),
                flag_val(b.extension is Some),
                b.sl_hdr_payload_mode as u32,
            ],
            BODY_FLAG_FIELDS@,
        );
        if let Some(pi) = b.original_picture_info {
            lemma_enc_fields_len(picture_vals(pi), PICTURE_FIELDS@);
        }
        if let Some(pi) = b.target_picture_info {
            lemma_enc_fields_len(picture_vals(pi), PICTURE_FIELDS@);
        }
        if let Some(md) = b.src_mdcv_info {
            lemma_enc_fields_len(mdcv_vals(md), MDCV_FIELDS@);
        }
        lemma_enc_fields_len(coeff_vals(b), COEFF_FIELDS@);
        lemma_enc_payload_len(b.payload);
        if let Some((e6, data)) = b.extension {
            lemma_enc_fields_len(seq![e6 as u32, (data.len() as u16) as u32], EXT_HEAD_FIELDS@);
            lemma_enc_groups_len(ext_groups(data), BYTE_FIELDS@);
        }
    }
}

/// Metadata whose tables fit their slots and whose extension holds at most
/// 1128 data bytes fits the payload buffer, so the encoder can write it.
pub proof fn lemma_slhdr_encodable(m: SlHdrMetadataView)
    requires
        m.body matches Some(b) ==> payload_encodable(b.payload),
        ext_len(m) <= 1128,
    ensures
        slhdr_encodable(m),
{
    lemma_enc_slhdr_len(m);
}

/// Well-formed SL-HDR metadata can be encoded.
pub proof fn lemma_slhdr_wf_encodable(m: SlHdrMetadataView)
    requires
        slhdr_wf(m),
    ensures
        slhdr_encodable(m),
{
    lemma_slhdr_encodable(m);
}

/// Round trip: well-formed SL-HDR metadata, encoded and read back (whatever
/// bits follow the encoding), is the same metadata; the only warning recorded
/// is for an unrecognised payload mode.
pub proof fn lemma_slhdr_round_trip(m: SlHdrMetadataView, tail: Seq<bool>)
    requires
        slhdr_wf(m),
    ensures
        slhdr_of_bits(enc_slhdr(m) + tail) == Some(m),
        slhdr_warnings(enc_slhdr(m) + tail) == slhdr_mode_warnings(m),
{
    lemma2_to64();
    lemma_layout_widths();
    let h = enc_fields(head_vals(m), HEAD_FIELDS@);
    let rest = match m.body {
        Some(b) => enc_body(b),
        None => Seq::<bool>::empty(),
    };
    let bits = enc_slhdr(m) + tail;
    lemma_holds_at_prefix(enc_slhdr(m), tail);
    lemma_holds_at_split(bits, 0, h, rest);
    assert(fields_fit(head_vals(m), HEAD_FIELDS@));
    lemma_fields_round_trip(bits, 0, head_vals(m), HEAD_FIELDS@);
    if let Some(b) = m.body {
        lemma_body_round_trip(bits, 48, b);
    }
}

/// A decoded 15-entry table is well formed.
proof fn lemma_table15_of_wf(count: u8, gs: Seq<Seq<u32>>)
    requires
        count <= 15,
        gs.len() == count,
    ensures
        table15_wf(table15_of(count, gs)),
{
    lemma_array_of_view::<u8, 15>(pad(Seq::new(gs.len(), |i: int| gs[i][0] as u8), 15, 0u8));
    lemma_array_of_view::<u8, 15>(pad(Seq::new(gs.len(), |i: int| gs[i][1] as u8), 15, 0u8));
}

/// A decoded 127-entry table is well formed.
proof fn lemma_table127_of_wf(count: u8, gs: Seq<Seq<u32>>, uniform: bool)
    requires
        count <= 127,
        gs.len() == count,
    ensures
        table127_wf(uniform, table127_of(count, gs, uniform)),
{
    let xs = pad(
        Seq::new(gs.len(), |i: int| if uniform { 0u16 } else { gs[i][0] as u16 }),
        127,
        0u16,
    );
    let ys = pad(
        Seq::new(gs.len(), |i: int| if uniform { gs[i][0] as u16 } else { gs[i][1] as u16 }),
        127,
        0u16,
    );
    lemma_array_of_view::<u16, 127>(xs);
    lemma_array_of_view::<u16, 127>(ys);
}

/// A decoded mode-1 table is well formed under its own sampling flag.
proof fn lemma_parse_table127_wf(bits: Seq<bool>, p: int)
    requires
        parse_table127(bits, p) is Some,
    ensures
        table127_wf(parse_table127(bits, p).unwrap().0.0, parse_table127(bits, p).unwrap().0.1),
{
    lemma_layout_widths();
    lemma2_to64();
    let (h, p1) = parse_fields(bits, p, TABLE127_HEAD_FIELDS@).unwrap();
    lemma_parse_fields_fit(bits, p, TABLE127_HEAD_FIELDS@);
    assert(h[1] < pow2(TABLE127_HEAD_FIELDS@[1] as nat));
    let uniform = h[0] == 1;
    lemma_parse_groups_shape(bits, p1, h[1] as nat, entry_widths(uniform));
    let gs = parse_groups(bits, p1, h[1] as nat, entry_widths(uniform)).unwrap().0;
    lemma_table127_of_wf(h[1] as u8, gs, uniform);
}

/// A decoded payload matches its mode and is well formed.
proof fn lemma_parse_payload_wf(bits: Seq<bool>, p: int, mode: u8)
    requires
        parse_payload(bits, p, mode) is Some,
    ensures
        payload_wf(mode, parse_payload(bits, p, mode).unwrap().0),
{
    lemma_layout_widths();
    lemma2_to64();
    if mode == 0 {
        let (v, p1) = parse_fields(bits, p, MODE0_FIELDS@).unwrap();
        lemma_parse_fields_fit(bits, p, MODE0_FIELDS@);
        assert(v[5] < pow2(MODE0_FIELDS@[5] as nat));
        assert(v[6] < pow2(MODE0_FIELDS@[6] as nat));
        lemma_parse_groups_shape(bits, p1, v[5] as nat, PAIR8_FIELDS@);
        let (g1, p2) = parse_groups(bits, p1, v[5] as nat, PAIR8_FIELDS@).unwrap();
        lemma_parse_groups_shape(bits, p2, v[6] as nat, PAIR8_FIELDS@);
        let g2 = parse_groups(bits, p2, v[6] as nat, PAIR8_FIELDS@).unwrap().0;
        lemma_table15_of_wf(v[5] as u8, g1);
        lemma_table15_of_wf(v[6] as u8, g2);
    } else if mode == 1 {
        lemma_parse_table127_wf(bits, p);
        let p1 = parse_table127(bits, p).unwrap().1;
        lemma_parse_table127_wf(bits, p1);
    }
}

/// A decoded body is well formed.
proof fn lemma_parse_body_wf(bits: Seq<bool>, p: int)
    requires
        parse_body(bits, p) is Some,
    ensures
        body_wf(parse_body(bits, p).unwrap()),
{
    lemma_layout_widths();
    lemma2_to64();
    let (st, p5) = parse_body_start(bits, p).unwrap();
    let (f, p1) = parse_fields(bits, p, BODY_FLAG_FIELDS@).unwrap();
    lemma_parse_fields_fit(bits, p, BODY_FLAG_FIELDS@);
    assert(f[5] < pow2(BODY_FLAG_FIELDS@[5] as nat));
    assert(st.0 == f);
    let mode = f[5] as u8;
    lemma_parse_payload_wf(bits, p5, mode);
    let p6 = parse_payload(bits, p5, mode).unwrap().1;
    if f[4] == 1 {
        let (e, q1) = parse_fields(bits, p6, EXT_HEAD_FIELDS@).unwrap();
        lemma_parse_fields_fit(bits, p6, EXT_HEAD_FIELDS@);
        assert(e[0] < pow2(EXT_HEAD_FIELDS@[0] as nat));
        assert(e[1] < pow2(EXT_HEAD_FIELDS@[1] as nat));
        lemma_parse_groups_shape(bits, q1, e[1] as nat, BYTE_FIELDS@);
    }
}

/// Decoded SL-HDR metadata is well formed: header fields within their
/// widths, a body exactly when not cancelled, a payload that matches its
/// mode (mode 0, mode 1, or an unknown mode carried as is), tables with no
/// entries past their count and zero x values under uniform sampling, and an
/// extension within its widths. Decoding records at most one warning, and
/// only for an unknown payload mode.
pub proof fn lemma_slhdr_decoded_wf(bits: Seq<bool>)
    requires
        slhdr_of_bits(bits) is Some,
    ensures
        slhdr_wf(slhdr_of_bits(bits).unwrap()),
        slhdr_warnings(bits).len() <= 1,
        slhdr_warnings(bits).len() == 1 ==> (slhdr_of_bits(bits).unwrap().body matches Some(b)
            && b.payload is Unknown),
{
    lemma_layout_widths();
    lemma2_to64();
    let (h, p1) = parse_fields(bits, 0, HEAD_FIELDS@).unwrap();
    lemma_parse_fields_fit(bits, 0, HEAD_FIELDS@);
    assert(h[3] < pow2(HEAD_FIELDS@[3] as nat));
    assert(h[4] < pow2(HEAD_FIELDS@[4] as nat));
    assert(h[5] < pow2(HEAD_FIELDS@[5] as nat));
    if h[6] != 1 {
        lemma_parse_body_wf(bits, p1);
    }
}

/// Encode then decode: the buffer [`SlHdrMetadata::encode`] returns for well-formed metadata,
/// cut at the returned length, decodes back to the same metadata, with a warning only for an unrecognised payload mode.
pub proof fn lemma_slhdr_encode_decode(m: SlHdrMetadataView, buf: Seq<u8>, len: int)
    requires
        slhdr_wf(m),
        buf.len() == MAX_DYNAMIC_HDR_PAYLOAD,
        bits_of_bytes(buf) == enc_slhdr(m) + zero_bits(max_payload_bits() - enc_slhdr(m).len()),
        len == (enc_slhdr(m).len() + 7) / 8,
    ensures
        0 <= len <= MAX_DYNAMIC_HDR_PAYLOAD,
        slhdr_of_bits(bits_of_bytes(buf.take(len))) == Some(m),
        slhdr_warnings(bits_of_bytes(buf.take(len))) == slhdr_mode_warnings(m),
{
    lemma_slhdr_wf_encodable(m);
    let e = enc_slhdr(m);
    let n = e.len() as int;
    assert(n <= max_payload_bits());
    lemma_bits_of_bytes_take(buf, len);
    let bits = bits_of_bytes(buf.take(len));
    assert(bits =~= e + zero_bits(len * 8 - n));
    lemma_slhdr_round_trip(m, zero_bits(len * 8 - n));
}

} // verus!
