use vstd::prelude::*;

use crate::bytes::{bit_set, le16, lemma_low_bits_bound, read_le16, warn_if};
use crate::checksum::{
    assemble_packet, checksum_for, checksum_valid, covered_bytes, expected_checksum,
    lemma_wire_packet_valid, packet_sum, wire_packet,
};
use crate::decoded::Decoded;
use crate::encode::{packets_view, IntoPackets, SinglePacketIter};
use crate::error::DecodeError;
use crate::hdr_static::le_bytes;
use crate::vocab::ColorFormat;
use crate::warn::AviWarning;

verus! {

/// Bar data presence flags (B field, PB1 bits 3–2).
///
/// Indicates which bar data fields in PB6–PB13 carry valid measurements.
#[derive(Debug, Clone, Copy, PartialEq, Eq, Structural)]
#[non_exhaustive]
pub enum BarInfo {
    /// No bar data present (B = 0b00).
    NotPresent,
    /// Left and right bar pixel numbers are valid (B = 0b01).
    VerticalBarsPresent,
    /// Top and bottom bar line numbers are valid (B = 0b10).
    HorizontalBarsPresent,
    /// All four bar measurements are valid (B = 0b11).
    BothPresent,
}

/// Scan information (S field, PB1 bits 1–0).
#[derive(Debug, Clone, Copy, PartialEq, Eq, Structural)]
#[non_exhaustive]
pub enum ScanInfo {
    /// No scan information available (S = 0).
    NoData,
    /// Content is composed for a display that overscans (S = 1).
    Overscanned,
    /// Content is composed for a display that underscans (S = 2).
    Underscanned,
}

/// Primary colorimetry (C field, PB2 bits 7–6).
#[derive(Debug, Clone, Copy, PartialEq, Eq, Structural)]
#[non_exhaustive]
pub enum Colorimetry {
    /// No colorimetry data (C = 0b00).
    NoData,
    /// SMPTE 170M / ITU-R BT.601 (C = 0b01).
    Bt601,
    /// ITU-R BT.709 (C = 0b10).
    Bt709,
    /// Extended colorimetry — refer to the EC field (C = 0b11).
    Extended,
}

/// Extended colorimetry (EC field, PB3 bits 6–4).
#[derive(Debug, Clone, Copy, PartialEq, Eq, Structural)]
#[non_exhaustive]
pub enum ExtendedColorimetry {
    /// xvYCC 601 (EC = 0).
    XvYCC601,
    /// xvYCC 709 (EC = 1).
    XvYCC709,
    /// sYCC 601 (EC = 2).
    SyCC601,
    /// opYCC 601 (EC = 3).
    OpYCC601,
    /// opRGB (EC = 4).
    OpRgb,
    /// BT.2020 constant luminance YCbCr (EC = 5).
    Bt2020cYCC,
    /// BT.2020 non-constant luminance YCbCr (EC = 6).
    Bt2020YCC,
    /// Additional Colorimetry Extension present (EC = 7).
    AdditionalColorimetryExtension,
}

/// Picture aspect ratio (M field, PB2 bits 5–4).
#[derive(Debug, Clone, Copy, PartialEq, Eq, Structural)]
#[non_exhaustive]
pub enum PictureAspectRatio {
    /// No aspect ratio data (M = 0b00).
    NoData,
    /// 4:3 picture aspect ratio (M = 0b01).
    FourByThree,
    /// 16:9 picture aspect ratio (M = 0b10).
    SixteenByNine,
}

/// RGB quantization range (Q field, PB3 bits 3–2).
#[derive(Debug, Clone, Copy, PartialEq, Eq, Structural)]
#[non_exhaustive]
pub enum RgbQuantization {
    /// Default quantization range for the video format (Q = 0b00).
    Default,
    /// Limited range (Q = 0b01).
    LimitedRange,
    /// Full range: levels 0–255 (Q = 0b10).
    FullRange,
}

/// YCC quantization range (YQ field, PB5 bits 7–6).
#[derive(Debug, Clone, Copy, PartialEq, Eq, Structural)]
#[non_exhaustive]
pub enum YccQuantization {
    /// Limited YCC quantization range (YQ = 0b00).
    LimitedRange,
    /// Full YCC quantization range (YQ = 0b01).
    FullRange,
}

/// Non-uniform picture scaling (SC field, PB3 bits 1–0).
#[derive(Debug, Clone, Copy, PartialEq, Eq, Structural)]
#[non_exhaustive]
pub enum NonUniformScaling {
    /// No known non-uniform scaling (SC = 0b00).
    NoScaling,
    /// Picture has been scaled horizontally (SC = 0b01).
    Horizontal,
    /// Picture has been scaled vertically (SC = 0b10).
    Vertical,
    /// Picture has been scaled both horizontally and vertically (SC = 0b11).
    Both,
}

/// IT content type (CN field, PB5 bits 5–4).
#[derive(Debug, Clone, Copy, PartialEq, Eq, Structural)]
#[non_exhaustive]
pub enum ItContentType {
    /// Graphics content (CN = 0b00).
    Graphics,
    /// Photo content (CN = 0b01).
    Photo,
    /// Cinema content (CN = 0b10).
    Cinema,
    /// Game content (CN = 0b11).
    Game,
}

/// An AVI InfoFrame (CTA-861, type code 0x82).
///
/// Carries the color space, colorimetry, quantization range, aspect ratio,
/// active format, VIC, pixel repetition count, and optional bar data.
///
/// # Bit layout reference (CTA-861-H §6.4)
///
/// - PB1: `color_format`\[7:5\], `active_format_present`\[4\], `bar_info`\[3:2\], `scan_info`\[1:0\]
/// - PB2: `colorimetry`\[7:6\], `picture_aspect_ratio`\[5:4\], `active_format_aspect_ratio`\[3:0\]
/// - PB3: `it_content`\[7\], `extended_colorimetry`\[6:4\], `rgb_quantization`\[3:2\],
///   `non_uniform_scaling`\[1:0\]
/// - PB4: reserved\[7\], `vic`\[6:0\]
/// - PB5: `ycc_quantization`\[7:6\], `it_content_type`\[5:4\], `pixel_repetition`\[3:0\]
/// - PB6–PB13: `top_bar`, `bottom_bar`, `left_bar`, `right_bar` (little-endian)
#[derive(Debug, Clone, PartialEq, Eq, Structural)]
pub struct AviInfoFrame {
    /// Video color format (Y\[2:0\]).
    pub color_format: ColorFormat,
    /// Active format description is present in `active_format_aspect_ratio`.
    pub active_format_present: bool,
    /// Which bar measurements (if any) are valid.
    pub bar_info: BarInfo,
    /// Overscan/underscan indication.
    pub scan_info: ScanInfo,
    /// Primary colorimetry standard.
    pub colorimetry: Colorimetry,
    /// Extended colorimetry standard; valid only when `colorimetry` is [`Colorimetry::Extended`].
    pub extended_colorimetry: ExtendedColorimetry,
    /// Coded picture aspect ratio.
    pub picture_aspect_ratio: PictureAspectRatio,
    /// Active Format Description (AFD) code, R\[3:0\].
    pub active_format_aspect_ratio: u8,
    /// IT (Information Technology) content flag.
    pub it_content: bool,
    /// RGB quantization range; valid only when `color_format` is [`ColorFormat::Rgb444`].
    pub rgb_quantization: RgbQuantization,
    /// Non-uniform picture scaling applied by the source.
    pub non_uniform_scaling: NonUniformScaling,
    /// Video Identification Code (VIC), 0–127.
    pub vic: u8,
    /// YCC quantization range; valid only when `color_format` is a YCbCr variant.
    pub ycc_quantization: YccQuantization,
    /// IT content type; valid only when `it_content` is `true`.
    pub it_content_type: ItContentType,
    /// Pixel repetition factor. `0` = no repetition (sent once), `1` = sent twice, ….
    pub pixel_repetition: u8,
    /// End of top bar (line number).
    pub top_bar: u16,
    /// Start of bottom bar (line number).
    pub bottom_bar: u16,
    /// End of left bar (pixel number).
    pub left_bar: u16,
    /// Start of right bar (pixel number).
    pub right_bar: u16,
}

// ---------------------------------------------------------------------------
// Field codes
// ---------------------------------------------------------------------------

/// The color format named by a Y code; undefined codes fall back to RGB 4:4:4.
pub open spec fn color_format_of_code(y: u8) -> ColorFormat {
    match y {
        1 => ColorFormat::YCbCr422,
        2 => ColorFormat::YCbCr444,
        3 => ColorFormat::YCbCr420,
        _ => ColorFormat::Rgb444,
    }
}

/// The Y code of a color format.
pub open spec fn code_of_color_format(c: ColorFormat) -> u8 {
    match c {
        ColorFormat::Rgb444 => 0,
        ColorFormat::YCbCr422 => 1,
        ColorFormat::YCbCr444 => 2,
        ColorFormat::YCbCr420 => 3,
    }
}

/// The bar info named by a 2-bit B code.
pub open spec fn bar_info_of_code(b: u8) -> BarInfo {
    match b {
        0 => BarInfo::NotPresent,
        1 => BarInfo::VerticalBarsPresent,
        2 => BarInfo::HorizontalBarsPresent,
        _ => BarInfo::BothPresent,
    }
}

/// The B code of a bar info.
pub open spec fn code_of_bar_info(b: BarInfo) -> u8 {
    match b {
        BarInfo::NotPresent => 0,
        BarInfo::VerticalBarsPresent => 1,
        BarInfo::HorizontalBarsPresent => 2,
        BarInfo::BothPresent => 3,
    }
}

/// The scan info named by an S code; the reserved code falls back to `NoData`.
pub open spec fn scan_info_of_code(s: u8) -> ScanInfo {
    match s {
        1 => ScanInfo::Overscanned,
        2 => ScanInfo::Underscanned,
        _ => ScanInfo::NoData,
    }
}

/// The S code of a scan info.
pub open spec fn code_of_scan_info(s: ScanInfo) -> u8 {
    match s {
        ScanInfo::NoData => 0,
        ScanInfo::Overscanned => 1,
        ScanInfo::Underscanned => 2,
    }
}

/// The colorimetry named by a 2-bit C code.
pub open spec fn colorimetry_of_code(c: u8) -> Colorimetry {
    match c {
        0 => Colorimetry::NoData,
        1 => Colorimetry::Bt601,
        2 => Colorimetry::Bt709,
        _ => Colorimetry::Extended,
    }
}

/// The C code of a colorimetry.
pub open spec fn code_of_colorimetry(c: Colorimetry) -> u8 {
    match c {
        Colorimetry::NoData => 0,
        Colorimetry::Bt601 => 1,
        Colorimetry::Bt709 => 2,
        Colorimetry::Extended => 3,
    }
}

/// The aspect ratio named by an M code; the reserved code falls back to `NoData`.
pub open spec fn aspect_of_code(m: u8) -> PictureAspectRatio {
    match m {
        1 => PictureAspectRatio::FourByThree,
        2 => PictureAspectRatio::SixteenByNine,
        _ => PictureAspectRatio::NoData,
    }
}

/// The M code of an aspect ratio.
pub open spec fn code_of_aspect(m: PictureAspectRatio) -> u8 {
    match m {
        PictureAspectRatio::NoData => 0,
        PictureAspectRatio::FourByThree => 1,
        PictureAspectRatio::SixteenByNine => 2,
    }
}

/// The extended colorimetry named by a 3-bit EC code.
pub open spec fn ext_colorimetry_of_code(ec: u8) -> ExtendedColorimetry {
    match ec {
        0 => ExtendedColorimetry::XvYCC601,
        1 => ExtendedColorimetry::XvYCC709,
        2 => ExtendedColorimetry::SyCC601,
        3 => ExtendedColorimetry::OpYCC601,
        4 => ExtendedColorimetry::OpRgb,
        5 => ExtendedColorimetry::Bt2020cYCC,
        6 => ExtendedColorimetry::Bt2020YCC,
        _ => ExtendedColorimetry::AdditionalColorimetryExtension,
    }
}

/// The EC code of an extended colorimetry.
pub open spec fn code_of_ext_colorimetry(ec: ExtendedColorimetry) -> u8 {
    match ec {
        ExtendedColorimetry::XvYCC601 => 0,
        ExtendedColorimetry::XvYCC709 => 1,
        ExtendedColorimetry::SyCC601 => 2,
        ExtendedColorimetry::OpYCC601 => 3,
        ExtendedColorimetry::OpRgb => 4,
        ExtendedColorimetry::Bt2020cYCC => 5,
        ExtendedColorimetry::Bt2020YCC => 6,
        ExtendedColorimetry::AdditionalColorimetryExtension => 7,
    }
}

/// The RGB quantization named by a Q code; the reserved code falls back to `Default`.
pub open spec fn rgb_q_of_code(q: u8) -> RgbQuantization {
    match q {
        1 => RgbQuantization::LimitedRange,
        2 => RgbQuantization::FullRange,
        _ => RgbQuantization::Default,
    }
}

/// The Q code of an RGB quantization.
pub open spec fn code_of_rgb_q(q: RgbQuantization) -> u8 {
    match q {
        RgbQuantization::Default => 0,
        RgbQuantization::LimitedRange => 1,
        RgbQuantization::FullRange => 2,
    }
}

/// The scaling named by a 2-bit SC code.
pub open spec fn scaling_of_code(sc: u8) -> NonUniformScaling {
    match sc {
        0 => NonUniformScaling::NoScaling,
        1 => NonUniformScaling::Horizontal,
        2 => NonUniformScaling::Vertical,
        _ => NonUniformScaling::Both,
    }
}

/// The SC code of a scaling.
pub open spec fn code_of_scaling(sc: NonUniformScaling) -> u8 {
    match sc {
        NonUniformScaling::NoScaling => 0,
        NonUniformScaling::Horizontal => 1,
        NonUniformScaling::Vertical => 2,
        NonUniformScaling::Both => 3,
    }
}

/// The YCC quantization named by a YQ code; reserved codes fall back to `LimitedRange`.
pub open spec fn ycc_q_of_code(yq: u8) -> YccQuantization {
    match yq {
        1 => YccQuantization::FullRange,
        _ => YccQuantization::LimitedRange,
    }
}

/// The YQ code of a YCC quantization.
pub open spec fn code_of_ycc_q(yq: YccQuantization) -> u8 {
    match yq {
        YccQuantization::LimitedRange => 0,
        YccQuantization::FullRange => 1,
    }
}

/// The IT content type named by a 2-bit CN code.
pub open spec fn content_type_of_code(cn: u8) -> ItContentType {
    match cn {
        0 => ItContentType::Graphics,
        1 => ItContentType::Photo,
        2 => ItContentType::Cinema,
        _ => ItContentType::Game,
    }
}

/// The CN code of an IT content type.
pub open spec fn code_of_content_type(cn: ItContentType) -> u8 {
    match cn {
        ItContentType::Graphics => 0,
        ItContentType::Photo => 1,
        ItContentType::Cinema => 2,
        ItContentType::Game => 3,
    }
}

fn decode_color_format(y: u8) -> (r: ColorFormat)
    ensures
        r == color_format_of_code(y),
{
    match y {
        1 => ColorFormat::YCbCr422,
        2 => ColorFormat::YCbCr444,
        3 => ColorFormat::YCbCr420,
        _ => ColorFormat::Rgb444,
    }
}

fn encode_color_format(c: ColorFormat) -> (r: u8)
    ensures
        r == code_of_color_format(c),
{
    match c {
        ColorFormat::Rgb444 => 0,
        ColorFormat::YCbCr422 => 1,
        ColorFormat::YCbCr444 => 2,
        ColorFormat::YCbCr420 => 3,
    }
}

fn decode_bar_info(b: u8) -> (r: BarInfo)
    ensures
        r == bar_info_of_code(b),
{
    match b {
        0 => BarInfo::NotPresent,
        1 => BarInfo::VerticalBarsPresent,
        2 => BarInfo::HorizontalBarsPresent,
        _ => BarInfo::BothPresent,
    }
}

fn encode_bar_info(b: BarInfo) -> (r: u8)
    ensures
        r == code_of_bar_info(b),
{
    match b {
        BarInfo::NotPresent => 0,
        BarInfo::VerticalBarsPresent => 1,
        BarInfo::HorizontalBarsPresent => 2,
        BarInfo::BothPresent => 3,
    }
}

fn decode_scan_info(s: u8) -> (r: ScanInfo)
    ensures
        r == scan_info_of_code(s),
{
    match s {
        1 => ScanInfo::Overscanned,
        2 => ScanInfo::Underscanned,
        _ => ScanInfo::NoData,
    }
}

fn encode_scan_info(s: ScanInfo) -> (r: u8)
    ensures
        r == code_of_scan_info(s),
{
    match s {
        ScanInfo::NoData => 0,
        ScanInfo::Overscanned => 1,
        ScanInfo::Underscanned => 2,
    }
}

fn decode_colorimetry(c: u8) -> (r: Colorimetry)
    ensures
        r == colorimetry_of_code(c),
{
    match c {
        0 => Colorimetry::NoData,
        1 => Colorimetry::Bt601,
        2 => Colorimetry::Bt709,
        _ => Colorimetry::Extended,
    }
}

fn encode_colorimetry(c: Colorimetry) -> (r: u8)
    ensures
        r == code_of_colorimetry(c),
{
    match c {
        Colorimetry::NoData => 0,
        Colorimetry::Bt601 => 1,
        Colorimetry::Bt709 => 2,
        Colorimetry::Extended => 3,
    }
}

fn decode_aspect(m: u8) -> (r: PictureAspectRatio)
    ensures
        r == aspect_of_code(m),
{
    match m {
        1 => PictureAspectRatio::FourByThree,
        2 => PictureAspectRatio::SixteenByNine,
        _ => PictureAspectRatio::NoData,
    }
}

fn encode_aspect(m: PictureAspectRatio) -> (r: u8)
    ensures
        r == code_of_aspect(m),
{
    match m {
        PictureAspectRatio::NoData => 0,
        PictureAspectRatio::FourByThree => 1,
        PictureAspectRatio::SixteenByNine => 2,
    }
}

fn decode_ext_colorimetry(ec: u8) -> (r: ExtendedColorimetry)
    ensures
        r == ext_colorimetry_of_code(ec),
{
    match ec {
        0 => ExtendedColorimetry::XvYCC601,
        1 => ExtendedColorimetry::XvYCC709,
        2 => ExtendedColorimetry::SyCC601,
        3 => ExtendedColorimetry::OpYCC601,
        4 => ExtendedColorimetry::OpRgb,
        5 => ExtendedColorimetry::Bt2020cYCC,
        6 => ExtendedColorimetry::Bt2020YCC,
        _ => ExtendedColorimetry::AdditionalColorimetryExtension,
    }
}

fn encode_ext_colorimetry(ec: ExtendedColorimetry) -> (r: u8)
    ensures
        r == code_of_ext_colorimetry(ec),
{
    match ec {
        ExtendedColorimetry::XvYCC601 => 0,
        ExtendedColorimetry::XvYCC709 => 1,
        ExtendedColorimetry::SyCC601 => 2,
        ExtendedColorimetry::OpYCC601 => 3,
        ExtendedColorimetry::OpRgb => 4,
        ExtendedColorimetry::Bt2020cYCC => 5,
        ExtendedColorimetry::Bt2020YCC => 6,
        ExtendedColorimetry::AdditionalColorimetryExtension => 7,
    }
}

fn decode_rgb_q(q: u8) -> (r: RgbQuantization)
    ensures
        r == rgb_q_of_code(q),
{
    match q {
        1 => RgbQuantization::LimitedRange,
        2 => RgbQuantization::FullRange,
        _ => RgbQuantization::Default,
    }
}

fn encode_rgb_q(q: RgbQuantization) -> (r: u8)
    ensures
        r == code_of_rgb_q(q),
{
    match q {
        RgbQuantization::Default => 0,
        RgbQuantization::LimitedRange => 1,
        RgbQuantization::FullRange => 2,
    }
}

fn decode_scaling(sc: u8) -> (r: NonUniformScaling)
    ensures
        r == scaling_of_code(sc),
{
    match sc {
        0 => NonUniformScaling::NoScaling,
        1 => NonUniformScaling::Horizontal,
        2 => NonUniformScaling::Vertical,
        _ => NonUniformScaling::Both,
    }
}

fn encode_scaling(sc: NonUniformScaling) -> (r: u8)
    ensures
        r == code_of_scaling(sc),
{
    match sc {
        NonUniformScaling::NoScaling => 0,
        NonUniformScaling::Horizontal => 1,
        NonUniformScaling::Vertical => 2,
        NonUniformScaling::Both => 3,
    }
}

fn decode_ycc_q(yq: u8) -> (r: YccQuantization)
    ensures
        r == ycc_q_of_code(yq),
{
    match yq {
        1 => YccQuantization::FullRange,
        _ => YccQuantization::LimitedRange,
    }
}

fn encode_ycc_q(yq: YccQuantization) -> (r: u8)
    ensures
        r == code_of_ycc_q(yq),
{
    match yq {
        YccQuantization::LimitedRange => 0,
        YccQuantization::FullRange => 1,
    }
}

fn decode_content_type(cn: u8) -> (r: ItContentType)
    ensures
        r == content_type_of_code(cn),
{
    match cn {
        0 => ItContentType::Graphics,
        1 => ItContentType::Photo,
        2 => ItContentType::Cinema,
        _ => ItContentType::Game,
    }
}

fn encode_content_type(cn: ItContentType) -> (r: u8)
    ensures
        r == code_of_content_type(cn),
{
    match cn {
        ItContentType::Graphics => 0,
        ItContentType::Photo => 1,
        ItContentType::Cinema => 2,
        ItContentType::Game => 3,
    }
}

// ---------------------------------------------------------------------------
// Wire format
// ---------------------------------------------------------------------------

/// A bar value: the little-endian pair at bytes `i`, `i + 1` when the declared
/// length reaches the bar's last payload byte, else zero.
pub open spec fn bar_of(p: Seq<u8>, i: int, min_len: u8) -> u16 {
    if p[2] >= min_len {
        le16(p[i], p[i + 1])
    } else {
        0
    }
}

/// The frame that a 31-byte packet decodes to (valid when `packet[2] <= 27`).
/// Bar data fields are read only when the declared length covers them.
pub open spec fn avi_frame_of(p: Seq<u8>) -> AviInfoFrame {
    AviInfoFrame {
        color_format: color_format_of_code((p[4] >> 5u8) & 0x07u8),
        active_format_present: bit_set(p[4], 4),
        bar_info: bar_info_of_code((p[4] >> 2u8) & 0x03u8),
        scan_info: scan_info_of_code(p[4] & 0x03u8),
        colorimetry: colorimetry_of_code((p[5] >> 6u8) & 0x03u8),
        extended_colorimetry: ext_colorimetry_of_code((p[6] >> 4u8) & 0x07u8),
        picture_aspect_ratio: aspect_of_code((p[5] >> 4u8) & 0x03u8),
        active_format_aspect_ratio: p[5] & 0x0Fu8,
        it_content: bit_set(p[6], 7),
        rgb_quantization: rgb_q_of_code((p[6] >> 2u8) & 0x03u8),
        non_uniform_scaling: scaling_of_code(p[6] & 0x03u8),
        vic: p[7] & 0x7Fu8,
        ycc_quantization: ycc_q_of_code((p[8] >> 6u8) & 0x03u8),
        it_content_type: content_type_of_code((p[8] >> 4u8) & 0x03u8),
        pixel_repetition: p[8] & 0x0Fu8,
        top_bar: bar_of(p, 9, 7),
        bottom_bar: bar_of(p, 11, 9),
        left_bar: bar_of(p, 13, 11),
        right_bar: bar_of(p, 15, 13),
    }
}

/// The warnings decoding a packet produces, in order: checksum, undefined
/// color format, reserved scan info, reserved aspect ratio, reserved RGB
/// quantization, reserved bit PB4[7], reserved YCC quantization.
pub open spec fn avi_warnings_of(p: Seq<u8>) -> Seq<AviWarning> {
    let y = (p[4] >> 5u8) & 0x07u8;
    let s = p[4] & 0x03u8;
    let m = (p[5] >> 4u8) & 0x03u8;
    let q = (p[6] >> 2u8) & 0x03u8;
    let yq = (p[8] >> 6u8) & 0x03u8;
    warn_if(
        !checksum_valid(p),
        AviWarning::ChecksumMismatch { expected: checksum_for(covered_bytes(p)), found: p[3] },
    ) + warn_if(y > 3, AviWarning::UnknownEnumValue { field: "color_format", raw: y })
        + warn_if(s == 3, AviWarning::UnknownEnumValue { field: "scan_info", raw: s })
        + warn_if(m == 3, AviWarning::UnknownEnumValue { field: "picture_aspect_ratio", raw: m })
        + warn_if(q == 3, AviWarning::UnknownEnumValue { field: "rgb_quantization", raw: q })
        + warn_if(bit_set(p[7], 7), AviWarning::ReservedFieldNonZero { byte: 7, bit: 7 })
        + warn_if(yq > 1, AviWarning::UnknownEnumValue { field: "ycc_quantization", raw: yq })
}

/// The value of a boolean flag as a single bit.
pub open spec fn flag_bit(b: bool) -> u8 {
    if b {
        1
    } else {
        0
    }
}

/// The 30 checksum-covered bytes an AVI InfoFrame encodes to: type 0x82,
/// version 2, length 13, PB1–PB5 carrying the fields, PB6–PB13 the bar data.
pub open spec fn avi_covered_of(f: AviInfoFrame) -> Seq<u8> {
    let y = code_of_color_format(f.color_format);
    let b = code_of_bar_info(f.bar_info);
    let s = code_of_scan_info(f.scan_info);
    let c = code_of_colorimetry(f.colorimetry);
    let m = code_of_aspect(f.picture_aspect_ratio);
    let ec = code_of_ext_colorimetry(f.extended_colorimetry);
    let q = code_of_rgb_q(f.rgb_quantization);
    let sc = code_of_scaling(f.non_uniform_scaling);
    let yq = code_of_ycc_q(f.ycc_quantization);
    let cn = code_of_content_type(f.it_content_type);
    seq![
        0x82u8,
        0x02u8,
        13u8,
        (y << 5u8) | (flag_bit(f.active_format_present) << 4u8) | (b << 2u8) | s,
        (c << 6u8) | (m << 4u8) | (f.active_format_aspect_ratio & 0x0Fu8),
        (flag_bit(f.it_content) << 7u8) | (ec << 4u8) | (q << 2u8) | sc,
        f.vic & 0x7Fu8,
        (yq << 6u8) | (cn << 4u8) | (f.pixel_repetition & 0x0Fu8),
    ] + le_bytes(f.top_bar) + le_bytes(f.bottom_bar) + le_bytes(f.left_bar) + le_bytes(f.right_bar)
        + Seq::new(14, |i: int| 0u8)
}

/// The warnings encoding a frame records: a VIC beyond the 7-bit field.
pub open spec fn avi_encode_warnings_of(f: AviInfoFrame) -> Seq<AviWarning> {
    warn_if(f.vic > 127, AviWarning::UnknownEnumValue { field: "vic", raw: f.vic })
}

/// An AVI InfoFrame that survives a round trip: its VIC, active format code
/// and pixel repetition fit their wire fields.
pub open spec fn avi_frame_wf(f: AviInfoFrame) -> bool {
    &&& f.vic <= 127
    &&& f.active_format_aspect_ratio <= 15
    &&& f.pixel_repetition <= 15
}

/// The warnings decoding `packet` records, in order.
fn avi_warnings(packet: &[u8; 31]) -> (ws: Vec<AviWarning>)
    ensures
        ws@ == avi_warnings_of(packet@),
{
    let ghost p = packet@;
    let mut ws: Vec<AviWarning> = Vec::new();
    if packet_sum(packet) != 0 {
        let expected = expected_checksum(packet);
        ws.push(AviWarning::ChecksumMismatch { expected, found: packet[3] });
    }
    let ghost w0 = ws@;
    assert(w0 =~= warn_if(
        !checksum_valid(p),
        AviWarning::ChecksumMismatch { expected: checksum_for(covered_bytes(p)), found: p[3] },
    ));
    let y = (packet[4] >> 5) & 0x07;
    if y > 3 {
        ws.push(AviWarning::UnknownEnumValue { field: "color_format", raw: y });
    }
    let ghost w1 = ws@;
    assert(w1 =~= w0 + warn_if(y > 3, AviWarning::UnknownEnumValue { field: "color_format", raw: y }));
    let s = packet[4] & 0x03;
    if s == 3 {
        ws.push(AviWarning::UnknownEnumValue { field: "scan_info", raw: s });
    }
    let ghost w2 = ws@;
    assert(w2 =~= w1 + warn_if(s == 3, AviWarning::UnknownEnumValue { field: "scan_info", raw: s }));
    let m = (packet[5] >> 4) & 0x03;
    if m == 3 {
        ws.push(AviWarning::UnknownEnumValue { field: "picture_aspect_ratio", raw: m });
    }
    let ghost w3 = ws@;
    assert(w3 =~= w2 + warn_if(m == 3, AviWarning::UnknownEnumValue { field: "picture_aspect_ratio", raw: m }));
    let q = (packet[6] >> 2) & 0x03;
    if q == 3 {
        ws.push(AviWarning::UnknownEnumValue { field: "rgb_quantization", raw: q });
    }
    let ghost w4 = ws@;
    assert(w4 =~= w3 + warn_if(q == 3, AviWarning::UnknownEnumValue { field: "rgb_quantization", raw: q }));
    if (packet[7] >> 7) & 1 == 1 {
        ws.push(AviWarning::ReservedFieldNonZero { byte: 7, bit: 7 });
    }
    let ghost w5 = ws@;
    assert(w5 =~= w4 + warn_if(bit_set(p[7], 7), AviWarning::ReservedFieldNonZero { byte: 7, bit: 7 }));
    let yq = (packet[8] >> 6) & 0x03;
    if yq > 1 {
        ws.push(AviWarning::UnknownEnumValue { field: "ycc_quantization", raw: yq });
    }
    assert(ws@ =~= w5 + warn_if(yq > 1, AviWarning::UnknownEnumValue { field: "ycc_quantization", raw: yq }));
    ws
}

impl AviInfoFrame {
    /// Decode an AVI InfoFrame from a 31-byte wire packet.
    ///
    /// Bar data is read only as far as the declared length covers it; bars
    /// beyond it decode as zero.
    ///
    /// # Errors
    ///
    /// Returns [`DecodeError::Truncated`] if `packet[2] > 27`.
    ///
    /// # Warnings
    ///
    /// The returned [`Decoded`] carries exactly the warnings
    /// [`avi_warnings_of`] lists.
    pub fn decode(packet: &[u8; 31]) -> (r: Result<Decoded<AviInfoFrame, AviWarning>, DecodeError>)
        ensures
            packet@[2] > 27 ==> r == Err::<Decoded<AviInfoFrame, AviWarning>, DecodeError>(
                DecodeError::Truncated { claimed: packet@[2] },
            ),
            packet@[2] <= 27 ==> (r matches Ok(d) && d.value == avi_frame_of(packet@)
                && d.warnings@ == avi_warnings_of(packet@)),
    {
        let length = packet[2];
        if length > 27 {
            return Err(DecodeError::Truncated { claimed: length });
        }
        // PB1 (byte 4): Y2[7]|Y1[6]|Y0[5]|A0[4]|B1[3]|B0[2]|S1[1]|S0[0]
        let pb1 = packet[4];
        // PB2 (byte 5): C1[7]|C0[6]|M1[5]|M0[4]|R3[3]|R2[2]|R1[1]|R0[0]
        let pb2 = packet[5];
        // PB3 (byte 6): IT[7]|EC2[6]|EC1[5]|EC0[4]|Q1[3]|Q0[2]|SC1[1]|SC0[0]
        let pb3 = packet[6];
        // PB4 (byte 7): rsvd[7]|VIC[6:0]
        let pb4 = packet[7];
        // PB5 (byte 8): YQ1[7]|YQ0[6]|CN1[5]|CN0[4]|PR3[3]|PR2[2]|PR1[1]|PR0[0]
        let pb5 = packet[8];
        let value = AviInfoFrame {
            color_format: decode_color_format((pb1 >> 5) & 0x07),
            active_format_present: (pb1 >> 4) & 1 == 1,
            bar_info: decode_bar_info((pb1 >> 2) & 0x03),
            scan_info: decode_scan_info(pb1 & 0x03),
            colorimetry: decode_colorimetry((pb2 >> 6) & 0x03),
            extended_colorimetry: decode_ext_colorimetry((pb3 >> 4) & 0x07),
            picture_aspect_ratio: decode_aspect((pb2 >> 4) & 0x03),
            active_format_aspect_ratio: pb2 & 0x0F,
            it_content: (pb3 >> 7) & 1 == 1,
            rgb_quantization: decode_rgb_q((pb3 >> 2) & 0x03),
            non_uniform_scaling: decode_scaling(pb3 & 0x03),
            vic: pb4 & 0x7F,
            ycc_quantization: decode_ycc_q((pb5 >> 6) & 0x03),
            it_content_type: decode_content_type((pb5 >> 4) & 0x03),
            pixel_repetition: pb5 & 0x0F,
            // PB6–PB13 (bytes 9–16): bar data, only where the length covers it.
            top_bar: if length >= 7 { read_le16(packet[9], packet[10]) } else { 0 },
            bottom_bar: if length >= 9 { read_le16(packet[11], packet[12]) } else { 0 },
            left_bar: if length >= 11 { read_le16(packet[13], packet[14]) } else { 0 },
            right_bar: if length >= 13 { read_le16(packet[15], packet[16]) } else { 0 },
        };
        let warnings = avi_warnings(packet);
        Ok(Decoded { value, warnings })
    }
}

/// Write the two little-endian bytes of `v` at `hp[i]` and `hp[i + 1]`.
fn write_le16(hp: &mut [u8; 30], i: usize, v: u16)
    requires
        i + 1 < 30,
    ensures
        final(hp)@ == old(hp)@.update(i as int, (v % 256) as u8).update(i + 1, (v / 256) as u8),
{
    hp[i] = (v % 256) as u8;
    hp[i + 1] = (v / 256) as u8;
}

impl IntoPackets for AviInfoFrame {
    type Iter = SinglePacketIter;

    type Warning = AviWarning;

    /// Every frame of this type can be encoded.
    open spec fn can_encode(&self) -> bool {
        true
    }

    /// Encode to a single wire packet. A VIC beyond the 7-bit field is
    /// truncated on the wire and reported as a warning.
    fn into_packets(self) -> (r: Decoded<SinglePacketIter, AviWarning>)
        ensures
            packets_view(r.value@) == seq![wire_packet(avi_covered_of(self))],
            r.warnings@ == avi_encode_warnings_of(self),
    {
        let y = encode_color_format(self.color_format);
        let b = encode_bar_info(self.bar_info);
        let s = encode_scan_info(self.scan_info);
        let c = encode_colorimetry(self.colorimetry);
        let m = encode_aspect(self.picture_aspect_ratio);
        let ec = encode_ext_colorimetry(self.extended_colorimetry);
        let q = encode_rgb_q(self.rgb_quantization);
        let sc = encode_scaling(self.non_uniform_scaling);
        let yq = encode_ycc_q(self.ycc_quantization);
        let cn = encode_content_type(self.it_content_type);
        let afp: u8 = if self.active_format_present { 1 } else { 0 };
        let it: u8 = if self.it_content { 1 } else { 0 };

        let mut hp = [0u8; 30];
        hp[0] = 0x82;
        hp[1] = 0x02;
        hp[2] = 13;
        hp[3] = (y << 5) | (afp << 4) | (b << 2) | s;
        hp[4] = (c << 6) | (m << 4) | (self.active_format_aspect_ratio & 0x0F);
        hp[5] = (it << 7) | (ec << 4) | (q << 2) | sc;
        hp[6] = self.vic & 0x7F;
        hp[7] = (yq << 6) | (cn << 4) | (self.pixel_repetition & 0x0F);
        write_le16(&mut hp, 8, self.top_bar);
        write_le16(&mut hp, 10, self.bottom_bar);
        write_le16(&mut hp, 12, self.left_bar);
        write_le16(&mut hp, 14, self.right_bar);
        assert(hp@ =~= avi_covered_of(self));
        let packet = assemble_packet(&hp);
        let mut r = Decoded::new(SinglePacketIter::new(packet));
        if self.vic > 127 {
            r.push_warning(AviWarning::UnknownEnumValue { field: "vic", raw: self.vic });
        }
        assert(r.warnings@ =~= avi_encode_warnings_of(self));
        assert(packets_view(r.value@) =~= seq![wire_packet(avi_covered_of(self))]);
        r
    }
}

// ---------------------------------------------------------------------------
// Laws
// ---------------------------------------------------------------------------

proof fn lemma_avi_pb1_bits(y: u8, a: u8, b: u8, s: u8)
    by (bit_vector)
    requires
        y < 4,
        a < 2,
        b < 4,
        s < 3,
    ensures
        ((((y << 5u8) | (a << 4u8) | (b << 2u8) | s) >> 5u8) & 0x07u8) == y,
        (((((y << 5u8) | (a << 4u8) | (b << 2u8) | s) >> 4u8) & 1u8) == 1u8) == (a == 1),
        ((((y << 5u8) | (a << 4u8) | (b << 2u8) | s) >> 2u8) & 0x03u8) == b,
        (((y << 5u8) | (a << 4u8) | (b << 2u8) | s) & 0x03u8) == s,
{
}

proof fn lemma_avi_pb2_bits(c: u8, m: u8, r: u8)
    by (bit_vector)
    requires
        c < 4,
        m < 3,
        r < 16,
    ensures
        ((((c << 6u8) | (m << 4u8) | (r & 0x0Fu8)) >> 6u8) & 0x03u8) == c,
        ((((c << 6u8) | (m << 4u8) | (r & 0x0Fu8)) >> 4u8) & 0x03u8) == m,
        (((c << 6u8) | (m << 4u8) | (r & 0x0Fu8)) & 0x0Fu8) == r,
{
}

proof fn lemma_avi_pb3_bits(it: u8, ec: u8, q: u8, sc: u8)
    by (bit_vector)
    requires
        it < 2,
        ec < 8,
        q < 3,
        sc < 4,
    ensures
        (((((it << 7u8) | (ec << 4u8) | (q << 2u8) | sc) >> 7u8) & 1u8) == 1u8) == (it == 1),
        ((((it << 7u8) | (ec << 4u8) | (q << 2u8) | sc) >> 4u8) & 0x07u8) == ec,
        ((((it << 7u8) | (ec << 4u8) | (q << 2u8) | sc) >> 2u8) & 0x03u8) == q,
        (((it << 7u8) | (ec << 4u8) | (q << 2u8) | sc) & 0x03u8) == sc,
{
}

proof fn lemma_avi_pb4_pb5_bits(vic: u8, yq: u8, cn: u8, pr: u8)
    by (bit_vector)
    requires
        vic < 128,
        yq < 2,
        cn < 4,
        pr < 16,
    ensures
        (vic & 0x7Fu8) & 0x7Fu8 == vic,
        ((vic & 0x7Fu8) >> 7u8) & 1u8 == 0u8,
        ((((yq << 6u8) | (cn << 4u8) | (pr & 0x0Fu8)) >> 6u8) & 0x03u8) == yq,
        ((((yq << 6u8) | (cn << 4u8) | (pr & 0x0Fu8)) >> 4u8) & 0x03u8) == cn,
        (((yq << 6u8) | (cn << 4u8) | (pr & 0x0Fu8)) & 0x0Fu8) == pr,
{
}

/// Round trip: encoding a well-formed AVI InfoFrame and decoding the packet
/// gives back the same frame, with no warnings on either side.
pub proof fn lemma_avi_round_trip(f: AviInfoFrame)
    requires
        avi_frame_wf(f),
    ensures
        wire_packet(avi_covered_of(f))[2] <= 27,
        avi_frame_of(wire_packet(avi_covered_of(f))) == f,
        avi_warnings_of(wire_packet(avi_covered_of(f))) == Seq::<AviWarning>::empty(),
        avi_encode_warnings_of(f) == Seq::<AviWarning>::empty(),
{
    let hp = avi_covered_of(f);
    assert(hp.len() == 30);
    lemma_wire_packet_valid(hp);
    let p = wire_packet(hp);
    assert forall|i: int| 4 <= i < 31 implies p[i] == hp[i - 1] by {}
    lemma_avi_pb1_bits(
        code_of_color_format(f.color_format),
        flag_bit(f.active_format_present),
        code_of_bar_info(f.bar_info),
        code_of_scan_info(f.scan_info),
    );
    lemma_avi_pb2_bits(
        code_of_colorimetry(f.colorimetry),
        code_of_aspect(f.picture_aspect_ratio),
        f.active_format_aspect_ratio,
    );
    lemma_avi_pb3_bits(
        flag_bit(f.it_content),
        code_of_ext_colorimetry(f.extended_colorimetry),
        code_of_rgb_q(f.rgb_quantization),
        code_of_scaling(f.non_uniform_scaling),
    );
    lemma_avi_pb4_pb5_bits(
        f.vic,
        code_of_ycc_q(f.ycc_quantization),
        code_of_content_type(f.it_content_type),
        f.pixel_repetition,
    );
    assert(avi_frame_of(p) == f);
    assert(avi_warnings_of(p) =~= Seq::<AviWarning>::empty());
    assert(avi_encode_warnings_of(f) =~= Seq::<AviWarning>::empty());
}

/// Every packet that decodes yields a well-formed frame, so re-encoding a
/// decoded frame and decoding again reproduces it exactly.
pub proof fn lemma_avi_decode_encode_stable(p: Seq<u8>)
    requires
        p.len() == 31,
    ensures
        avi_frame_wf(avi_frame_of(p)),
        avi_frame_of(wire_packet(avi_covered_of(avi_frame_of(p)))) == avi_frame_of(p),
{
    lemma_low_bits_bound(p[5]);
    lemma_low_bits_bound(p[7]);
    lemma_low_bits_bound(p[8]);
    lemma_avi_round_trip(avi_frame_of(p));
}

// ---------------------------------------------------------------------------
// What the field codes mean
// ---------------------------------------------------------------------------

/// The Y field of a packet (PB1 bits 7–5).
pub open spec fn y_field(p: Seq<u8>) -> u8 {
    (p[4] >> 5u8) & 0x07u8
}

/// The B field of a packet (PB1 bits 3–2).
pub open spec fn b_field(p: Seq<u8>) -> u8 {
    (p[4] >> 2u8) & 0x03u8
}

/// The S field of a packet (PB1 bits 1–0).
pub open spec fn s_field(p: Seq<u8>) -> u8 {
    p[4] & 0x03u8
}

/// The C field of a packet (PB2 bits 7–6).
pub open spec fn c_field(p: Seq<u8>) -> u8 {
    (p[5] >> 6u8) & 0x03u8
}

/// The M field of a packet (PB2 bits 5–4).
pub open spec fn m_field(p: Seq<u8>) -> u8 {
    (p[5] >> 4u8) & 0x03u8
}

/// The EC field of a packet (PB3 bits 6–4).
pub open spec fn ec_field(p: Seq<u8>) -> u8 {
    (p[6] >> 4u8) & 0x07u8
}

/// The Q field of a packet (PB3 bits 3–2).
pub open spec fn q_field(p: Seq<u8>) -> u8 {
    (p[6] >> 2u8) & 0x03u8
}

/// The SC field of a packet (PB3 bits 1–0).
pub open spec fn sc_field(p: Seq<u8>) -> u8 {
    p[6] & 0x03u8
}

/// The CN field of a packet (PB5 bits 5–4).
pub open spec fn cn_field(p: Seq<u8>) -> u8 {
    (p[8] >> 4u8) & 0x03u8
}

/// The YQ field of a packet (PB5 bits 7–6).
pub open spec fn yq_field(p: Seq<u8>) -> u8 {
    (p[8] >> 6u8) & 0x03u8
}

proof fn lemma_avi_field_bounds(b: u8)
    by (bit_vector)
    ensures
        (b >> 5u8) & 0x07u8 < 8,
        (b >> 4u8) & 0x07u8 < 8,
        (b >> 6u8) & 0x03u8 < 4,
        (b >> 4u8) & 0x03u8 < 4,
        (b >> 2u8) & 0x03u8 < 4,
        b & 0x03u8 < 4,
{
}

proof fn lemma_avi_code_bits(hi: u8, flag: u8, mid: u8, lo: u8, ec: u8, yq: u8, cn: u8, low4: u8)
    by (bit_vector)
    requires
        hi < 4,
        flag < 2,
        mid < 4,
        lo < 4,
        ec < 8,
        yq < 4,
        cn < 4,
    ensures
        (((hi << 5u8) | (flag << 4u8) | (mid << 2u8) | lo) >> 5u8) & 0x07u8 == hi,
        (((hi << 5u8) | (flag << 4u8) | (mid << 2u8) | lo) >> 2u8) & 0x03u8 == mid,
        ((hi << 5u8) | (flag << 4u8) | (mid << 2u8) | lo) & 0x03u8 == lo,
        (((hi << 6u8) | (mid << 4u8) | (low4 & 0x0Fu8)) >> 6u8) & 0x03u8 == hi,
        (((hi << 6u8) | (mid << 4u8) | (low4 & 0x0Fu8)) >> 4u8) & 0x03u8 == mid,
        (((flag << 7u8) | (ec << 4u8) | (mid << 2u8) | lo) >> 4u8) & 0x07u8 == ec,
        (((flag << 7u8) | (ec << 4u8) | (mid << 2u8) | lo) >> 2u8) & 0x03u8 == mid,
        ((flag << 7u8) | (ec << 4u8) | (mid << 2u8) | lo) & 0x03u8 == lo,
        (((yq << 6u8) | (cn << 4u8) | (low4 & 0x0Fu8)) >> 6u8) & 0x03u8 == yq,
        (((yq << 6u8) | (cn << 4u8) | (low4 & 0x0Fu8)) >> 4u8) & 0x03u8 == cn,
{
}

/// The code fields of the packet a frame encodes to are its codes.
proof fn lemma_avi_wire_codes(f: AviInfoFrame)
    ensures
        ({
            let p = wire_packet(avi_covered_of(f));
            &&& y_field(p) == code_of_color_format(f.color_format)
            &&& b_field(p) == code_of_bar_info(f.bar_info)
            &&& s_field(p) == code_of_scan_info(f.scan_info)
            &&& c_field(p) == code_of_colorimetry(f.colorimetry)
            &&& m_field(p) == code_of_aspect(f.picture_aspect_ratio)
            &&& ec_field(p) == code_of_ext_colorimetry(f.extended_colorimetry)
            &&& q_field(p) == code_of_rgb_q(f.rgb_quantization)
            &&& sc_field(p) == code_of_scaling(f.non_uniform_scaling)
            &&& yq_field(p) == code_of_ycc_q(f.ycc_quantization)
            &&& cn_field(p) == code_of_content_type(f.it_content_type)
        }),
{
    let hp = avi_covered_of(f);
    assert(hp.len() == 30);
    lemma_wire_packet_valid(hp);
    let p = wire_packet(hp);
    assert(p[4] == hp[3] && p[5] == hp[4] && p[6] == hp[5] && p[8] == hp[7]);
    let af = flag_bit(f.active_format_present);
    let it = flag_bit(f.it_content);
    lemma_avi_code_bits(
        code_of_color_format(f.color_format),
        af,
        code_of_bar_info(f.bar_info),
        code_of_scan_info(f.scan_info),
        0,
        0,
        0,
        0,
    );
    lemma_avi_code_bits(
        code_of_colorimetry(f.colorimetry),
        0,
        code_of_aspect(f.picture_aspect_ratio),
        0,
        0,
        0,
        0,
        f.active_format_aspect_ratio,
    );
    lemma_avi_code_bits(
        0,
        it,
        code_of_rgb_q(f.rgb_quantization),
        code_of_scaling(f.non_uniform_scaling),
        code_of_ext_colorimetry(f.extended_colorimetry),
        0,
        0,
        0,
    );
    lemma_avi_code_bits(
        0,
        0,
        0,
        0,
        0,
        code_of_ycc_q(f.ycc_quantization),
        code_of_content_type(f.it_content_type),
        f.pixel_repetition,
    );
}

/// The luma/chroma matrix standard an extended colorimetry uses: 601 for
/// ITU-R BT.601, 709 for BT.709, 2020 for BT.2020, 0 for RGB or an
/// additional extension.
pub open spec fn ext_colorimetry_matrix(ec: ExtendedColorimetry) -> nat {
    match ec {
        ExtendedColorimetry::XvYCC601 => 601,
        ExtendedColorimetry::XvYCC709 => 709,
        ExtendedColorimetry::SyCC601 => 601,
        ExtendedColorimetry::OpYCC601 => 601,
        ExtendedColorimetry::OpRgb => 0,
        ExtendedColorimetry::Bt2020cYCC => 2020,
        ExtendedColorimetry::Bt2020YCC => 2020,
        ExtendedColorimetry::AdditionalColorimetryExtension => 0,
    }
}

/// The part of IEC 61966-2 that defines an extended colorimetry: 4 for
/// xvYCC, 1 (Amendment 1) for sYCC, 5 for opYCC and opRGB; none for the
/// BT.2020 encodings and the additional extension.
pub open spec fn ext_colorimetry_iec_part(ec: ExtendedColorimetry) -> Option<nat> {
    match ec {
        ExtendedColorimetry::XvYCC601 => Some(4),
        ExtendedColorimetry::XvYCC709 => Some(4),
        ExtendedColorimetry::SyCC601 => Some(1),
        ExtendedColorimetry::OpYCC601 => Some(5),
        ExtendedColorimetry::OpRgb => Some(5),
        _ => None,
    }
}

/// Whether an extended colorimetry carries RGB rather than luma and chroma.
pub open spec fn ext_colorimetry_is_rgb(ec: ExtendedColorimetry) -> bool {
    ec is OpRgb
}

/// Whether an extended colorimetry uses constant-luminance YCbCr.
pub open spec fn ext_colorimetry_constant_luminance(ec: ExtendedColorimetry) -> bool {
    ec is Bt2020cYCC
}

/// The meaning of an EC field value, stated over the decoded extended
/// colorimetry `e`.
pub open spec fn ec_means(ec: u8, e: ExtendedColorimetry) -> bool {
    &&& (ext_colorimetry_iec_part(e) == Some(4nat) <==> ec <= 1)
    &&& (ext_colorimetry_iec_part(e) == Some(1nat) <==> ec == 2)
    &&& (ext_colorimetry_iec_part(e) == Some(5nat) <==> ec == 3 || ec == 4)
    &&& (ext_colorimetry_matrix(e) == 709 <==> ec == 1)
    &&& (ext_colorimetry_matrix(e) == 2020 <==> ec == 5 || ec == 6)
    &&& (ext_colorimetry_is_rgb(e) <==> ec == 4)
    &&& (ext_colorimetry_constant_luminance(e) <==> ec == 5)
    &&& (ext_colorimetry_iec_part(e) is None && ext_colorimetry_matrix(e) == 0 <==> ec == 7)
}

/// The EC field: 0 and 1 are the xvYCC encodings (IEC 61966-2-4), 1 the one
/// on the BT.709 matrix; 2 is sYCC (IEC 61966-2-1); 3 and 4 are the IEC
/// 61966-2-5 encodings, 4 the RGB one; 5 and 6 are BT.2020, 5 the
/// constant-luminance one; 7 is the additional extension. Decoding any packet
/// gives the extended colorimetry its EC field means, and encoding any frame
/// writes the EC field that means its extended colorimetry.
pub proof fn lemma_ext_colorimetry_meaning(p: Seq<u8>, f: AviInfoFrame)
    requires
        p.len() == 31,
    ensures
        ec_means(ec_field(p), avi_frame_of(p).extended_colorimetry),
        ec_means(ec_field(wire_packet(avi_covered_of(f))), f.extended_colorimetry),
{
    lemma_avi_field_bounds(p[6]);
    lemma_avi_wire_codes(f);
}

/// The matrix standard a primary colorimetry names: 601 for SMPTE 170M /
/// ITU-R BT.601, 709 for BT.709; none for no data or an extended one.
pub open spec fn colorimetry_matrix(c: Colorimetry) -> Option<nat> {
    match c {
        Colorimetry::Bt601 => Some(601),
        Colorimetry::Bt709 => Some(709),
        _ => None,
    }
}

/// The C field: 1 names BT.601 and 2 BT.709, 3 defers to the EC field and 0
/// carries no data, both when decoding a packet and when encoding a frame.
pub proof fn lemma_colorimetry_meaning(p: Seq<u8>, f: AviInfoFrame)
    requires
        p.len() == 31,
    ensures
        colorimetry_matrix(avi_frame_of(p).colorimetry) == Some(601nat) <==> c_field(p) == 1,
        colorimetry_matrix(avi_frame_of(p).colorimetry) == Some(709nat) <==> c_field(p) == 2,
        avi_frame_of(p).colorimetry is Extended <==> c_field(p) == 3,
        colorimetry_matrix(f.colorimetry) == Some(601nat) <==> c_field(
            wire_packet(avi_covered_of(f)),
        ) == 1,
        colorimetry_matrix(f.colorimetry) == Some(709nat) <==> c_field(
            wire_packet(avi_covered_of(f)),
        ) == 2,
        f.colorimetry is Extended <==> c_field(wire_packet(avi_covered_of(f))) == 3,
{
    lemma_avi_field_bounds(p[5]);
    lemma_avi_wire_codes(f);
}

/// Whether bar data gives the left and right bars (vertical bars).
pub open spec fn has_vertical_bars(b: BarInfo) -> bool {
    b is VerticalBarsPresent || b is BothPresent
}

/// Whether bar data gives the top and bottom bars (horizontal bars).
pub open spec fn has_horizontal_bars(b: BarInfo) -> bool {
    b is HorizontalBarsPresent || b is BothPresent
}

/// Whether a picture has been scaled horizontally.
pub open spec fn scaled_horizontally(sc: NonUniformScaling) -> bool {
    sc is Horizontal || sc is Both
}

/// Whether a picture has been scaled vertically.
pub open spec fn scaled_vertically(sc: NonUniformScaling) -> bool {
    sc is Vertical || sc is Both
}

/// The B and SC fields are pairs of flags: B bit 0 says the vertical bars
/// are given and bit 1 the horizontal ones; SC bit 0 says the picture was
/// scaled horizontally and bit 1 vertically. Decoding reads and encoding
/// writes each flag independently.
pub proof fn lemma_bar_and_scaling_flags(p: Seq<u8>, f: AviInfoFrame)
    requires
        p.len() == 31,
    ensures
        has_vertical_bars(avi_frame_of(p).bar_info) <==> b_field(p) % 2 == 1,
        has_horizontal_bars(avi_frame_of(p).bar_info) <==> b_field(p) / 2 == 1,
        scaled_horizontally(avi_frame_of(p).non_uniform_scaling) <==> sc_field(p) % 2 == 1,
        scaled_vertically(avi_frame_of(p).non_uniform_scaling) <==> sc_field(p) / 2 == 1,
        has_vertical_bars(f.bar_info) <==> b_field(wire_packet(avi_covered_of(f))) % 2 == 1,
        has_horizontal_bars(f.bar_info) <==> b_field(wire_packet(avi_covered_of(f))) / 2 == 1,
        scaled_horizontally(f.non_uniform_scaling) <==> sc_field(wire_packet(avi_covered_of(f)))
            % 2 == 1,
        scaled_vertically(f.non_uniform_scaling) <==> sc_field(wire_packet(avi_covered_of(f))) / 2
            == 1,
{
    lemma_avi_field_bounds(p[4]);
    lemma_avi_field_bounds(p[6]);
    lemma_avi_wire_codes(f);
}

/// The picture aspect ratio as width and height; none without data.
pub open spec fn aspect_ratio(m: PictureAspectRatio) -> Option<(nat, nat)> {
    match m {
        PictureAspectRatio::NoData => None,
        PictureAspectRatio::FourByThree => Some((4, 3)),
        PictureAspectRatio::SixteenByNine => Some((16, 9)),
    }
}

/// Whether aspect ratio `a` is strictly narrower than `b` (both defined).
pub open spec fn narrower(a: Option<(nat, nat)>, b: Option<(nat, nat)>) -> bool {
    a matches Some((w1, h1)) && b matches Some((w2, h2)) && w1 * h2 < w2 * h1
}

proof fn lemma_narrower_values()
    ensures
        narrower(Some((4nat, 3nat)), Some((16nat, 9nat))),
        !narrower(Some((16nat, 9nat)), Some((4nat, 3nat))),
        !narrower(Some((4nat, 3nat)), Some((4nat, 3nat))),
        !narrower(Some((16nat, 9nat)), Some((16nat, 9nat))),
{
    assert(4nat * 9nat == 36nat);
    assert(16nat * 3nat == 48nat);
    assert(4nat * 3nat == 12nat);
    assert(16nat * 9nat == 144nat);
}

/// The M field ranks the picture aspect ratios: M 1 and 2 name ratios, the
/// higher field the strictly wider one (4:3, then 16:9), and 0 or the
/// reserved 3 names none; encoding writes a defined ratio at its rank.
pub proof fn lemma_aspect_ratio_order(p: Seq<u8>, q: Seq<u8>, f: AviInfoFrame, g: AviInfoFrame)
    requires
        p.len() == 31,
        q.len() == 31,
    ensures
        aspect_ratio(avi_frame_of(p).picture_aspect_ratio) is Some <==> m_field(p) == 1
            || m_field(p) == 2,
        (m_field(p) == 1 || m_field(p) == 2) && (m_field(q) == 1 || m_field(q) == 2) ==> (m_field(
            p,
        ) < m_field(q) <==> narrower(
            aspect_ratio(avi_frame_of(p).picture_aspect_ratio),
            aspect_ratio(avi_frame_of(q).picture_aspect_ratio),
        )),
        aspect_ratio(f.picture_aspect_ratio) is None <==> m_field(wire_packet(avi_covered_of(f)))
            == 0,
        narrower(aspect_ratio(f.picture_aspect_ratio), aspect_ratio(g.picture_aspect_ratio))
            ==> m_field(wire_packet(avi_covered_of(f))) < m_field(wire_packet(avi_covered_of(g))),
{
    lemma_avi_field_bounds(p[5]);
    lemma_avi_field_bounds(q[5]);
    lemma_avi_wire_codes(f);
    lemma_avi_wire_codes(g);
    lemma_narrower_values();
}

/// The lowest code level of an RGB quantization range: 16 for limited, 0
/// for full; none for the format's default.
pub open spec fn rgb_black_level(q: RgbQuantization) -> Option<nat> {
    match q {
        RgbQuantization::Default => None,
        RgbQuantization::LimitedRange => Some(16),
        RgbQuantization::FullRange => Some(0),
    }
}

/// The lowest luma code level of a YCC quantization range: 16 for limited,
/// 0 for full.
pub open spec fn ycc_black_level(q: YccQuantization) -> nat {
    match q {
        YccQuantization::LimitedRange => 16,
        YccQuantization::FullRange => 0,
    }
}

/// The quantization fields: Q 1 is the limited range (black at 16) and Q 2
/// the full range (black at 0), any other Q the format's default; YQ 1 is
/// the full YCC range, any other YQ the limited one. Encoding writes each
/// range at that code.
pub proof fn lemma_quantization_meaning(p: Seq<u8>, f: AviInfoFrame)
    requires
        p.len() == 31,
    ensures
        rgb_black_level(avi_frame_of(p).rgb_quantization) == Some(16nat) <==> q_field(p) == 1,
        rgb_black_level(avi_frame_of(p).rgb_quantization) == Some(0nat) <==> q_field(p) == 2,
        ycc_black_level(avi_frame_of(p).ycc_quantization) == 0 <==> yq_field(p) == 1,
        rgb_black_level(f.rgb_quantization) == Some(16nat) <==> q_field(
            wire_packet(avi_covered_of(f)),
        ) == 1,
        rgb_black_level(f.rgb_quantization) == Some(0nat) <==> q_field(
            wire_packet(avi_covered_of(f)),
        ) == 2,
        rgb_black_level(f.rgb_quantization) is None <==> q_field(wire_packet(avi_covered_of(f)))
            == 0,
        ycc_black_level(f.ycc_quantization) == 0 <==> yq_field(wire_packet(avi_covered_of(f)))
            == 1,
        ycc_black_level(f.ycc_quantization) == 16 <==> yq_field(wire_packet(avi_covered_of(f)))
            == 0,
{
    lemma_avi_field_bounds(p[6]);
    lemma_avi_field_bounds(p[8]);
    lemma_avi_wire_codes(f);
}

/// Whether a color format carries luma and chroma (YCbCr) rather than RGB.
pub open spec fn is_ycbcr(c: ColorFormat) -> bool {
    !(c is Rgb444)
}

/// The horizontal and vertical chroma subsampling factors of a color
/// format (1 for none, 2 for half resolution).
pub open spec fn chroma_subsampling(c: ColorFormat) -> (nat, nat) {
    match c {
        ColorFormat::Rgb444 => (1, 1),
        ColorFormat::YCbCr444 => (1, 1),
        ColorFormat::YCbCr422 => (2, 1),
        ColorFormat::YCbCr420 => (2, 2),
    }
}

/// The Y field: 0 is RGB and 1–3 are YCbCr, with chroma halved horizontally
/// for 1 and 3 and also vertically for 3 (so 1 is 4:2:2, 2 is 4:4:4 and 3 is
/// 4:2:0); an undefined Y decodes as RGB. Encoding writes each format at
/// that code.
pub proof fn lemma_color_format_meaning(p: Seq<u8>, f: AviInfoFrame)
    requires
        p.len() == 31,
    ensures
        is_ycbcr(avi_frame_of(p).color_format) <==> 1 <= y_field(p) <= 3,
        chroma_subsampling(avi_frame_of(p).color_format).0 == 2 <==> y_field(p) == 1 || y_field(
            p,
        ) == 3,
        chroma_subsampling(avi_frame_of(p).color_format).1 == 2 <==> y_field(p) == 3,
        is_ycbcr(f.color_format) <==> 1 <= y_field(wire_packet(avi_covered_of(f))) <= 3,
        chroma_subsampling(f.color_format).0 == 2 <==> y_field(wire_packet(avi_covered_of(f)))
            == 1 || y_field(wire_packet(avi_covered_of(f))) == 3,
        chroma_subsampling(f.color_format).1 == 2 <==> y_field(wire_packet(avi_covered_of(f)))
            == 3,
        y_field(wire_packet(avi_covered_of(f))) <= 3,
{
    lemma_avi_field_bounds(p[4]);
    lemma_avi_wire_codes(f);
}

/// Whether content was composed for a display that overscans (`true`) or
/// one that underscans (`false`); none without data.
pub open spec fn composed_for_overscan(s: ScanInfo) -> Option<bool> {
    match s {
        ScanInfo::NoData => None,
        ScanInfo::Overscanned => Some(true),
        ScanInfo::Underscanned => Some(false),
    }
}

/// The S field: 1 says the content was composed for an overscanning
/// display, 2 for an underscanning one, and 0 or the reserved 3 gives no
/// data; encoding writes each at that code.
pub proof fn lemma_scan_info_meaning(p: Seq<u8>, f: AviInfoFrame)
    requires
        p.len() == 31,
    ensures
        composed_for_overscan(avi_frame_of(p).scan_info) == Some(true) <==> s_field(p) == 1,
        composed_for_overscan(avi_frame_of(p).scan_info) == Some(false) <==> s_field(p) == 2,
        composed_for_overscan(f.scan_info) == Some(true) <==> s_field(
            wire_packet(avi_covered_of(f)),
        ) == 1,
        composed_for_overscan(f.scan_info) == Some(false) <==> s_field(
            wire_packet(avi_covered_of(f)),
        ) == 2,
        composed_for_overscan(f.scan_info) is None <==> s_field(wire_packet(avi_covered_of(f)))
            == 0,
{
    lemma_avi_field_bounds(p[4]);
    lemma_avi_wire_codes(f);
}

/// The IT content types the CN field names, in CTA-861 order: CN `k` is the
/// `k`-th entry.
pub open spec fn content_types_in_order() -> Seq<ItContentType> {
    seq![ItContentType::Graphics, ItContentType::Photo, ItContentType::Cinema, ItContentType::Game]
}

/// The CN field indexes the CTA-861 list of IT content types: decoding a
/// packet gives the entry its CN field selects, and encoding a frame writes
/// the position of its content type in the list.
pub proof fn lemma_content_type_meaning(p: Seq<u8>, f: AviInfoFrame)
    requires
        p.len() == 31,
    ensures
        avi_frame_of(p).it_content_type == content_types_in_order()[cn_field(p) as int],
        content_types_in_order()[cn_field(wire_packet(avi_covered_of(f))) as int]
            == f.it_content_type,
        cn_field(wire_packet(avi_covered_of(f))) < 4,
{
    lemma_avi_field_bounds(p[8]);
    lemma_avi_wire_codes(f);
}

} // verus!
