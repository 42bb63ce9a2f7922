use vstd::prelude::*;

use vstd::arithmetic::power2::{lemma2_to64, pow2};

use crate::bytes::{array_of, lemma_array_of, lemma_array_of_view};
use crate::dynamic_hdr::bits::{
    bits_of, bits_of_bytes, holds_at, lemma_bits_of_bytes_take, lemma_bits_of_zero, lemma_holds_at_prefix,
    lemma_holds_at_split, lemma_read_at_bound, lemma_read_bit, lemma_read_field, max_payload_bits,
    read_at, zero_bits, BitReader, BitWriter, MAX_DYNAMIC_HDR_PAYLOAD,
};
use crate::dynamic_hdr::fields::{
    enc_fields, enc_groups, fields_fit, groups_fit, lemma_enc_fields_len, lemma_enc_groups_len,
    lemma_fields_round_trip, lemma_groups_round_trip, lemma_parse_fields_advance,
    lemma_parse_fields_fit, lemma_parse_groups_fit, lemma_parse_groups_shape, parse_fields,
    parse_groups, read_fields, read_groups, width_sum, widths_ok, write_fields,
};
use crate::error::DecodeError;
use crate::warn::DynamicHdrWarning;

verus! {

// ---------------------------------------------------------------------------
// HDR10+ metadata types (ETSI TS 103 433-1)
// ---------------------------------------------------------------------------

/// HDR10+ dynamic metadata (ETSI TS 103 433-1, format identifier `0x04`).
#[derive(Debug, Clone, PartialEq, Eq)]
pub struct Hdr10PlusMetadata {
    /// Application-specific identifier (8 bits).
    pub application_identifier: u8,
    /// Application mode: 0 = scene-based, 1 = frame-based (8 bits).
    pub application_mode: u8,
    /// Scene/frame switching flag — present only when `application_mode == 1`
    /// (1 bit).
    pub scene_frame_switching_flag: bool,
    /// Maximum luminance of the targeted system display, in cd/m² (27 bits).
    pub targeted_system_display_maximum_luminance: u32,
    /// Whether the targeted system display actual peak luminance table is
    /// present (1 bit).
    pub targeted_system_display_actual_peak_luminance_flag: bool,
    /// Targeted system display actual peak luminance table.
    /// `None` when the flag above is `false`.
    pub targeted_system_display_actual_peak_luminance: Option<ActualPeakLuminance>,
    /// Tone-mapping window data (1–3 windows).
    pub windows: Hdr10PlusWindows,
    /// Whether the mastering display actual peak luminance table is present
    /// (1 bit).
    pub mastering_display_actual_peak_luminance_flag: bool,
    /// Mastering display actual peak luminance table.
    /// `None` when the flag above is `false`.
    pub mastering_display_actual_peak_luminance: Option<ActualPeakLuminance>,
    /// Whether colour saturation mapping is present (1 bit).
    pub color_saturation_mapping_flag: bool,
    /// Colour saturation weight (6 bits). `None` when
    /// `color_saturation_mapping_flag` is `false`.
    pub color_saturation_weight: Option<u8>,
}

/// Up to three tone-mapping windows.
///
/// Stored as a fixed array with a count. Only `windows[..count as usize]` is
/// valid.
#[derive(Debug, Clone, PartialEq, Eq, Default)]
pub struct Hdr10PlusWindows {
    /// Number of valid windows (1–3).
    pub count: u8,
    /// Window data; only `windows[..count as usize]` is populated.
    pub windows: [Hdr10PlusWindow; 3],
}

/// Tone-mapping parameters for one window.
#[derive(Debug, Clone, PartialEq, Eq, Default)]
pub struct Hdr10PlusWindow {
    /// Upper-left corner X coordinate (16 bits).
    pub upper_left_corner_x: u16,
    /// Upper-left corner Y coordinate (16 bits).
    pub upper_left_corner_y: u16,
    /// Lower-right corner X coordinate (16 bits).
    pub lower_right_corner_x: u16,
    /// Lower-right corner Y coordinate (16 bits).
    pub lower_right_corner_y: u16,
    /// Centre of ellipse X coordinate (16 bits).
    pub center_of_ellipse_x: u16,
    /// Centre of ellipse Y coordinate (16 bits).
    pub center_of_ellipse_y: u16,
    /// Rotation angle of the ellipse (8 bits).
    pub rotation_angle: u8,
    /// Semi-major axis of the internal ellipse (16 bits).
    pub semimajor_axis_internal_ellipse: u16,
    /// Semi-major axis of the external ellipse (16 bits).
    pub semimajor_axis_external_ellipse: u16,
    /// Semi-minor axis of the external ellipse (16 bits).
    pub semiminor_axis_external_ellipse: u16,
    /// Overlap process option (1 bit).
    pub overlap_process_option: bool,
    /// Maximum Scene-referred Linear values, one per RGB component (3 × 17
    /// bits).
    pub maxscl: [u32; 3],
    /// Average maximum RGB value (17 bits).
    pub average_maxrgb: u32,
    /// MaxRGB distribution data.
    pub distribution_maxrgb: DistributionMaxrgb,
    /// Fraction of bright pixels (10 bits).
    pub fraction_bright_pixels: u16,
    /// Whether tone-mapping parameters are present (1 bit).
    pub tone_mapping_flag: bool,
    /// Knee point for the tone-mapping curve.
    /// `None` when `tone_mapping_flag` is `false`.
    pub knee_point: Option<KneePoint>,
    /// Bezier curve anchors for the tone-mapping curve.
    /// Only populated when `tone_mapping_flag` is `true`.
    pub bezier_curve_anchors: BezierAnchors,
}

/// MaxRGB distribution percentages and percentiles.
#[derive(Debug, Clone, PartialEq, Eq, Default)]
pub struct DistributionMaxrgb {
    /// Number of valid distribution entries (up to 15).
    pub count: u8,
    /// Percentage values (7 bits each); only `[..count as usize]` is valid.
    pub percentages: [u8; 15],
    /// Percentile values (17 bits each); only `[..count as usize]` is valid.
    pub percentiles: [u32; 15],
}

/// Knee-point coordinates for the tone-mapping curve.
#[derive(Debug, Clone, PartialEq, Eq)]
pub struct KneePoint {
    /// X coordinate (12 bits).
    pub x: u16,
    /// Y coordinate (12 bits).
    pub y: u16,
}

/// Bezier curve anchors for the tone-mapping curve.
#[derive(Debug, Clone, PartialEq, Eq, Default)]
pub struct BezierAnchors {
    /// Number of valid anchors (up to 9).
    pub count: u8,
    /// Anchor values (10 bits each); only `[..count as usize]` is valid.
    pub anchors: [u16; 9],
}

/// Actual peak luminance table, used for both targeted system display and
/// mastering display.
#[derive(Debug, Clone, PartialEq, Eq, Default)]
pub struct ActualPeakLuminance {
    /// Number of rows (5 bits, up to 25).
    pub num_rows: u8,
    /// Number of columns (5 bits, up to 25).
    pub num_cols: u8,
    /// Row-major luminance entries (4 bits each, representing 0–1 in steps of
    /// 1/15). Only `entries[..num_rows][..num_cols]` is valid.
    pub entries: [[u8; 25]; 25],
}

// ---------------------------------------------------------------------------
// Field layouts
// ---------------------------------------------------------------------------

/// Widths of the fixed fields that open a window: corners, centre, rotation,
/// ellipse axes, overlap option, MaxSCL ×3, average MaxRGB.
pub const WINDOW_FIELDS: [u8; 15] = [16, 16, 16, 16, 16, 16, 8, 16, 16, 16, 1, 17, 17, 17, 17];

/// Widths of one MaxRGB distribution entry: percentage, percentile.
pub const DIST_FIELDS: [u8; 2] = [7, 17];

/// Widths of the knee point and anchor count.
pub const KNEE_FIELDS: [u8; 3] = [12, 12, 4];

/// Width of one Bezier anchor.
pub const ANCHOR_FIELDS: [u8; 1] = [10];

/// Widths of the row and column counts of a peak luminance table.
pub const APL_DIM_FIELDS: [u8; 2] = [5, 5];

/// Widths of the application identifier and mode.
pub const HEAD_FIELDS: [u8; 2] = [8, 8];

/// Widths of the targeted system display maximum luminance and the table flag.
pub const LUM_FIELDS: [u8; 2] = [27, 1];

/// `c` fields of 4 bits: one row of a peak luminance table.
pub open spec fn apl_row_widths(c: nat) -> Seq<u8> {
    Seq::new(c, |i: int| 4u8)
}

/// `s` padded with `z` to length `n`.
pub open spec fn pad<T>(s: Seq<T>, n: int, z: T) -> Seq<T> {
    s + Seq::new((n - s.len()) as nat, |i: int| z)
}

/// The smaller of `a` and 25: the number of table rows or columns carried.
pub open spec fn min25(a: nat) -> nat {
    if a < 25 {
        a
    } else {
        25
    }
}

/// A flag as a one-bit value.
pub open spec fn flag_val(b: bool) -> u32 {
    if b {
        1
    } else {
        0
    }
}

// ---------------------------------------------------------------------------
// What a payload decodes to
// ---------------------------------------------------------------------------

/// The empty anchor list.
pub open spec fn zero_anchors() -> BezierAnchors {
    BezierAnchors { count: 0, anchors: array_of(Seq::new(9, |i: int| 0u16)) }
}

/// The empty distribution.
pub open spec fn zero_distribution() -> DistributionMaxrgb {
    DistributionMaxrgb {
        count: 0,
        percentages: array_of(Seq::new(15, |i: int| 0u8)),
        percentiles: array_of(Seq::new(15, |i: int| 0u32)),
    }
}

/// The all-zero window that fills unused window slots.
pub open spec fn zero_window() -> Hdr10PlusWindow {
    Hdr10PlusWindow {
        upper_left_corner_x: 0,
        upper_left_corner_y: 0,
        lower_right_corner_x: 0,
        lower_right_corner_y: 0,
        center_of_ellipse_x: 0,
        center_of_ellipse_y: 0,
        rotation_angle: 0,
        semimajor_axis_internal_ellipse: 0,
        semimajor_axis_external_ellipse: 0,
        semiminor_axis_external_ellipse: 0,
        overlap_process_option: false,
        maxscl: array_of(Seq::new(3, |i: int| 0u32)),
        average_maxrgb: 0,
        distribution_maxrgb: zero_distribution(),
        fraction_bright_pixels: 0,
        tone_mapping_flag: false,
        knee_point: None,
        bezier_curve_anchors: zero_anchors(),
    }
}

/// Row `i` of the peak luminance entries held in `rows`, zero where `rows`
/// holds nothing.
pub open spec fn apl_row_of(rows: Seq<Seq<u32>>, i: int) -> [u8; 25] {
    array_of(
        Seq::new(
            25,
            |j: int|
                if i < rows.len() && j < rows[i].len() {
                    rows[i][j] as u8
                } else {
                    0u8
                },
        ),
    )
}

/// The peak luminance entries held in `rows` (row `i`, column `j`), zero
/// elsewhere.
pub open spec fn apl_entries_of(rows: Seq<Seq<u32>>) -> [[u8; 25]; 25] {
    array_of(Seq::new(25, |i: int| apl_row_of(rows, i)))
}

/// Reading a peak luminance table: row and column counts (5 bits each, at
/// most 25 each), then `rows` rows of `cols` 4-bit entries. A count above 25
/// does not fit the table and fails the read.
pub open spec fn parse_apl(bits: Seq<bool>, p: int) -> Option<(ActualPeakLuminance, int)> {
    match parse_fields(bits, p, APL_DIM_FIELDS@) {
        None => None,
        Some((d, p1)) => if d[0] > 25 || d[1] > 25 {
            None
        } else {
            match parse_groups(bits, p1, d[0] as nat, apl_row_widths(d[1] as nat)) {
                None => None,
                Some((rows, p2)) => Some(
                    (
                        ActualPeakLuminance {
                            num_rows: d[0] as u8,
                            num_cols: d[1] as u8,
                            entries: apl_entries_of(rows),
                        },
                        p2,
                    ),
                ),
            }
        },
    }
}

/// Reading a peak luminance table when `present`, nothing otherwise.
pub open spec fn parse_opt_apl(bits: Seq<bool>, p: int, present: bool) -> Option<
    (Option<ActualPeakLuminance>, int),
> {
    if present {
        match parse_apl(bits, p) {
            None => None,
            Some((l, q)) => Some((Some(l), q)),
        }
    } else {
        Some((None, p))
    }
}

/// The distribution held in `gs` (percentage, percentile per entry).
pub open spec fn distribution_of(count: u8, gs: Seq<Seq<u32>>) -> DistributionMaxrgb {
    DistributionMaxrgb {
        count,
        percentages: array_of(pad(Seq::new(gs.len(), |i: int| gs[i][0] as u8), 15, 0u8)),
        percentiles: array_of(pad(Seq::new(gs.len(), |i: int| gs[i][1]), 15, 0u32)),
    }
}

/// The first-pass window held in the fixed fields `vs`, the distribution and
/// the fraction of bright pixels; its tone-mapping fields are empty.
pub open spec fn window_of(vs: Seq<u32>, dist: DistributionMaxrgb, frac: u16) -> Hdr10PlusWindow {
    Hdr10PlusWindow {
        upper_left_corner_x: vs[0] as u16,
        upper_left_corner_y: vs[1] as u16,
        lower_right_corner_x: vs[2] as u16,
        lower_right_corner_y: vs[3] as u16,
        center_of_ellipse_x: vs[4] as u16,
        center_of_ellipse_y: vs[5] as u16,
        rotation_angle: vs[6] as u8,
        semimajor_axis_internal_ellipse: vs[7] as u16,
        semimajor_axis_external_ellipse: vs[8] as u16,
        semiminor_axis_external_ellipse: vs[9] as u16,
        overlap_process_option: vs[10] == 1,
        maxscl: array_of(seq![vs[11], vs[12], vs[13]]),
        average_maxrgb: vs[14],
        distribution_maxrgb: dist,
        fraction_bright_pixels: frac,
        tone_mapping_flag: false,
        knee_point: None,
        bezier_curve_anchors: zero_anchors(),
    }
}

/// Reading the first-pass fields of one window.
pub open spec fn parse_window(bits: Seq<bool>, p: int) -> Option<(Hdr10PlusWindow, int)> {
    match parse_fields(bits, p, WINDOW_FIELDS@) {
        None => None,
        Some((vs, p1)) => match read_at(bits, p1, 4) {
            None => None,
            Some((n, p2)) => match parse_groups(bits, p2, n, DIST_FIELDS@) {
                None => None,
                Some((gs, p3)) => match read_at(bits, p3, 10) {
                    None => None,
                    Some((frac, p4)) => Some(
                        (window_of(vs, distribution_of(n as u8, gs), frac as u16), p4),
                    ),
                },
            },
        },
    }
}

/// Reading `k` windows' first-pass fields in turn.
pub open spec fn parse_windows(bits: Seq<bool>, p: int, k: nat) -> Option<
    (Seq<Hdr10PlusWindow>, int),
>
    decreases k,
{
    if k == 0 {
        Some((Seq::empty(), p))
    } else {
        match parse_windows(bits, p, (k - 1) as nat) {
            None => None,
            Some((ws, q)) => match parse_window(bits, q) {
                None => None,
                Some((w, r)) => Some((ws.push(w), r)),
            },
        }
    }
}

/// A window's tone-mapping parameters: the flag, the knee point, the anchors.
pub type ToneMapping = (bool, Option<KneePoint>, BezierAnchors);

/// The anchors held in `gs`.
pub open spec fn anchors_of(count: u8, gs: Seq<Seq<u32>>) -> BezierAnchors {
    BezierAnchors {
        count,
        anchors: array_of(pad(Seq::new(gs.len(), |i: int| gs[i][0] as u16), 9, 0u16)),
    }
}

/// Reading one window's tone-mapping parameters: the flag, then when set the
/// knee point, the anchor count (at most 9) and the anchors.
pub open spec fn parse_tone(bits: Seq<bool>, p: int) -> Option<(ToneMapping, int)> {
    match read_at(bits, p, 1) {
        None => None,
        Some((f, p1)) => if f != 1 {
            Some(((false, None, zero_anchors()), p1))
        } else {
            match parse_fields(bits, p1, KNEE_FIELDS@) {
                None => None,
                Some((k, p2)) => if k[2] > 9 {
                    None
                } else {
                    match parse_groups(bits, p2, k[2] as nat, ANCHOR_FIELDS@) {
                        None => None,
                        Some((gs, p3)) => Some(
                            (
                                (
                                    true,
                                    Some(KneePoint { x: k[0] as u16, y: k[1] as u16 }),
                                    anchors_of(k[2] as u8, gs),
                                ),
                                p3,
                            ),
                        ),
                    }
                },
            }
        },
    }
}

/// Reading `k` windows' tone-mapping parameters in turn.
pub open spec fn parse_tones(bits: Seq<bool>, p: int, k: nat) -> Option<(Seq<ToneMapping>, int)>
    decreases k,
{
    if k == 0 {
        Some((Seq::empty(), p))
    } else {
        match parse_tones(bits, p, (k - 1) as nat) {
            None => None,
            Some((ts, q)) => match parse_tone(bits, q) {
                None => None,
                Some((t, r)) => Some((ts.push(t), r)),
            },
        }
    }
}

/// A first-pass window completed with its tone-mapping parameters.
pub open spec fn with_tone(w: Hdr10PlusWindow, t: ToneMapping) -> Hdr10PlusWindow {
    Hdr10PlusWindow {
        tone_mapping_flag: t.0,
        knee_point: t.1,
        bezier_curve_anchors: t.2,
        ..w
    }
}

/// The window array: the first `ws.len()` windows completed with their
/// tone-mapping parameters, then all-zero windows.
pub open spec fn windows_of(ws: Seq<Hdr10PlusWindow>, ts: Seq<ToneMapping>) -> [Hdr10PlusWindow; 3] {
    array_of(
        Seq::new(
            3,
            |i: int|
                if i < ws.len() {
                    with_tone(ws[i], ts[i])
                } else {
                    zero_window()
                },
        ),
    )
}

/// The fields that precede the window list: application identifier,
/// application mode, scene/frame switching flag, targeted system display
/// maximum luminance, targeted table flag, targeted table.
pub type Hdr10PlusHead = (u8, u8, bool, u32, bool, Option<ActualPeakLuminance>);

/// Reading the fields before the window list.
pub open spec fn parse_head(bits: Seq<bool>) -> Option<(Hdr10PlusHead, int)> {
    match parse_fields(bits, 0, HEAD_FIELDS@) {
        None => None,
        Some((h, p1)) => match (if h[1] as u8 == 1 {
            read_at(bits, p1, 1)
        } else {
            Some((0nat, p1))
        }) {
            None => None,
            Some((sfs, p2)) => match read_at(bits, p2, 1) {
                None => None,
                Some((r1, p3)) => match read_at(bits, p3, 1) {
                    None => None,
                    Some((r2, p4)) => match parse_fields(bits, p4, LUM_FIELDS@) {
                        None => None,
                        Some((l, p5)) => match parse_opt_apl(bits, p5, l[1] == 1) {
                            None => None,
                            Some((t, p6)) => Some(
                                (
                                    (h[0] as u8, h[1] as u8, sfs == 1, l[0], l[1] == 1, t),
                                    p6,
                                ),
                            ),
                        },
                    },
                },
            },
        },
    }
}

/// The metadata an HDR10+ bit string decodes to, or `None` when it is
/// malformed: too short for the fields it declares, four windows, more than
/// nine anchors in a window, or a peak luminance table with more than 25 rows
/// or columns.
pub open spec fn hdr10plus_of_bits(bits: Seq<bool>) -> Option<Hdr10PlusMetadata> {
    match parse_head(bits) {
        None => None,
        Some((h, p6)) => match read_at(bits, p6, 2) {
            None => None,
            Some((nw, p7)) => if nw > 2 {
                None
            } else {
                match parse_windows(bits, p7, nw + 1) {
                    None => None,
                    Some((ws, p8)) => match read_at(bits, p8, 1) {
                        None => None,
                        Some((mf, p9)) => match parse_opt_apl(bits, p9, mf == 1) {
                            None => None,
                            Some((m, p10)) => match parse_tones(bits, p10, nw + 1) {
                                None => None,
                                Some((ts, p11)) => match read_at(bits, p11, 1) {
                                    None => None,
                                    Some((cf, p12)) => match (if cf == 1 {
                                        read_at(bits, p12, 6)
                                    } else {
                                        Some((0nat, p12))
                                    }) {
                                        None => None,
                                        Some((wt, p13)) => Some(
                                            Hdr10PlusMetadata {
                                                application_identifier: h.0,
                                                application_mode: h.1,
                                                scene_frame_switching_flag: h.2,
                                                targeted_system_display_maximum_luminance: h.3,
                                                targeted_system_display_actual_peak_luminance_flag:
                                                    h.4,
                                                targeted_system_display_actual_peak_luminance: h.5,
                                                windows: Hdr10PlusWindows {
                                                    count: (nw + 1) as u8,
                                                    windows: windows_of(ws, ts),
                                                },
                                                mastering_display_actual_peak_luminance_flag: mf
                                                    == 1,
                                                mastering_display_actual_peak_luminance: m,
                                                color_saturation_mapping_flag: cf == 1,
                                                color_saturation_weight: if cf == 1 {
                                                    Some(wt as u8)
                                                } else {
                                                    None
                                                },
                                            },
                                        ),
                                    },
                                },
                            },
                        },
                    },
                }
            },
        },
    }
}

/// A reserved-bit warning for bit `p` when it is present and set.
pub open spec fn reserved_warning(bits: Seq<bool>, p: int) -> Seq<DynamicHdrWarning> {
    if 0 <= p < bits.len() && bits[p] {
        seq![DynamicHdrWarning::ReservedFieldNonZero { byte: (p / 8) as u8, bit: (7 - p % 8) as u8 }]
    } else {
        Seq::empty()
    }
}

/// The warnings decoding an HDR10+ bit string records, in order: an
/// application mode above 1, then each of the two reserved bits that is set.
/// Warnings recorded before a later failure are kept.
pub open spec fn hdr10plus_warnings(bits: Seq<bool>) -> Seq<DynamicHdrWarning> {
    match parse_fields(bits, 0, HEAD_FIELDS@) {
        None => Seq::empty(),
        Some((h, p1)) => (if h[1] as u8 > 1 {
            seq![
                DynamicHdrWarning::UnknownEnumValue {
                    field: "application_mode",
                    raw: h[1] as u8,
                },
            ]
        } else {
            Seq::empty()
        }) + match (if h[1] as u8 == 1 {
            read_at(bits, p1, 1)
        } else {
            Some((0nat, p1))
        }) {
            None => Seq::empty(),
            Some((sfs, p2)) => reserved_warning(bits, p2) + reserved_warning(bits, p2 + 1),
        },
    }
}

} // verus!

verus! {

// ---------------------------------------------------------------------------
// Decoding
// ---------------------------------------------------------------------------

/// One table row of `c` entries from the values read.
fn apl_row(vals: &Vec<u32>, c: u8) -> (row: [u8; 25])
    requires
        c <= 25,
        vals@.len() == c,
    ensures
        row@ == Seq::new(25, |j: int| if j < c { vals@[j] as u8 } else { 0u8 }),
{
    let mut row = [0u8; 25];
    let mut j: usize = 0;
    while j < c as usize
        invariant
            c <= 25,
            vals@.len() == c,
            j <= c,
            forall|k: int| 0 <= k < j ==> row@[k] == vals@[k] as u8,
            forall|k: int| j <= k < 25 ==> row@[k] == 0u8,
        decreases c - j,
    {
        row[j] = vals[j] as u8;
        j = j + 1;
    }
    assert(row@ =~= Seq::new(25, |j: int| if j < c { vals@[j] as u8 } else { 0u8 }));
    row
}

/// The peak luminance entries from the rows read.
fn apl_entries(rows: &Vec<Vec<u32>>, r: u8, c: u8, Ghost(gs): Ghost<Seq<Seq<u32>>>) -> (e: [[u8;
    25]; 25])
    requires
        r <= 25,
        c <= 25,
        gs.len() == r,
        rows@.len() == r,
        forall|i: int| 0 <= i < r ==> (#[trigger] rows@[i])@ == gs[i],
        forall|i: int| 0 <= i < r ==> (#[trigger] gs[i]).len() == c,
    ensures
        e == apl_entries_of(gs),
{
    let z = [0u8; 25];
    let mut e = [z; 25];
    let mut i: usize = 0;
    proof {
        lemma_array_of(z);
        assert forall|k: int| r <= k < 25 implies apl_row_of(gs, k) == z by {
            assert(z@ =~= Seq::new(
                25,
                |j: int|
                    if k < gs.len() && j < gs[k].len() {
                        gs[k][j] as u8
                    } else {
                        0u8
                    },
            ));
        }
    }
    while i < r as usize
        invariant
            r <= 25,
            c <= 25,
            gs.len() == r,
            rows@.len() == r,
            forall|i: int| 0 <= i < r ==> (#[trigger] rows@[i])@ == gs[i],
            forall|i: int| 0 <= i < r ==> (#[trigger] gs[i]).len() == c,
            i <= r,
            forall|k: int| 0 <= k < i ==> e@[k] == apl_row_of(gs, k),
            forall|k: int| i <= k < 25 ==> e@[k] == z,
            forall|k: int| r <= k < 25 ==> apl_row_of(gs, k) == z,
        decreases r - i,
    {
        let row = apl_row(&rows[i], c);
        proof {
            lemma_array_of(row);
            assert(row@ =~= Seq::new(
                25,
                |j: int|
                    if (i as int) < gs.len() && j < gs[i as int].len() {
                        gs[i as int][j] as u8
                    } else {
                        0u8
                    },
            ));
        }
        e[i] = row;
        i = i + 1;
    }
    proof {
        assert(e@ =~= Seq::new(25, |i: int| apl_row_of(gs, i)));
        lemma_array_of(e);
    }
    e
}

/// Read a peak luminance table.
fn decode_actual_peak_luminance(r: &mut BitReader<'_>) -> (res: Result<
    ActualPeakLuminance,
    DecodeError,
>)
    requires
        old(r).wf(),
    ensures
        final(r).wf(),
        final(r).bits() == old(r).bits(),
        match parse_apl(old(r).bits(), old(r).pos()) {
            Some((l, q)) => res == Ok::<ActualPeakLuminance, DecodeError>(l) && final(r).pos() == q,
            None => res == Err::<ActualPeakLuminance, DecodeError>(DecodeError::MalformedPayload),
        },
{
    let ghost bits = r.bits();
    let ghost p0 = r.pos();
    proof {
        lemma2_to64();
    }
    let d = read_fields(r, &APL_DIM_FIELDS)?;
    proof {
        lemma_parse_fields_fit(bits, p0, APL_DIM_FIELDS@);
        assert(APL_DIM_FIELDS@[0] == 5 && APL_DIM_FIELDS@[1] == 5);
    }
    let num_rows = d[0] as u8;
    let num_cols = d[1] as u8;
    if num_rows > 25 || num_cols > 25 {
        return Err(DecodeError::MalformedPayload);
    }
    let n_rows = num_rows;
    let n_cols = num_cols;
    let mut widths: Vec<u8> = Vec::new();
    let mut j: u8 = 0;
    while j < n_cols
        invariant
            j <= n_cols,
            widths@ == apl_row_widths(j as nat),
        decreases n_cols - j,
    {
        widths.push(4);
        j = j + 1;
        assert(widths@ =~= apl_row_widths(j as nat));
    }
    let ghost p1 = r.pos();
    let rows = read_groups(r, n_rows as usize, widths.as_slice())?;
    let ghost gs = parse_groups(bits, p1, n_rows as nat, widths@).unwrap().0;
    proof {
        lemma_parse_groups_shape(bits, p1, n_rows as nat, widths@);
    }
    let entries = apl_entries(&rows, n_rows, n_cols, Ghost(gs));
    Ok(ActualPeakLuminance { num_rows, num_cols, entries })
}

} // verus!

verus! {

/// The empty anchor list.
fn empty_anchors() -> (a: BezierAnchors)
    ensures
        a == zero_anchors(),
{
    let a = BezierAnchors { count: 0, anchors: [0u16; 9] };
    proof {
        lemma_array_of(a.anchors);
        assert(a.anchors@ =~= Seq::new(9, |i: int| 0u16));
    }
    a
}

/// The distribution from the entries read.
fn distribution_from(count: u8, gs: &Vec<Vec<u32>>, Ghost(sg): Ghost<Seq<Seq<u32>>>) -> (d:
    DistributionMaxrgb)
    requires
        count <= 15,
        sg.len() == count,
        gs@.len() == count,
        forall|i: int| 0 <= i < count ==> (#[trigger] gs@[i])@ == sg[i],
        forall|i: int| 0 <= i < count ==> (#[trigger] sg[i]).len() == 2,
    ensures
        d == distribution_of(count, sg),
{
    let mut percentages = [0u8; 15];
    let mut percentiles = [0u32; 15];
    let mut i: usize = 0;
    while i < count as usize
        invariant
            count <= 15,
            sg.len() == count,
            gs@.len() == count,
            forall|i: int| 0 <= i < count ==> (#[trigger] gs@[i])@ == sg[i],
            forall|i: int| 0 <= i < count ==> (#[trigger] sg[i]).len() == 2,
            i <= count,
            forall|k: int| 0 <= k < i ==> percentages@[k] == sg[k][0] as u8,
            forall|k: int| 0 <= k < i ==> percentiles@[k] == sg[k][1],
            forall|k: int| i <= k < 15 ==> percentages@[k] == 0u8,
            forall|k: int| i <= k < 15 ==> percentiles@[k] == 0u32,
        decreases count - i,
    {
        percentages[i] = gs[i][0] as u8;
        percentiles[i] = gs[i][1];
        i = i + 1;
    }
    proof {
        assert(percentages@ =~= pad(Seq::new(sg.len(), |i: int| sg[i][0] as u8), 15, 0u8));
        assert(percentiles@ =~= pad(Seq::new(sg.len(), |i: int| sg[i][1]), 15, 0u32));
        lemma_array_of(percentages);
        lemma_array_of(percentiles);
    }
    DistributionMaxrgb { count, percentages, percentiles }
}

/// The anchors from the values read.
fn anchors_from(count: u8, gs: &Vec<Vec<u32>>, Ghost(sg): Ghost<Seq<Seq<u32>>>) -> (a:
    BezierAnchors)
    requires
        count <= 9,
        sg.len() == count,
        gs@.len() == count,
        forall|i: int| 0 <= i < count ==> (#[trigger] gs@[i])@ == sg[i],
        forall|i: int| 0 <= i < count ==> (#[trigger] sg[i]).len() == 1,
    ensures
        a == anchors_of(count, sg),
{
    let mut anchors = [0u16; 9];
    let mut i: usize = 0;
    while i < count as usize
        invariant
            count <= 9,
            sg.len() == count,
            gs@.len() == count,
            forall|i: int| 0 <= i < count ==> (#[trigger] gs@[i])@ == sg[i],
            forall|i: int| 0 <= i < count ==> (#[trigger] sg[i]).len() == 1,
            i <= count,
            forall|k: int| 0 <= k < i ==> anchors@[k] == sg[k][0] as u16,
            forall|k: int| i <= k < 9 ==> anchors@[k] == 0u16,
        decreases count - i,
    {
        anchors[i] = gs[i][0] as u16;
        i = i + 1;
    }
    proof {
        assert(anchors@ =~= pad(Seq::new(sg.len(), |i: int| sg[i][0] as u16), 9, 0u16));
        lemma_array_of(anchors);
    }
    BezierAnchors { count, anchors }
}

/// Read one window's first-pass fields.
fn decode_window(r: &mut BitReader<'_>) -> (res: Result<Hdr10PlusWindow, DecodeError>)
    requires
        old(r).wf(),
    ensures
        final(r).wf(),
        final(r).bits() == old(r).bits(),
        match parse_window(old(r).bits(), old(r).pos()) {
            Some((w, q)) => res == Ok::<Hdr10PlusWindow, DecodeError>(w) && final(r).pos() == q,
            None => res == Err::<Hdr10PlusWindow, DecodeError>(DecodeError::MalformedPayload),
        },
{
    let ghost bits = r.bits();
    let ghost p0 = r.pos();
    let vs = read_fields(r, &WINDOW_FIELDS)?;
    proof {
        lemma_parse_fields_advance(bits, p0, WINDOW_FIELDS@);
    }
    let ghost p1 = r.pos();
    let n = r.read_u8(4)?;
    proof {
        lemma_read_at_bound(bits, p1, 4);
        lemma2_to64();
    }
    let ghost p2 = r.pos();
    let gs = read_groups(r, n as usize, &DIST_FIELDS)?;
    let ghost sg = parse_groups(bits, p2, n as nat, DIST_FIELDS@).unwrap().0;
    proof {
        lemma_parse_groups_shape(bits, p2, n as nat, DIST_FIELDS@);
    }
    let frac = r.read_u16(10)?;
    let distribution_maxrgb = distribution_from(n, &gs, Ghost(sg));
    let maxscl = [vs[11], vs[12], vs[13]];
    proof {
        lemma_array_of(maxscl);
        assert(maxscl@ =~= seq![vs@[11], vs@[12], vs@[13]]);
    }
    Ok(Hdr10PlusWindow {
        upper_left_corner_x: vs[0] as u16,
        upper_left_corner_y: vs[1] as u16,
        lower_right_corner_x: vs[2] as u16,
        lower_right_corner_y: vs[3] as u16,
        center_of_ellipse_x: vs[4] as u16,
        center_of_ellipse_y: vs[5] as u16,
        rotation_angle: vs[6] as u8,
        semimajor_axis_internal_ellipse: vs[7] as u16,
        semimajor_axis_external_ellipse: vs[8] as u16,
        semiminor_axis_external_ellipse: vs[9] as u16,
        overlap_process_option: vs[10] == 1,
        maxscl,
        average_maxrgb: vs[14],
        distribution_maxrgb,
        fraction_bright_pixels: frac,
        tone_mapping_flag: false,
        knee_point: None,
        bezier_curve_anchors: empty_anchors(),
    })
}

/// Read one window's tone-mapping parameters.
fn decode_tone(r: &mut BitReader<'_>) -> (res: Result<ToneMapping, DecodeError>)
    requires
        old(r).wf(),
    ensures
        final(r).wf(),
        final(r).bits() == old(r).bits(),
        match parse_tone(old(r).bits(), old(r).pos()) {
            Some((t, q)) => res == Ok::<ToneMapping, DecodeError>(t) && final(r).pos() == q,
            None => res == Err::<ToneMapping, DecodeError>(DecodeError::MalformedPayload),
        },
{
    let ghost bits = r.bits();
    let flag = r.read_bool()?;
    if !flag {
        return Ok((false, None, empty_anchors()));
    }
    let ghost p1 = r.pos();
    let k = read_fields(r, &KNEE_FIELDS)?;
    proof {
        lemma_parse_fields_advance(bits, p1, KNEE_FIELDS@);
    }
    if k[2] > 9 {
        return Err(DecodeError::MalformedPayload);
    }
    let ghost p2 = r.pos();
    let gs = read_groups(r, k[2] as usize, &ANCHOR_FIELDS)?;
    let ghost sg = parse_groups(bits, p2, k[2] as nat, ANCHOR_FIELDS@).unwrap().0;
    proof {
        lemma_parse_groups_shape(bits, p2, k[2] as nat, ANCHOR_FIELDS@);
    }
    let anchors = anchors_from(k[2] as u8, &gs, Ghost(sg));
    Ok((true, Some(KneePoint { x: k[0] as u16, y: k[1] as u16 }), anchors))
}

} // verus!

verus! {

/// A failure to read some windows is a failure to read them all.
proof fn lemma_parse_windows_prefix_none(bits: Seq<bool>, p: int, j: nat, k: nat)
    requires
        j <= k,
        parse_windows(bits, p, j) is None,
    ensures
        parse_windows(bits, p, k) is None,
    decreases k,
{
    if j < k {
        lemma_parse_windows_prefix_none(bits, p, j, (k - 1) as nat);
    }
}

/// A failure to read some tone-mapping parameters is a failure to read them
/// all.
proof fn lemma_parse_tones_prefix_none(bits: Seq<bool>, p: int, j: nat, k: nat)
    requires
        j <= k,
        parse_tones(bits, p, j) is None,
    ensures
        parse_tones(bits, p, k) is None,
    decreases k,
{
    if j < k {
        lemma_parse_tones_prefix_none(bits, p, j, (k - 1) as nat);
    }
}

/// The all-zero window.
fn empty_window() -> (w: Hdr10PlusWindow)
    ensures
        w == zero_window(),
{
    let maxscl = [0u32; 3];
    let percentages = [0u8; 15];
    let percentiles = [0u32; 15];
    proof {
        lemma_array_of(maxscl);
        lemma_array_of(percentages);
        lemma_array_of(percentiles);
        assert(maxscl@ =~= Seq::new(3, |i: int| 0u32));
        assert(percentages@ =~= Seq::new(15, |i: int| 0u8));
        assert(percentiles@ =~= Seq::new(15, |i: int| 0u32));
    }
    Hdr10PlusWindow {
        upper_left_corner_x: 0,
        upper_left_corner_y: 0,
        lower_right_corner_x: 0,
        lower_right_corner_y: 0,
        center_of_ellipse_x: 0,
        center_of_ellipse_y: 0,
        rotation_angle: 0,
        semimajor_axis_internal_ellipse: 0,
        semimajor_axis_external_ellipse: 0,
        semiminor_axis_external_ellipse: 0,
        overlap_process_option: false,
        maxscl,
        average_maxrgb: 0,
        distribution_maxrgb: DistributionMaxrgb { count: 0, percentages, percentiles },
        fraction_bright_pixels: 0,
        tone_mapping_flag: false,
        knee_point: None,
        bezier_curve_anchors: empty_anchors(),
    }
}

/// The window array from the first-pass windows and their tone-mapping
/// parameters.
fn assemble_windows(ws: Vec<Hdr10PlusWindow>, ts: Vec<ToneMapping>) -> (a: [Hdr10PlusWindow; 3])
    requires
        ws@.len() == ts@.len(),
        ws@.len() <= 3,
    ensures
        a == windows_of(ws@, ts@),
{
    let ghost ws0 = ws@;
    let ghost ts0 = ts@;
    let mut ws = ws;
    let mut ts = ts;
    let mut a = [empty_window(), empty_window(), empty_window()];
    while ws.len() > 0
        invariant
            ws0.len() == ts0.len(),
            ws0.len() <= 3,
            ws@.len() == ts@.len(),
            ws@.len() <= ws0.len(),
            ws@ == ws0.take(ws@.len() as int),
            ts@ == ts0.take(ts@.len() as int),
            forall|k: int| ws@.len() <= k < ws0.len() ==> a@[k] == with_tone(ws0[k], ts0[k]),
            forall|k: int| ws0.len() <= k < 3 ==> a@[k] == zero_window(),
        decreases ws@.len(),
    {
        let w = ws.pop().unwrap();
        let t = ts.pop().unwrap();
        let k = ws.len();
        a[k] = Hdr10PlusWindow { tone_mapping_flag: t.0, knee_point: t.1, bezier_curve_anchors: t.2, ..w };
        assert(ws@ =~= ws0.take(ws@.len() as int));
        assert(ts@ =~= ts0.take(ts@.len() as int));
    }
    proof {
        assert(a@ =~= Seq::new(
            3,
            |i: int|
                if i < ws0.len() {
                    with_tone(ws0[i], ts0[i])
                } else {
                    zero_window()
                },
        ));
        lemma_array_of(a);
    }
    a
}

/// Read `count` windows' first-pass fields.
fn decode_windows(r: &mut BitReader<'_>, count: u8) -> (res: Result<
    Vec<Hdr10PlusWindow>,
    DecodeError,
>)
    requires
        old(r).wf(),
    ensures
        final(r).wf(),
        final(r).bits() == old(r).bits(),
        match parse_windows(old(r).bits(), old(r).pos(), count as nat) {
            Some((ws, q)) => res matches Ok(v) && v@ == ws && final(r).pos() == q,
            None => res == Err::<Vec<Hdr10PlusWindow>, DecodeError>(DecodeError::MalformedPayload),
        },
{
    let ghost bits = r.bits();
    let ghost p0 = r.pos();
    let mut ws: Vec<Hdr10PlusWindow> = Vec::new();
    let mut i: u8 = 0;
    while i < count
        invariant
            r.wf(),
            r.bits() == bits,
            bits == old(r).bits(),
            p0 == old(r).pos(),
            i <= count,
            parse_windows(bits, p0, i as nat) == Some((ws@, r.pos())),
        decreases count - i,
    {
        let w = match decode_window(r) {
            Ok(w) => w,
            Err(e) => {
                proof {
                    lemma_parse_windows_prefix_none(bits, p0, (i + 1) as nat, count as nat);
                }
                return Err(e);
            },
        };
        ws.push(w);
        i = i + 1;
    }
    Ok(ws)
}

/// Read `count` windows' tone-mapping parameters.
fn decode_tones(r: &mut BitReader<'_>, count: u8) -> (res: Result<Vec<ToneMapping>, DecodeError>)
    requires
        old(r).wf(),
    ensures
        final(r).wf(),
        final(r).bits() == old(r).bits(),
        match parse_tones(old(r).bits(), old(r).pos(), count as nat) {
            Some((ts, q)) => res matches Ok(v) && v@ == ts && final(r).pos() == q,
            None => res == Err::<Vec<ToneMapping>, DecodeError>(DecodeError::MalformedPayload),
        },
{
    let ghost bits = r.bits();
    let ghost p0 = r.pos();
    let mut ts: Vec<ToneMapping> = Vec::new();
    let mut i: u8 = 0;
    while i < count
        invariant
            r.wf(),
            r.bits() == bits,
            bits == old(r).bits(),
            p0 == old(r).pos(),
            i <= count,
            parse_tones(bits, p0, i as nat) == Some((ts@, r.pos())),
        decreases count - i,
    {
        let t = match decode_tone(r) {
            Ok(t) => t,
            Err(e) => {
                proof {
                    lemma_parse_tones_prefix_none(bits, p0, (i + 1) as nat, count as nat);
                }
                return Err(e);
            },
        };
        ts.push(t);
        i = i + 1;
    }
    Ok(ts)
}

/// Length facts about what the window and tone lists read.
proof fn lemma_parse_windows_len(bits: Seq<bool>, p: int, k: nat)
    requires
        parse_windows(bits, p, k) is Some,
    ensures
        parse_windows(bits, p, k).unwrap().0.len() == k,
    decreases k,
{
    if k > 0 {
        lemma_parse_windows_len(bits, p, (k - 1) as nat);
    }
}

/// The tone list read has one entry per window.
proof fn lemma_parse_tones_len(bits: Seq<bool>, p: int, k: nat)
    requires
        parse_tones(bits, p, k) is Some,
    ensures
        parse_tones(bits, p, k).unwrap().0.len() == k,
    decreases k,
{
    if k > 0 {
        lemma_parse_tones_len(bits, p, (k - 1) as nat);
    }
}

/// Read the fields before the window list, recording warnings.
fn decode_head(r: &mut BitReader<'_>, warnings: &mut Vec<DynamicHdrWarning>) -> (res: Result<
    Hdr10PlusHead,
    DecodeError,
>)
    requires
        old(r).wf(),
        old(r).pos() == 0,
    ensures
        final(r).wf(),
        final(r).bits() == old(r).bits(),
        match parse_head(old(r).bits()) {
            Some((h, q)) => res == Ok::<Hdr10PlusHead, DecodeError>(h) && final(r).pos() == q,
            None => res == Err::<Hdr10PlusHead, DecodeError>(DecodeError::MalformedPayload),
        },
        final(warnings)@ == old(warnings)@ + hdr10plus_warnings(old(r).bits()),
{
    let ghost bits = r.bits();
    let ghost w0 = warnings@;
    proof {
        lemma2_to64();
    }
    let h = match read_fields(r, &HEAD_FIELDS) {
        Ok(h) => h,
        Err(e) => {
            assert(warnings@ =~= w0 + hdr10plus_warnings(bits));
            return Err(e);
        },
    };
    proof {
        lemma_parse_fields_advance(bits, 0, HEAD_FIELDS@);
    }
    let application_identifier = h[0] as u8;
    let application_mode = h[1] as u8;
    if application_mode > 1 {
        warnings.push(
            DynamicHdrWarning::UnknownEnumValue { field: "application_mode", raw: application_mode },
        );
    }
    let scene_frame_switching_flag = if application_mode == 1 {
        match r.read_bool() {
            Ok(b) => b,
            Err(e) => {
                assert(warnings@ =~= w0 + hdr10plus_warnings(bits));
                return Err(e);
            },
        }
    } else {
        false
    };
    // Two reserved bits follow the application mode (and the optional
    // switching flag).
    let ghost p2 = r.pos();
    proof {
        lemma_read_bit(bits, p2);
        lemma_read_bit(bits, p2 + 1);
    }
    let byte_idx = r.byte_pos() as u8;
    let bit_idx = 7 - r.bit_pos();
    match r.read_bool() {
        Ok(set) => {
            if set {
                warnings.push(DynamicHdrWarning::ReservedFieldNonZero { byte: byte_idx, bit: bit_idx });
            }
        },
        Err(e) => {
            assert(warnings@ =~= w0 + hdr10plus_warnings(bits));
            return Err(e);
        },
    }
    let byte_idx = r.byte_pos() as u8;
    let bit_idx = 7 - r.bit_pos();
    match r.read_bool() {
        Ok(set) => {
            if set {
                warnings.push(DynamicHdrWarning::ReservedFieldNonZero { byte: byte_idx, bit: bit_idx });
            }
        },
        Err(e) => {
            assert(warnings@ =~= w0 + hdr10plus_warnings(bits));
            return Err(e);
        },
    }
    assert(warnings@ =~= w0 + hdr10plus_warnings(bits));
    let ghost p4 = r.pos();
    let l = read_fields(r, &LUM_FIELDS)?;
    proof {
        lemma_parse_fields_advance(bits, p4, LUM_FIELDS@);
    }
    let targeted_flag = l[1] == 1;
    let targeted = if targeted_flag {
        Some(decode_actual_peak_luminance(r)?)
    } else {
        None
    };
    Ok((application_identifier, application_mode, scene_frame_switching_flag, l[0], targeted_flag, targeted))
}

impl Hdr10PlusMetadata {
    /// Parse a HDR10+ metadata payload (ETSI TS 103 433-1 §6.1).
    ///
    /// Each non-fatal anomaly encountered (reserved bits set, unrecognised
    /// `application_mode` value) is appended to `warnings`.
    ///
    /// # Errors
    ///
    /// Returns [`DecodeError::MalformedPayload`] if `payload` is too short to
    /// hold the mandatory fields for the declared structure, declares four
    /// windows, declares more than nine Bezier anchors in a window, or
    /// declares a peak luminance table with more than 25 rows or columns.
    pub fn decode(payload: &[u8], warnings: &mut Vec<DynamicHdrWarning>) -> (res: Result<
        Self,
        DecodeError,
    >)
        ensures
            match hdr10plus_of_bits(bits_of_bytes(payload@)) {
                Some(m) => res == Ok::<Hdr10PlusMetadata, DecodeError>(m),
                None => res == Err::<Hdr10PlusMetadata, DecodeError>(
                    DecodeError::MalformedPayload,
                ),
            },
            final(warnings)@ == old(warnings)@ + hdr10plus_warnings(bits_of_bytes(payload@)),
    {
        let ghost bits = bits_of_bytes(payload@);
        let mut r = BitReader::new(payload);
        let head = decode_head(&mut r, warnings)?;
        let ghost p6 = r.pos();
        // num_windows is stored as (count − 1) in 2 bits. Raw values 0–2 give
        // 1–3 windows; raw value 3 (4 windows) exceeds the array capacity and
        // is rejected as a malformed payload.
        let num_windows_minus1 = r.read_u8(2)?;
        proof {
            lemma_read_at_bound(bits, p6, 2);
            lemma2_to64();
        }
        if num_windows_minus1 > 2 {
            return Err(DecodeError::MalformedPayload);
        }
        let count = num_windows_minus1 + 1;
        let ghost p7 = r.pos();
        let ws = decode_windows(&mut r, count)?;
        proof {
            lemma_parse_windows_len(bits, p7, count as nat);
        }
        let mastering_display_actual_peak_luminance_flag = r.read_bool()?;
        let mastering_display_actual_peak_luminance =
            if mastering_display_actual_peak_luminance_flag {
            Some(decode_actual_peak_luminance(&mut r)?)
        } else {
            None
        };
        // Tone-mapping data is read in a second pass over the windows.
        let ghost p10 = r.pos();
        let ts = decode_tones(&mut r, count)?;
        proof {
            lemma_parse_tones_len(bits, p10, count as nat);
        }
        let color_saturation_mapping_flag = r.read_bool()?;
        let color_saturation_weight = if color_saturation_mapping_flag {
            Some(r.read_u8(6)?)
        } else {
            None
        };
        let windows = assemble_windows(ws, ts);
        Ok(Hdr10PlusMetadata {
            application_identifier: head.0,
            application_mode: head.1,
            scene_frame_switching_flag: head.2,
            targeted_system_display_maximum_luminance: head.3,
            targeted_system_display_actual_peak_luminance_flag: head.4,
            targeted_system_display_actual_peak_luminance: head.5,
            windows: Hdr10PlusWindows { count, windows },
            mastering_display_actual_peak_luminance_flag,
            mastering_display_actual_peak_luminance,
            color_saturation_mapping_flag,
            color_saturation_weight,
        })
    }
}

} // verus!

verus! {

// ---------------------------------------------------------------------------
// What metadata encodes to
// ---------------------------------------------------------------------------

/// The entries a peak luminance table carries on the wire: the first
/// `min(rows, 25)` rows of the first `min(cols, 25)` entries.
pub open spec fn apl_rows(l: ActualPeakLuminance) -> Seq<Seq<u32>> {
    Seq::new(
        min25(l.num_rows as nat),
        |i: int| Seq::new(min25(l.num_cols as nat), |j: int| l.entries[i][j] as u32),
    )
}

/// The bits of a peak luminance table: the 5-bit row and column counts, then
/// the carried entries, 4 bits each, row by row.
pub open spec fn enc_apl(l: ActualPeakLuminance) -> Seq<bool> {
    enc_fields(seq![l.num_rows as u32, l.num_cols as u32], APL_DIM_FIELDS@) + enc_groups(
        apl_rows(l),
        apl_row_widths(min25(l.num_cols as nat)),
    )
}

/// The bits of an optional peak luminance table.
pub open spec fn enc_opt_apl(o: Option<ActualPeakLuminance>) -> Seq<bool> {
    match o {
        Some(l) => enc_apl(l),
        None => Seq::empty(),
    }
}

/// The values of a window's fixed opening fields.
pub open spec fn window_vals(w: Hdr10PlusWindow) -> Seq<u32> {
    seq![
        w.upper_left_corner_x as u32,
        w.upper_left_corner_y as u32,
        w.lower_right_corner_x as u32,
        w.lower_right_corner_y as u32,
        w.center_of_ellipse_x as u32,
        w.center_of_ellipse_y as u32,
        w.rotation_angle as u32,
        w.semimajor_axis_internal_ellipse as u32,
        w.semimajor_axis_external_ellipse as u32,
        w.semiminor_axis_external_ellipse as u32,
        flag_val(w.overlap_process_option),
        w.maxscl[0],
        w.maxscl[1],
        w.maxscl[2],
        w.average_maxrgb,
    ]
}

/// The entries of a distribution carried on the wire.
pub open spec fn dist_groups(d: DistributionMaxrgb) -> Seq<Seq<u32>> {
    Seq::new(d.count as nat, |i: int| seq![d.percentages[i] as u32, d.percentiles[i]])
}

/// The bits of a window's first-pass fields.
pub open spec fn enc_window(w: Hdr10PlusWindow) -> Seq<bool> {
    enc_fields(window_vals(w), WINDOW_FIELDS@) + bits_of(w.distribution_maxrgb.count as u32, 4)
        + enc_groups(dist_groups(w.distribution_maxrgb), DIST_FIELDS@) + bits_of(
        w.fraction_bright_pixels as u32,
        10,
    )
}

/// The bits of several windows' first-pass fields, in order.
pub open spec fn enc_windows(ws: Seq<Hdr10PlusWindow>) -> Seq<bool>
    decreases ws.len(),
{
    if ws.len() == 0 {
        Seq::empty()
    } else {
        enc_windows(ws.drop_last()) + enc_window(ws.last())
    }
}

/// The anchors carried on the wire.
pub open spec fn anchor_groups(b: BezierAnchors) -> Seq<Seq<u32>> {
    Seq::new(b.count as nat, |i: int| seq![b.anchors[i] as u32])
}

/// The bits of a window's tone-mapping parameters: the flag, then when set
/// the knee point (when present), the anchor count and the anchors.
pub open spec fn enc_tone(w: Hdr10PlusWindow) -> Seq<bool> {
    bits_of(flag_val(w.tone_mapping_flag), 1) + if w.tone_mapping_flag {
        (match w.knee_point {
            Some(kp) => enc_fields(
                seq![kp.x as u32, kp.y as u32, w.bezier_curve_anchors.count as u32],
                KNEE_FIELDS@,
            ),
            None => bits_of(w.bezier_curve_anchors.count as u32, 4),
        }) + enc_groups(anchor_groups(w.bezier_curve_anchors), ANCHOR_FIELDS@)
    } else {
        Seq::empty()
    }
}

/// The bits of several windows' tone-mapping parameters, in order.
pub open spec fn enc_tones(ws: Seq<Hdr10PlusWindow>) -> Seq<bool>
    decreases ws.len(),
{
    if ws.len() == 0 {
        Seq::empty()
    } else {
        enc_tones(ws.drop_last()) + enc_tone(ws.last())
    }
}

/// The windows in use.
pub open spec fn used_windows(m: Hdr10PlusMetadata) -> Seq<Hdr10PlusWindow> {
    m.windows.windows@.take(m.windows.count as int)
}

/// The bit string HDR10+ metadata encodes to.
pub open spec fn enc_hdr10plus(m: Hdr10PlusMetadata) -> Seq<bool> {
    enc_fields(seq![m.application_identifier as u32, m.application_mode as u32], HEAD_FIELDS@)
        + (if m.application_mode == 1 {
        bits_of(flag_val(m.scene_frame_switching_flag), 1)
    } else {
        Seq::empty()
    }) + bits_of(0u32, 2) + enc_fields(
        seq![
            m.targeted_system_display_maximum_luminance,
            flag_val(m.targeted_system_display_actual_peak_luminance_flag),
        ],
        LUM_FIELDS@,
    ) + enc_opt_apl(m.targeted_system_display_actual_peak_luminance) + bits_of(
        (m.windows.count - 1) as u32,
        2,
    ) + enc_windows(used_windows(m)) + bits_of(
        flag_val(m.mastering_display_actual_peak_luminance_flag),
        1,
    ) + enc_opt_apl(m.mastering_display_actual_peak_luminance) + enc_tones(used_windows(m))
        + bits_of(flag_val(m.color_saturation_mapping_flag), 1) + match m.color_saturation_weight {
        Some(wt) => bits_of(wt as u32, 6),
        None => Seq::empty(),
    }
}

/// A window the encoder can write: its distribution fits its 15 slots and,
/// with tone mapping on, its anchors fit their 9 slots.
pub open spec fn window_encodable(w: Hdr10PlusWindow) -> bool {
    &&& w.distribution_maxrgb.count <= 15
    &&& w.tone_mapping_flag ==> w.bezier_curve_anchors.count <= 9
}

/// Metadata the encoder can write: one to three windows, each writable.
pub open spec fn hdr10plus_encodable(m: Hdr10PlusMetadata) -> bool {
    &&& 1 <= m.windows.count <= 3
    &&& forall|i: int| 0 <= i < m.windows.count ==> window_encodable(#[trigger] m.windows.windows[i])
}

} // verus!

verus! {

/// A table row of `c` entries is `4 * c` bits wide.
proof fn lemma_apl_row_widths_sum(c: nat)
    ensures
        width_sum(apl_row_widths(c)) == 4 * c,
        widths_ok(apl_row_widths(c)),
    decreases c,
{
    if c > 0 {
        assert(apl_row_widths(c).drop_last() =~= apl_row_widths((c - 1) as nat));
        lemma_apl_row_widths_sum((c - 1) as nat);
    }
}

/// The widths of the fixed layouts.
proof fn lemma_layout_widths()
    ensures
        width_sum(WINDOW_FIELDS@) == 221,
        width_sum(DIST_FIELDS@) == 24,
        width_sum(KNEE_FIELDS@) == 28,
        width_sum(ANCHOR_FIELDS@) == 10,
        width_sum(APL_DIM_FIELDS@) == 10,
        width_sum(HEAD_FIELDS@) == 16,
        width_sum(LUM_FIELDS@) == 28,
        widths_ok(WINDOW_FIELDS@),
        widths_ok(DIST_FIELDS@),
        widths_ok(KNEE_FIELDS@),
        widths_ok(ANCHOR_FIELDS@),
        widths_ok(APL_DIM_FIELDS@),
        widths_ok(HEAD_FIELDS@),
        widths_ok(LUM_FIELDS@),
{
    reveal_with_fuel(width_sum, 16);
    assert(WINDOW_FIELDS@.drop_last() =~= WINDOW_FIELDS@.take(14));
}

/// The length of a peak luminance table's bits.
proof fn lemma_enc_apl_len(l: ActualPeakLuminance)
    ensures
        enc_apl(l).len() == 10 + min25(l.num_rows as nat) * (4 * min25(l.num_cols as nat)),
        enc_apl(l).len() <= 2510,
{
    lemma_layout_widths();
    let c = min25(l.num_cols as nat);
    let r = min25(l.num_rows as nat);
    lemma_enc_fields_len(seq![l.num_rows as u32, l.num_cols as u32], APL_DIM_FIELDS@);
    lemma_apl_row_widths_sum(c);
    lemma_enc_groups_len(apl_rows(l), apl_row_widths(c));
    assert(r * (4 * c) <= 2500) by (nonlinear_arith)
        requires
            r <= 25,
            c <= 25,
    ;
}

/// The length of an optional peak luminance table's bits.
proof fn lemma_enc_opt_apl_len(o: Option<ActualPeakLuminance>)
    ensures
        enc_opt_apl(o).len() <= 2510,
{
    if let Some(l) = o {
        lemma_enc_apl_len(l);
    }
}

/// The length of a window's first-pass bits.
proof fn lemma_enc_window_len(w: Hdr10PlusWindow)
    requires
        w.distribution_maxrgb.count <= 15,
    ensures
        enc_window(w).len() == 235 + 24 * w.distribution_maxrgb.count,
        enc_window(w).len() <= 595,
{
    lemma_layout_widths();
    lemma_enc_fields_len(window_vals(w), WINDOW_FIELDS@);
    lemma_enc_groups_len(dist_groups(w.distribution_maxrgb), DIST_FIELDS@);
}

/// The length of a window's tone-mapping bits.
proof fn lemma_enc_tone_len(w: Hdr10PlusWindow)
    requires
        window_encodable(w),
    ensures
        enc_tone(w).len() <= 119,
{
    lemma_layout_widths();
    if w.tone_mapping_flag {
        if let Some(kp) = w.knee_point {
            lemma_enc_fields_len(
                seq![kp.x as u32, kp.y as u32, w.bezier_curve_anchors.count as u32],
                KNEE_FIELDS@,
            );
        }
        lemma_enc_groups_len(anchor_groups(w.bezier_curve_anchors), ANCHOR_FIELDS@);
    }
}

/// The length of several windows' first-pass bits.
proof fn lemma_enc_windows_len(ws: Seq<Hdr10PlusWindow>)
    requires
        forall|i: int| 0 <= i < ws.len() ==> window_encodable(#[trigger] ws[i]),
    ensures
        enc_windows(ws).len() <= 595 * ws.len(),
    decreases ws.len(),
{
    if ws.len() > 0 {
        assert(window_encodable(ws[ws.len() - 1]));
        lemma_enc_windows_len(ws.drop_last());
        lemma_enc_window_len(ws.last());
    }
}

/// The length of several windows' tone-mapping bits.
proof fn lemma_enc_tones_len(ws: Seq<Hdr10PlusWindow>)
    requires
        forall|i: int| 0 <= i < ws.len() ==> window_encodable(#[trigger] ws[i]),
    ensures
        enc_tones(ws).len() <= 119 * ws.len(),
    decreases ws.len(),
{
    if ws.len() > 0 {
        assert(window_encodable(ws[ws.len() - 1]));
        lemma_enc_tones_len(ws.drop_last());
        lemma_enc_tone_len(ws.last());
    }
}

/// Every piece of the encoding has a bounded length, so the whole fits the
/// writer's buffer.
pub proof fn lemma_enc_hdr10plus_len(m: Hdr10PlusMetadata)
    requires
        hdr10plus_encodable(m),
    ensures
        16 <= enc_hdr10plus(m).len() <= 7219,
        enc_windows(used_windows(m)).len() <= 1785,
        enc_tones(used_windows(m)).len() <= 357,
{
    lemma_layout_widths();
    lemma_enc_fields_len(
        seq![m.application_identifier as u32, m.application_mode as u32],
        HEAD_FIELDS@,
    );
    lemma_enc_fields_len(
        seq![
            m.targeted_system_display_maximum_luminance,
            flag_val(m.targeted_system_display_actual_peak_luminance_flag),
        ],
        LUM_FIELDS@,
    );
    lemma_enc_opt_apl_len(m.targeted_system_display_actual_peak_luminance);
    lemma_enc_opt_apl_len(m.mastering_display_actual_peak_luminance);
    let ws = used_windows(m);
    assert forall|i: int| 0 <= i < ws.len() implies window_encodable(#[trigger] ws[i]) by {
        assert(window_encodable(m.windows.windows[i]));
    }
    lemma_enc_windows_len(ws);
    lemma_enc_tones_len(ws);
}

// ---------------------------------------------------------------------------
// Encoding
// ---------------------------------------------------------------------------

/// Write a peak luminance table.
fn encode_actual_peak_luminance(w: &mut BitWriter, lum: &ActualPeakLuminance)
    requires
        old(w).wf(),
        old(w).written().len() + enc_apl(*lum).len() <= max_payload_bits(),
    ensures
        final(w).wf(),
        final(w).written() == old(w).written() + enc_apl(*lum),
{
    let ghost w0 = w.written();
    proof {
        lemma_layout_widths();
        lemma_enc_apl_len(*lum);
        lemma_enc_fields_len(seq![lum.num_rows as u32, lum.num_cols as u32], APL_DIM_FIELDS@);
    }
    let dims = [lum.num_rows as u32, lum.num_cols as u32];
    assert(dims@ =~= seq![lum.num_rows as u32, lum.num_cols as u32]);
    write_fields(w, &dims, &APL_DIM_FIELDS);
    let ghost w1 = w.written();
    let n_rows: u8 = if lum.num_rows < 25 {
        lum.num_rows
    } else {
        25
    };
    let n_cols: u8 = if lum.num_cols < 25 {
        lum.num_cols
    } else {
        25
    };
    let mut widths: Vec<u8> = Vec::new();
    let mut j: u8 = 0;
    while j < n_cols
        invariant
            j <= n_cols,
            widths@ == apl_row_widths(j as nat),
        decreases n_cols - j,
    {
        widths.push(4);
        j = j + 1;
        assert(widths@ =~= apl_row_widths(j as nat));
    }
    let ghost rows = apl_rows(*lum);
    proof {
        lemma_apl_row_widths_sum(n_cols as nat);
    }
    let mut i: u8 = 0;
    assert(rows.take(0) =~= Seq::<Seq<u32>>::empty());
    while i < n_rows
        invariant
            w.wf(),
            n_rows <= 25,
            n_cols <= 25,
            n_rows as nat == min25(lum.num_rows as nat),
            n_cols as nat == min25(lum.num_cols as nat),
            rows == apl_rows(*lum),
            widths@ == apl_row_widths(n_cols as nat),
            widths_ok(widths@),
            width_sum(widths@) == 4 * n_cols,
            i <= n_rows,
            w1.len() + enc_groups(rows, widths@).len() <= max_payload_bits(),
            w.written() == w1 + enc_groups(rows.take(i as int), widths@),
        decreases n_rows - i,
    {
        let mut vals: Vec<u32> = Vec::new();
        let mut j: u8 = 0;
        while j < n_cols
            invariant
                n_cols <= 25,
                i < n_rows <= 25,
                j <= n_cols,
                vals@ == Seq::new(j as nat, |k: int| lum.entries[i as int][k] as u32),
            decreases n_cols - j,
        {
            vals.push(lum.entries[i as usize][j as usize] as u32);
            j = j + 1;
            assert(vals@ =~= Seq::new(j as nat, |k: int| lum.entries[i as int][k] as u32));
        }
        proof {
            assert(vals@ =~= rows[i as int]);
            assert(rows.take(i + 1).drop_last() =~= rows.take(i as int));
            lemma_enc_groups_len(rows.take(i as int), widths@);
            lemma_enc_groups_len(rows, widths@);
            assert(i * (4 * n_cols) + 4 * n_cols == (i + 1) * (4 * n_cols)) by (nonlinear_arith);
            assert((i + 1) * (4 * n_cols) <= n_rows * (4 * n_cols)) by (nonlinear_arith)
                requires
                    i + 1 <= n_rows,
            ;
        }
        write_fields(w, vals.as_slice(), widths.as_slice());
        i = i + 1;
    }
    assert(rows.take(n_rows as int) =~= rows);
}

/// Write a window's first-pass fields.
fn encode_window(w: &mut BitWriter, win: &Hdr10PlusWindow)
    requires
        old(w).wf(),
        win.distribution_maxrgb.count <= 15,
        old(w).written().len() + enc_window(*win).len() <= max_payload_bits(),
    ensures
        final(w).wf(),
        final(w).written() == old(w).written() + enc_window(*win),
{
    let ghost w0 = w.written();
    proof {
        lemma_layout_widths();
        lemma_enc_window_len(*win);
        lemma_enc_fields_len(window_vals(*win), WINDOW_FIELDS@);
        lemma_enc_groups_len(dist_groups(win.distribution_maxrgb), DIST_FIELDS@);
    }
    let vals = [
        win.upper_left_corner_x as u32,
        win.upper_left_corner_y as u32,
        win.lower_right_corner_x as u32,
        win.lower_right_corner_y as u32,
        win.center_of_ellipse_x as u32,
        win.center_of_ellipse_y as u32,
        win.rotation_angle as u32,
        win.semimajor_axis_internal_ellipse as u32,
        win.semimajor_axis_external_ellipse as u32,
        win.semiminor_axis_external_ellipse as u32,
        if win.overlap_process_option {
            1
        } else {
            0
        },
        win.maxscl[0],
        win.maxscl[1],
        win.maxscl[2],
        win.average_maxrgb,
    ];
    assert(vals@ =~= window_vals(*win));
    write_fields(w, &vals, &WINDOW_FIELDS);
    let count = win.distribution_maxrgb.count;
    w.write_u8(count, 4);
    let ghost w1 = w.written();
    let ghost gs = dist_groups(win.distribution_maxrgb);
    let mut i: u8 = 0;
    assert(gs.take(0) =~= Seq::<Seq<u32>>::empty());
    while i < count
        invariant
            w.wf(),
            count == win.distribution_maxrgb.count,
            count <= 15,
            gs == dist_groups(win.distribution_maxrgb),
            widths_ok(DIST_FIELDS@),
            width_sum(DIST_FIELDS@) == 24,
            i <= count,
            w1.len() + 24 * count + 10 <= max_payload_bits(),
            w.written() == w1 + enc_groups(gs.take(i as int), DIST_FIELDS@),
        decreases count - i,
    {
        let entry = [
            win.distribution_maxrgb.percentages[i as usize] as u32,
            win.distribution_maxrgb.percentiles[i as usize],
        ];
        proof {
            assert(entry@ =~= gs[i as int]);
            assert(gs.take(i + 1).drop_last() =~= gs.take(i as int));
            lemma_enc_groups_len(gs.take(i as int), DIST_FIELDS@);
        }
        write_fields(w, &entry, &DIST_FIELDS);
        i = i + 1;
    }
    assert(gs.take(count as int) =~= gs);
    w.write_u16(win.fraction_bright_pixels, 10);
}

/// Write a window's tone-mapping parameters.
fn encode_tone(w: &mut BitWriter, win: &Hdr10PlusWindow)
    requires
        old(w).wf(),
        window_encodable(*win),
        old(w).written().len() + enc_tone(*win).len() <= max_payload_bits(),
    ensures
        final(w).wf(),
        final(w).written() == old(w).written() + enc_tone(*win),
{
    proof {
        lemma_layout_widths();
        lemma_enc_tone_len(*win);
    }
    w.write_bool(win.tone_mapping_flag);
    if win.tone_mapping_flag {
        let count = win.bezier_curve_anchors.count;
        match &win.knee_point {
            Some(kp) => {
                let knee = [kp.x as u32, kp.y as u32, count as u32];
                assert(knee@ =~= seq![kp.x as u32, kp.y as u32, count as u32]);
                proof {
                    lemma_enc_fields_len(knee@, KNEE_FIELDS@);
                }
                write_fields(w, &knee, &KNEE_FIELDS);
            },
            None => {
                w.write_u8(count, 4);
            },
        }
        let ghost w1 = w.written();
        let ghost gs = anchor_groups(win.bezier_curve_anchors);
        proof {
            lemma_enc_groups_len(gs, ANCHOR_FIELDS@);
        }
        let mut i: u8 = 0;
        assert(gs.take(0) =~= Seq::<Seq<u32>>::empty());
        while i < count
            invariant
                w.wf(),
                count == win.bezier_curve_anchors.count,
                count <= 9,
                gs == anchor_groups(win.bezier_curve_anchors),
                widths_ok(ANCHOR_FIELDS@),
                width_sum(ANCHOR_FIELDS@) == 10,
                i <= count,
                w1.len() + 10 * count <= max_payload_bits(),
                w.written() == w1 + enc_groups(gs.take(i as int), ANCHOR_FIELDS@),
            decreases count - i,
        {
            let entry = [win.bezier_curve_anchors.anchors[i as usize] as u32];
            proof {
                assert(entry@ =~= gs[i as int]);
                assert(gs.take(i + 1).drop_last() =~= gs.take(i as int));
                lemma_enc_groups_len(gs.take(i as int), ANCHOR_FIELDS@);
            }
            write_fields(w, &entry, &ANCHOR_FIELDS);
            i = i + 1;
        }
        assert(gs.take(count as int) =~= gs);
    }
    assert(w.written() =~= old(w).written() + enc_tone(*win));
}

impl Hdr10PlusMetadata {
    /// Serialize this metadata with a [`BitWriter`].
    ///
    /// Returns `(buf, len)` — the populated prefix of `buf`; the last byte is
    /// zero-padded.
    pub fn encode(&self) -> (r: ([u8; MAX_DYNAMIC_HDR_PAYLOAD], usize))
        requires
            hdr10plus_encodable(*self),
        ensures
            enc_hdr10plus(*self).len() <= max_payload_bits(),
            r.1 == (enc_hdr10plus(*self).len() + 7) / 8,
            bits_of_bytes(r.0@) == enc_hdr10plus(*self) + zero_bits(
                max_payload_bits() - enc_hdr10plus(*self).len(),
            ),
    {
        proof {
            lemma_layout_widths();
            lemma_enc_hdr10plus_len(*self);
            lemma_enc_fields_len(
                seq![self.application_identifier as u32, self.application_mode as u32],
                HEAD_FIELDS@,
            );
            lemma_enc_fields_len(
                seq![
                    self.targeted_system_display_maximum_luminance,
                    flag_val(self.targeted_system_display_actual_peak_luminance_flag),
                ],
                LUM_FIELDS@,
            );
            lemma_enc_opt_apl_len(self.targeted_system_display_actual_peak_luminance);
            lemma_enc_opt_apl_len(self.mastering_display_actual_peak_luminance);
        }
        let mut w = BitWriter::new();
        let head = [self.application_identifier as u32, self.application_mode as u32];
        assert(head@ =~= seq![self.application_identifier as u32, self.application_mode as u32]);
        write_fields(&mut w, &head, &HEAD_FIELDS);
        if self.application_mode == 1 {
            w.write_bool(self.scene_frame_switching_flag);
        }
        w.write_u8(0, 2);  // 2 reserved bits
        let lum = [
            self.targeted_system_display_maximum_luminance,
            if self.targeted_system_display_actual_peak_luminance_flag {
                1
            } else {
                0
            },
        ];
        assert(lum@ =~= seq![
            self.targeted_system_display_maximum_luminance,
            flag_val(self.targeted_system_display_actual_peak_luminance_flag),
        ]);
        write_fields(&mut w, &lum, &LUM_FIELDS);
        if let Some(l) = &self.targeted_system_display_actual_peak_luminance {
            encode_actual_peak_luminance(&mut w, l);
        }
        let count = self.windows.count;
        w.write_u8(count - 1, 2);  // stored as count − 1
        let ghost ws = used_windows(*self);
        let ghost w1 = w.written();
        let mut i: u8 = 0;
        assert(ws.take(0) =~= Seq::<Hdr10PlusWindow>::empty());
        while i < count
            invariant
                w.wf(),
                count == self.windows.count,
                hdr10plus_encodable(*self),
                ws == used_windows(*self),
                i <= count,
                w1.len() + enc_windows(ws).len() <= max_payload_bits(),
                w.written() == w1 + enc_windows(ws.take(i as int)),
            decreases count - i,
        {
            proof {
                assert(window_encodable(self.windows.windows[i as int]));
                assert(ws.take(i + 1).drop_last() =~= ws.take(i as int));
                assert(ws.take(i + 1).last() == self.windows.windows[i as int]);
                assert forall|k: int| 0 <= k < ws.len() implies window_encodable(#[trigger] ws[k]) by {
                    assert(window_encodable(self.windows.windows[k]));
                }
                lemma_enc_windows_prefix_len(ws, i + 1);
            }
            encode_window(&mut w, &self.windows.windows[i as usize]);
            i = i + 1;
        }
        assert(ws.take(count as int) =~= ws);
        w.write_bool(self.mastering_display_actual_peak_luminance_flag);
        if let Some(l) = &self.mastering_display_actual_peak_luminance {
            encode_actual_peak_luminance(&mut w, l);
        }
        // Tone-mapping second pass.
        let ghost w2 = w.written();
        let mut i: u8 = 0;
        assert(ws.take(0) =~= Seq::<Hdr10PlusWindow>::empty());
        while i < count
            invariant
                w.wf(),
                count == self.windows.count,
                hdr10plus_encodable(*self),
                ws == used_windows(*self),
                i <= count,
                w2.len() + enc_tones(ws).len() <= max_payload_bits(),
                w.written() == w2 + enc_tones(ws.take(i as int)),
            decreases count - i,
        {
            proof {
                assert(window_encodable(self.windows.windows[i as int]));
                assert(ws.take(i + 1).drop_last() =~= ws.take(i as int));
                assert(ws.take(i + 1).last() == self.windows.windows[i as int]);
                assert forall|k: int| 0 <= k < ws.len() implies window_encodable(#[trigger] ws[k]) by {
                    assert(window_encodable(self.windows.windows[k]));
                }
                lemma_enc_tones_prefix_len(ws, i + 1);
            }
            encode_tone(&mut w, &self.windows.windows[i as usize]);
            i = i + 1;
        }
        assert(ws.take(count as int) =~= ws);
        w.write_bool(self.color_saturation_mapping_flag);
        if let Some(weight) = self.color_saturation_weight {
            w.write_u8(weight, 6);
        }
        assert(w.written() =~= enc_hdr10plus(*self));
        w.finish()
    }
}

/// The bits of a prefix of the windows are no longer than those of all.
proof fn lemma_enc_windows_prefix_len(ws: Seq<Hdr10PlusWindow>, j: int)
    requires
        0 <= j <= ws.len(),
    ensures
        enc_windows(ws.take(j)).len() <= enc_windows(ws).len(),
    decreases ws.len(),
{
    if j < ws.len() {
        assert(ws.drop_last().take(j) =~= ws.take(j));
        lemma_enc_windows_prefix_len(ws.drop_last(), j);
    } else {
        assert(ws.take(j) =~= ws);
    }
}

/// The bits of a prefix of the tone parameters are no longer than those of
/// all.
proof fn lemma_enc_tones_prefix_len(ws: Seq<Hdr10PlusWindow>, j: int)
    requires
        0 <= j <= ws.len(),
    ensures
        enc_tones(ws.take(j)).len() <= enc_tones(ws).len(),
    decreases ws.len(),
{
    if j < ws.len() {
        assert(ws.drop_last().take(j) =~= ws.take(j));
        lemma_enc_tones_prefix_len(ws.drop_last(), j);
    } else {
        assert(ws.take(j) =~= ws);
    }
}

} // verus!

verus! {

// ---------------------------------------------------------------------------
// Laws
// ---------------------------------------------------------------------------

/// A peak luminance table that survives a round trip: at most 25 rows and
/// columns, the carried entries fit 4 bits and every other entry is zero.
pub open spec fn apl_wf(l: ActualPeakLuminance) -> bool {
    &&& l.num_rows <= 25
    &&& l.num_cols <= 25
    &&& forall|i: int, j: int|
        0 <= i < 25 && 0 <= j < 25 ==> if i < l.num_rows && j < l.num_cols {
            #[trigger] l.entries[i][j] < 16
        } else {
            l.entries[i][j] == 0
        }
}

/// An optional table whose presence matches its flag and which survives a
/// round trip.
pub open spec fn opt_apl_wf(flag: bool, o: Option<ActualPeakLuminance>) -> bool {
    &&& flag == o is Some
    &&& o matches Some(l) ==> apl_wf(l)
}

/// A window that survives a round trip: every field fits its width, unused
/// slots are zero, and the knee point and anchors are present exactly when
/// tone mapping is on.
pub open spec fn window_wf(w: Hdr10PlusWindow) -> bool {
    let d = w.distribution_maxrgb;
    let b = w.bezier_curve_anchors;
    &&& window_encodable(w)
    &&& forall|k: int| 0 <= k < 3 ==> #[trigger] w.maxscl[k] < 0x20000
    &&& w.average_maxrgb < 0x20000
    &&& w.fraction_bright_pixels < 1024
    &&& forall|k: int|
        0 <= k < 15 ==> if k < d.count {
            #[trigger] d.percentages[k] < 128 && d.percentiles[k] < 0x20000
        } else {
            d.percentages[k] == 0 && d.percentiles[k] == 0
        }
    &&& if w.tone_mapping_flag {
        &&& w.knee_point matches Some(kp) && kp.x < 4096 && kp.y < 4096
        &&& forall|k: int|
            0 <= k < 9 ==> if k < b.count {
                #[trigger] b.anchors[k] < 1024
            } else {
                b.anchors[k] == 0
            }
    } else {
        &&& w.knee_point is None
        &&& b == zero_anchors()
    }
}

/// HDR10+ metadata that survives a round trip: encodable, every field fits its
/// width, optional parts present exactly when flagged, unused window slots
/// all-zero, and no switching flag outside frame-based mode.
pub open spec fn hdr10plus_wf(m: Hdr10PlusMetadata) -> bool {
    &&& hdr10plus_encodable(m)
    &&& m.application_mode != 1 ==> !m.scene_frame_switching_flag
    &&& m.targeted_system_display_maximum_luminance < 0x8000000
    &&& opt_apl_wf(
        m.targeted_system_display_actual_peak_luminance_flag,
        m.targeted_system_display_actual_peak_luminance,
    )
    &&& opt_apl_wf(
        m.mastering_display_actual_peak_luminance_flag,
        m.mastering_display_actual_peak_luminance,
    )
    &&& forall|i: int| 0 <= i < m.windows.count ==> window_wf(#[trigger] m.windows.windows[i])
    &&& forall|i: int| m.windows.count <= i < 3 ==> #[trigger] m.windows.windows[i] == zero_window()
    &&& m.color_saturation_mapping_flag == m.color_saturation_weight is Some
    &&& m.color_saturation_weight matches Some(wt) ==> wt < 64
}

/// The warnings decoding well-formed encoded metadata records: only an
/// application mode above 1.
pub open spec fn hdr10plus_mode_warnings(m: Hdr10PlusMetadata) -> Seq<DynamicHdrWarning> {
    if m.application_mode > 1 {
        seq![
            DynamicHdrWarning::UnknownEnumValue {
                field: "application_mode",
                raw: m.application_mode,
            },
        ]
    } else {
        Seq::empty()
    }
}

/// A window with its tone-mapping parameters cleared, as the first pass reads
/// it.
pub open spec fn first_pass(w: Hdr10PlusWindow) -> Hdr10PlusWindow {
    with_tone(w, (false, None, zero_anchors()))
}

/// A peak luminance table is read back from its bits.
proof fn lemma_apl_round_trip(bits: Seq<bool>, p: int, l: ActualPeakLuminance)
    requires
        apl_wf(l),
        holds_at(bits, p, enc_apl(l)),
    ensures
        parse_apl(bits, p) == Some((l, p + enc_apl(l).len())),
{
    lemma2_to64();
    lemma_layout_widths();
    let dims = seq![l.num_rows as u32, l.num_cols as u32];
    let c = min25(l.num_cols as nat);
    let r = min25(l.num_rows as nat);
    let rows = apl_rows(l);
    let ws = apl_row_widths(c);
    lemma_holds_at_split(bits, p, enc_fields(dims, APL_DIM_FIELDS@), enc_groups(rows, ws));
    assert(fields_fit(dims, APL_DIM_FIELDS@));
    lemma_fields_round_trip(bits, p, dims, APL_DIM_FIELDS@);
    lemma_apl_row_widths_sum(c);
    assert(groups_fit(rows, ws)) by {
        assert forall|i: int| 0 <= i < rows.len() implies fields_fit(#[trigger] rows[i], ws) by {
            assert forall|j: int| 0 <= j < ws.len() implies #[trigger] ws[j] <= 32 && rows[i][j]
                < pow2(ws[j] as nat) by {
                assert(l.entries[i][j] < 16);
            }
        }
    }
    lemma_groups_round_trip(bits, p + 10, rows, ws);
    // The entries rebuilt from the rows are the table's own.
    assert forall|i: int| 0 <= i < 25 implies apl_row_of(rows, i) == #[trigger] l.entries[i] by {
        lemma_array_of(l.entries[i]);
        assert(l.entries[i]@ =~= Seq::new(
            25,
            |j: int|
                if i < rows.len() && j < rows[i].len() {
                    rows[i][j] as u8
                } else {
                    0u8
                },
        )) by {
            assert forall|j: int| 0 <= j < 25 implies #[trigger] l.entries[i]@[j] == (if i
                < rows.len() && j < rows[i].len() {
                rows[i][j] as u8
            } else {
                0u8
            }) by {
                if i < r && j < c {
                    assert(l.entries[i][j] < 16);
                } else {
                    assert(l.entries[i][j] == 0);
                }
            }
        }
    }
    lemma_array_of(l.entries);
    assert(Seq::new(25, |i: int| apl_row_of(rows, i)) =~= l.entries@);
}

/// An optional peak luminance table is read back from its bits.
proof fn lemma_opt_apl_round_trip(
    bits: Seq<bool>,
    p: int,
    flag: bool,
    o: Option<ActualPeakLuminance>,
)
    requires
        opt_apl_wf(flag, o),
        holds_at(bits, p, enc_opt_apl(o)),
    ensures
        parse_opt_apl(bits, p, flag) == Some((o, p + enc_opt_apl(o).len())),
{
    if let Some(l) = o {
        lemma_apl_round_trip(bits, p, l);
    }
}

} // verus!

verus! {

/// A window's first-pass fields are read back from its bits.
#[verifier::spinoff_prover]
proof fn lemma_window_round_trip(bits: Seq<bool>, p: int, w: Hdr10PlusWindow)
    requires
        window_wf(w),
        holds_at(bits, p, enc_window(w)),
    ensures
        parse_window(bits, p) == Some((first_pass(w), p + enc_window(w).len())),
{
    lemma2_to64();
    lemma_layout_widths();
    let d = w.distribution_maxrgb;
    let vals = window_vals(w);
    let gs = dist_groups(d);
    let a = enc_fields(vals, WINDOW_FIELDS@);
    let b = bits_of(d.count as u32, 4);
    let c = enc_groups(gs, DIST_FIELDS@);
    let e = bits_of(w.fraction_bright_pixels as u32, 10);
    lemma_holds_at_split(bits, p, a + b + c, e);
    lemma_holds_at_split(bits, p, a + b, c);
    lemma_holds_at_split(bits, p, a, b);
    assert(fields_fit(vals, WINDOW_FIELDS@)) by {
        assert(w.maxscl[0] < 0x20000);
        assert(w.maxscl[1] < 0x20000);
        assert(w.maxscl[2] < 0x20000);
    }
    lemma_fields_round_trip(bits, p, vals, WINDOW_FIELDS@);
    lemma_read_field(bits, p + 221, d.count as u32, 4);
    assert(groups_fit(gs, DIST_FIELDS@)) by {
        assert forall|i: int| 0 <= i < gs.len() implies fields_fit(#[trigger] gs[i], DIST_FIELDS@) by {
            assert(0 <= i < d.count && d.count <= 15);
            assert(d.percentages[i] < 128 && d.percentiles[i] < 0x20000);
        }
    }
    lemma_groups_round_trip(bits, p + 225, gs, DIST_FIELDS@);
    lemma_enc_groups_len(gs, DIST_FIELDS@);
    lemma_read_field(bits, p + 225 + c.len(), w.fraction_bright_pixels as u32, 10);
    // The rebuilt parts are the window's own.
    lemma_array_of(w.maxscl);
    assert(w.maxscl@ =~= seq![vals[11], vals[12], vals[13]]);
    lemma_array_of(d.percentages);
    lemma_array_of(d.percentiles);
    assert(d.percentages@ =~= pad(Seq::new(gs.len(), |i: int| gs[i][0] as u8), 15, 0u8)) by {
        assert forall|k: int| 0 <= k < 15 implies #[trigger] d.percentages@[k] == pad(
            Seq::new(gs.len(), |i: int| gs[i][0] as u8),
            15,
            0u8,
        )[k] by {
            assert(d.percentages[k] < 128 || d.percentages[k] == 0);
        }
    }
    assert(d.percentiles@ =~= pad(Seq::new(gs.len(), |i: int| gs[i][1]), 15, 0u32)) by {
        assert forall|k: int| 0 <= k < 15 implies #[trigger] d.percentiles@[k] == pad(
            Seq::new(gs.len(), |i: int| gs[i][1]),
            15,
            0u32,
        )[k] by {
            assert(d.percentages[k] < 128 || d.percentages[k] == 0);
            assert(d.percentiles[k] < 0x20000 || d.percentiles[k] == 0);
        }
    }
    assert(distribution_of(d.count, gs) == d);
}

/// A window's tone-mapping parameters are read back from their bits.
proof fn lemma_tone_round_trip(bits: Seq<bool>, p: int, w: Hdr10PlusWindow)
    requires
        window_wf(w),
        holds_at(bits, p, enc_tone(w)),
    ensures
        parse_tone(bits, p) == Some(
            (
                (w.tone_mapping_flag, w.knee_point, w.bezier_curve_anchors),
                p + enc_tone(w).len(),
            ),
        ),
{
    lemma2_to64();
    lemma_layout_widths();
    let f = bits_of(flag_val(w.tone_mapping_flag), 1);
    if w.tone_mapping_flag {
        let kp = w.knee_point.unwrap();
        let b = w.bezier_curve_anchors;
        let kv = seq![kp.x as u32, kp.y as u32, b.count as u32];
        let gs = anchor_groups(b);
        let k = enc_fields(kv, KNEE_FIELDS@);
        let g = enc_groups(gs, ANCHOR_FIELDS@);
        assert(enc_tone(w) =~= f + k + g);
        lemma_holds_at_split(bits, p, f + k, g);
        lemma_holds_at_split(bits, p, f, k);
        lemma_read_field(bits, p, 1, 1);
        assert(fields_fit(kv, KNEE_FIELDS@));
        lemma_fields_round_trip(bits, p + 1, kv, KNEE_FIELDS@);
        assert(groups_fit(gs, ANCHOR_FIELDS@)) by {
            assert forall|i: int| 0 <= i < gs.len() implies fields_fit(#[trigger] gs[i], ANCHOR_FIELDS@) by {
                assert(b.anchors[i] < 1024);
            }
        }
        lemma_groups_round_trip(bits, p + 29, gs, ANCHOR_FIELDS@);
        lemma_array_of(b.anchors);
        assert(b.anchors@ =~= pad(Seq::new(gs.len(), |i: int| gs[i][0] as u16), 9, 0u16)) by {
            assert forall|k: int| 0 <= k < 9 implies #[trigger] b.anchors@[k] == pad(
                Seq::new(gs.len(), |i: int| gs[i][0] as u16),
                9,
                0u16,
            )[k] by {
                assert(b.anchors[k] < 1024 || b.anchors[k] == 0);
            }
        }
        assert(anchors_of(b.count, gs) == b);
    } else {
        assert(enc_tone(w) =~= f);
        lemma_read_field(bits, p, 0, 1);
    }
}

/// Several windows' first-pass fields are read back from their bits.
proof fn lemma_windows_round_trip(bits: Seq<bool>, p: int, ws: Seq<Hdr10PlusWindow>)
    requires
        forall|i: int| 0 <= i < ws.len() ==> window_wf(#[trigger] ws[i]),
        holds_at(bits, p, enc_windows(ws)),
    ensures
        parse_windows(bits, p, ws.len()) == Some(
            (Seq::new(ws.len(), |i: int| first_pass(ws[i])), p + enc_windows(ws).len()),
        ),
    decreases ws.len(),
{
    if ws.len() == 0 {
        assert(Seq::new(ws.len(), |i: int| first_pass(ws[i])) =~= Seq::<Hdr10PlusWindow>::empty());
    } else {
        let a = enc_windows(ws.drop_last());
        lemma_holds_at_split(bits, p, a, enc_window(ws.last()));
        assert forall|i: int| 0 <= i < ws.drop_last().len() implies window_wf(
            #[trigger] ws.drop_last()[i],
        ) by {
            assert(window_wf(ws[i]));
        }
        lemma_windows_round_trip(bits, p, ws.drop_last());
        assert(window_wf(ws[ws.len() - 1]));
        lemma_window_round_trip(bits, p + a.len(), ws.last());
        assert(Seq::new(ws.drop_last().len(), |i: int| first_pass(ws.drop_last()[i])).push(
            first_pass(ws.last()),
        ) =~= Seq::new(ws.len(), |i: int| first_pass(ws[i])));
    }
}

/// Several windows' tone-mapping parameters are read back from their bits.
proof fn lemma_tones_round_trip(bits: Seq<bool>, p: int, ws: Seq<Hdr10PlusWindow>)
    requires
        forall|i: int| 0 <= i < ws.len() ==> window_wf(#[trigger] ws[i]),
        holds_at(bits, p, enc_tones(ws)),
    ensures
        parse_tones(bits, p, ws.len()) == Some(
            (
                Seq::new(
                    ws.len(),
                    |i: int|
                        (ws[i].tone_mapping_flag, ws[i].knee_point, ws[i].bezier_curve_anchors),
                ),
                p + enc_tones(ws).len(),
            ),
        ),
    decreases ws.len(),
{
    let target = Seq::new(
        ws.len(),
        |i: int| (ws[i].tone_mapping_flag, ws[i].knee_point, ws[i].bezier_curve_anchors),
    );
    if ws.len() == 0 {
        assert(target =~= Seq::<ToneMapping>::empty());
    } else {
        let a = enc_tones(ws.drop_last());
        lemma_holds_at_split(bits, p, a, enc_tone(ws.last()));
        assert forall|i: int| 0 <= i < ws.drop_last().len() implies window_wf(
            #[trigger] ws.drop_last()[i],
        ) by {
            assert(window_wf(ws[i]));
        }
        lemma_tones_round_trip(bits, p, ws.drop_last());
        assert(window_wf(ws[ws.len() - 1]));
        lemma_tone_round_trip(bits, p + a.len(), ws.last());
        assert(Seq::new(
            ws.drop_last().len(),
            |i: int|
                (
                    ws.drop_last()[i].tone_mapping_flag,
                    ws.drop_last()[i].knee_point,
                    ws.drop_last()[i].bezier_curve_anchors,
                ),
        ).push((ws.last().tone_mapping_flag, ws.last().knee_point, ws.last().bezier_curve_anchors))
            =~= target);
    }
}

} // verus!

verus! {

/// The window array is rebuilt from the first-pass windows and their
/// tone-mapping parameters.
proof fn lemma_windows_of_used(m: Hdr10PlusMetadata)
    requires
        hdr10plus_wf(m),
    ensures
        windows_of(
            Seq::new(m.windows.count as nat, |i: int| first_pass(used_windows(m)[i])),
            Seq::new(
                m.windows.count as nat,
                |i: int|
                    (
                        used_windows(m)[i].tone_mapping_flag,
                        used_windows(m)[i].knee_point,
                        used_windows(m)[i].bezier_curve_anchors,
                    ),
            ),
        ) == m.windows.windows,
{
    let ws = used_windows(m);
    let fp = Seq::new(m.windows.count as nat, |i: int| first_pass(ws[i]));
    let ts = Seq::new(
        m.windows.count as nat,
        |i: int| (ws[i].tone_mapping_flag, ws[i].knee_point, ws[i].bezier_curve_anchors),
    );
    lemma_array_of(m.windows.windows);
    assert forall|i: int| 0 <= i < 3 implies #[trigger] m.windows.windows@[i] == (if i < fp.len() {
        with_tone(fp[i], ts[i])
    } else {
        zero_window()
    }) by {
        if i >= m.windows.count {
            assert(m.windows.windows[i] == zero_window());
        }
    }
    assert(m.windows.windows@ =~= Seq::new(
        3,
        |i: int|
            if i < fp.len() {
                with_tone(fp[i], ts[i])
            } else {
                zero_window()
            },
    ));
}

/// The bits before the window list.
pub open spec fn enc_head(m: Hdr10PlusMetadata) -> Seq<bool> {
    enc_fields(seq![m.application_identifier as u32, m.application_mode as u32], HEAD_FIELDS@)
        + (if m.application_mode == 1 {
        bits_of(flag_val(m.scene_frame_switching_flag), 1)
    } else {
        Seq::empty()
    }) + bits_of(0u32, 2) + enc_fields(
        seq![
            m.targeted_system_display_maximum_luminance,
            flag_val(m.targeted_system_display_actual_peak_luminance_flag),
        ],
        LUM_FIELDS@,
    ) + enc_opt_apl(m.targeted_system_display_actual_peak_luminance)
}

/// The fields before the window list are read back from their bits, with
/// only the application-mode warning.
proof fn lemma_head_round_trip(bits: Seq<bool>, m: Hdr10PlusMetadata)
    requires
        hdr10plus_wf(m),
        holds_at(bits, 0, enc_head(m)),
    ensures
        parse_head(bits) == Some(
            (
                (
                    m.application_identifier,
                    m.application_mode,
                    m.scene_frame_switching_flag,
                    m.targeted_system_display_maximum_luminance,
                    m.targeted_system_display_actual_peak_luminance_flag,
                    m.targeted_system_display_actual_peak_luminance,
                ),
                enc_head(m).len() as int,
            ),
        ),
        hdr10plus_warnings(bits) == hdr10plus_mode_warnings(m),
{
    lemma2_to64();
    lemma_layout_widths();
    let hv = seq![m.application_identifier as u32, m.application_mode as u32];
    let lv = seq![
        m.targeted_system_display_maximum_luminance,
        flag_val(m.targeted_system_display_actual_peak_luminance_flag),
    ];
    let e1 = enc_fields(hv, HEAD_FIELDS@);
    let e2 = if m.application_mode == 1 {
        bits_of(flag_val(m.scene_frame_switching_flag), 1)
    } else {
        Seq::<bool>::empty()
    };
    let e3 = bits_of(0u32, 2);
    let e4 = enc_fields(lv, LUM_FIELDS@);
    let e5 = enc_opt_apl(m.targeted_system_display_actual_peak_luminance);
    lemma_holds_at_split(bits, 0, e1 + e2 + e3 + e4, e5);
    lemma_holds_at_split(bits, 0, e1 + e2 + e3, e4);
    lemma_holds_at_split(bits, 0, e1 + e2, e3);
    lemma_holds_at_split(bits, 0, e1, e2);
    assert(fields_fit(hv, HEAD_FIELDS@));
    lemma_fields_round_trip(bits, 0, hv, HEAD_FIELDS@);
    let q1 = 16int;
    if m.application_mode == 1 {
        lemma_read_field(bits, q1, flag_val(m.scene_frame_switching_flag), 1);
    }
    let q2 = q1 + e2.len();
    lemma_bits_of_zero(2);
    assert(!bits[q2] && !bits[q2 + 1]) by {
        assert(bits[q2] == bits.subrange(q2, q2 + 2)[0]);
        assert(bits[q2 + 1] == bits.subrange(q2, q2 + 2)[1]);
    }
    lemma_read_bit(bits, q2);
    lemma_read_bit(bits, q2 + 1);
    let q4 = q2 + 2;
    assert(fields_fit(lv, LUM_FIELDS@));
    lemma_fields_round_trip(bits, q4, lv, LUM_FIELDS@);
    lemma_opt_apl_round_trip(
        bits,
        q4 + 28,
        m.targeted_system_display_actual_peak_luminance_flag,
        m.targeted_system_display_actual_peak_luminance,
    );
    assert(hdr10plus_warnings(bits) =~= hdr10plus_mode_warnings(m));
}

/// Round trip: well-formed HDR10+ metadata, encoded and read back (whatever
/// bits follow the encoding), is the same metadata; the only warning recorded
/// is for an application mode above 1.
#[verifier::spinoff_prover]
#[verifier::rlimit(80)]
pub proof fn lemma_hdr10plus_round_trip(m: Hdr10PlusMetadata, tail: Seq<bool>)
    requires
        hdr10plus_wf(m),
    ensures
        hdr10plus_of_bits(enc_hdr10plus(m) + tail) == Some(m),
        hdr10plus_warnings(enc_hdr10plus(m) + tail) == hdr10plus_mode_warnings(m),
{
    lemma2_to64();
    let ws = used_windows(m);
    assert forall|i: int| 0 <= i < ws.len() implies window_wf(#[trigger] ws[i]) by {
        assert(window_wf(m.windows.windows[i]));
    }
    let e5 = enc_head(m);
    let e6 = bits_of((m.windows.count - 1) as u32, 2);
    let e7 = enc_windows(ws);
    let e8 = bits_of(flag_val(m.mastering_display_actual_peak_luminance_flag), 1);
    let e9 = enc_opt_apl(m.mastering_display_actual_peak_luminance);
    let e10 = enc_tones(ws);
    let e11 = bits_of(flag_val(m.color_saturation_mapping_flag), 1);
    let e12 = match m.color_saturation_weight {
        Some(wt) => bits_of(wt as u32, 6),
        None => Seq::<bool>::empty(),
    };
    let a6 = e5 + e6;
    let a7 = a6 + e7;
    let a8 = a7 + e8;
    let a9 = a8 + e9;
    let a10 = a9 + e10;
    let a11 = a10 + e11;
    let enc = a11 + e12;
    assert(enc =~= enc_hdr10plus(m));
    let bits = enc + tail;
    lemma_holds_at_prefix(enc, tail);
    lemma_holds_at_split(bits, 0, a11, e12);
    lemma_holds_at_split(bits, 0, a10, e11);
    lemma_holds_at_split(bits, 0, a9, e10);
    lemma_holds_at_split(bits, 0, a8, e9);
    lemma_holds_at_split(bits, 0, a7, e8);
    lemma_holds_at_split(bits, 0, a6, e7);
    lemma_holds_at_split(bits, 0, e5, e6);
    lemma_head_round_trip(bits, m);
    let q6 = e5.len() as int;
    lemma_read_field(bits, q6, (m.windows.count - 1) as u32, 2);
    lemma_windows_round_trip(bits, q6 + 2, ws);
    let q8 = a7.len() as int;
    lemma_read_field(bits, q8, flag_val(m.mastering_display_actual_peak_luminance_flag), 1);
    lemma_opt_apl_round_trip(
        bits,
        q8 + 1,
        m.mastering_display_actual_peak_luminance_flag,
        m.mastering_display_actual_peak_luminance,
    );
    lemma_tones_round_trip(bits, a9.len() as int, ws);
    let q11 = a10.len() as int;
    lemma_read_field(bits, q11, flag_val(m.color_saturation_mapping_flag), 1);
    if let Some(wt) = m.color_saturation_weight {
        lemma_read_field(bits, q11 + 1, wt as u32, 6);
    }
    lemma_windows_of_used(m);
}

/// A decoded peak luminance table is well formed.
proof fn lemma_parse_apl_wf(bits: Seq<bool>, p: int)
    requires
        parse_apl(bits, p) is Some,
    ensures
        apl_wf(parse_apl(bits, p).unwrap().0),
{
    lemma_layout_widths();
    lemma2_to64();
    let (d, p1) = parse_fields(bits, p, APL_DIM_FIELDS@).unwrap();
    let nr = d[0] as nat;
    let nc = d[1] as nat;
    let ws = apl_row_widths(nc);
    lemma_apl_row_widths_sum(nc);
    lemma_parse_groups_shape(bits, p1, nr, ws);
    lemma_parse_groups_fit(bits, p1, nr, ws);
    let rows = parse_groups(bits, p1, nr, ws).unwrap().0;
    let l = parse_apl(bits, p).unwrap().0;
    lemma_array_of_view::<[u8; 25], 25>(Seq::new(25, |i: int| apl_row_of(rows, i)));
    assert forall|i: int, j: int| 0 <= i < 25 && 0 <= j < 25 implies if i < l.num_rows && j
        < l.num_cols {
        #[trigger] l.entries[i][j] < 16
    } else {
        l.entries[i][j] == 0
    } by {
        let row = Seq::new(
            25,
            |k: int|
                if i < rows.len() && k < rows[i].len() {
                    rows[i][k] as u8
                } else {
                    0u8
                },
        );
        lemma_array_of_view::<u8, 25>(row);
        assert(l.entries[i] == apl_row_of(rows, i));
        if i < l.num_rows && j < l.num_cols {
            assert(fields_fit(rows[i], ws));
            assert(ws[j] == 4);
            assert(rows[i][j] < pow2(4));
        }
    }
}

/// A decoded optional peak luminance table is present exactly when flagged
/// and well formed.
proof fn lemma_parse_opt_apl_wf(bits: Seq<bool>, p: int, present: bool)
    requires
        parse_opt_apl(bits, p, present) is Some,
    ensures
        opt_apl_wf(present, parse_opt_apl(bits, p, present).unwrap().0),
{
    if present {
        lemma_parse_apl_wf(bits, p);
    }
}

/// The first-pass fields of a window fit their widths and its distribution
/// holds nothing past its count.
spec fn first_pass_wf(w: Hdr10PlusWindow) -> bool {
    let d = w.distribution_maxrgb;
    &&& d.count <= 15
    &&& forall|k: int| 0 <= k < 3 ==> #[trigger] w.maxscl[k] < 0x20000
    &&& w.average_maxrgb < 0x20000
    &&& w.fraction_bright_pixels < 1024
    &&& forall|k: int|
        0 <= k < 15 ==> if k < d.count {
            #[trigger] d.percentages[k] < 128 && d.percentiles[k] < 0x20000
        } else {
            d.percentages[k] == 0 && d.percentiles[k] == 0
        }
}

/// Tone-mapping parameters as decoding produces them.
spec fn tone_wf(t: ToneMapping) -> bool {
    if t.0 {
        &&& t.1 matches Some(kp) && kp.x < 4096 && kp.y < 4096
        &&& t.2.count <= 9
        &&& forall|k: int|
            0 <= k < 9 ==> if k < t.2.count {
                #[trigger] t.2.anchors[k] < 1024
            } else {
                t.2.anchors[k] == 0
            }
    } else {
        &&& t.1 is None
        &&& t.2 == zero_anchors()
    }
}

/// A decoded first-pass window fits its widths.
proof fn lemma_parse_window_wf(bits: Seq<bool>, p: int)
    requires
        parse_window(bits, p) is Some,
    ensures
        first_pass_wf(parse_window(bits, p).unwrap().0),
{
    lemma_layout_widths();
    lemma2_to64();
    let (vs, p1) = parse_fields(bits, p, WINDOW_FIELDS@).unwrap();
    lemma_parse_fields_fit(bits, p, WINDOW_FIELDS@);
    let (n, p2) = read_at(bits, p1, 4).unwrap();
    lemma_read_at_bound(bits, p1, 4);
    lemma_parse_groups_shape(bits, p2, n, DIST_FIELDS@);
    lemma_parse_groups_fit(bits, p2, n, DIST_FIELDS@);
    let (gs, p3) = parse_groups(bits, p2, n, DIST_FIELDS@).unwrap();
    lemma_read_at_bound(bits, p3, 10);
    let w = parse_window(bits, p).unwrap().0;
    assert(vs[11] < pow2(WINDOW_FIELDS@[11] as nat));
    assert(vs[12] < pow2(WINDOW_FIELDS@[12] as nat));
    assert(vs[13] < pow2(WINDOW_FIELDS@[13] as nat));
    assert(vs[14] < pow2(WINDOW_FIELDS@[14] as nat));
    lemma_array_of_view::<u32, 3>(seq![vs[11], vs[12], vs[13]]);
    let pcts = pad(Seq::new(gs.len(), |i: int| gs[i][0] as u8), 15, 0u8);
    let pctl = pad(Seq::new(gs.len(), |i: int| gs[i][1]), 15, 0u32);
    lemma_array_of_view::<u8, 15>(pcts);
    lemma_array_of_view::<u32, 15>(pctl);
    let d = w.distribution_maxrgb;
    assert forall|k: int| 0 <= k < 15 implies if k < d.count {
        #[trigger] d.percentages[k] < 128 && d.percentiles[k] < 0x20000
    } else {
        d.percentages[k] == 0 && d.percentiles[k] == 0
    } by {
        if k < d.count {
            assert(fields_fit(gs[k], DIST_FIELDS@));
            assert(gs[k][0] < pow2(DIST_FIELDS@[0] as nat));
            assert(gs[k][1] < pow2(DIST_FIELDS@[1] as nat));
        }
    }
    assert forall|k: int| 0 <= k < 3 implies #[trigger] w.maxscl[k] < 0x20000 by {}
}

/// Decoded tone-mapping parameters fit their widths.
proof fn lemma_parse_tone_wf(bits: Seq<bool>, p: int)
    requires
        parse_tone(bits, p) is Some,
    ensures
        tone_wf(parse_tone(bits, p).unwrap().0),
{
    lemma_layout_widths();
    lemma2_to64();
    let (f, p1) = read_at(bits, p, 1).unwrap();
    if f == 1 {
        let (k, p2) = parse_fields(bits, p1, KNEE_FIELDS@).unwrap();
        lemma_parse_fields_fit(bits, p1, KNEE_FIELDS@);
        assert(k[0] < pow2(KNEE_FIELDS@[0] as nat));
        assert(k[1] < pow2(KNEE_FIELDS@[1] as nat));
        lemma_parse_groups_shape(bits, p2, k[2] as nat, ANCHOR_FIELDS@);
        lemma_parse_groups_fit(bits, p2, k[2] as nat, ANCHOR_FIELDS@);
        let gs = parse_groups(bits, p2, k[2] as nat, ANCHOR_FIELDS@).unwrap().0;
        lemma_array_of_view::<u16, 9>(pad(Seq::new(gs.len(), |i: int| gs[i][0] as u16), 9, 0u16));
        let t = parse_tone(bits, p).unwrap().0;
        assert forall|j: int| 0 <= j < 9 implies if j < t.2.count {
            #[trigger] t.2.anchors[j] < 1024
        } else {
            t.2.anchors[j] == 0
        } by {
            if j < t.2.count {
                assert(fields_fit(gs[j], ANCHOR_FIELDS@));
                assert(gs[j][0] < pow2(ANCHOR_FIELDS@[0] as nat));
            }
        }
    }
}

/// Decoded first-pass windows: `k` of them, each fitting its widths.
proof fn lemma_parse_windows_wf(bits: Seq<bool>, p: int, k: nat)
    requires
        parse_windows(bits, p, k) is Some,
    ensures
        parse_windows(bits, p, k).unwrap().0.len() == k,
        forall|i: int|
            0 <= i < k ==> first_pass_wf(#[trigger] parse_windows(bits, p, k).unwrap().0[i]),
    decreases k,
{
    if k > 0 {
        lemma_parse_windows_wf(bits, p, (k - 1) as nat);
        let q = parse_windows(bits, p, (k - 1) as nat).unwrap().1;
        lemma_parse_window_wf(bits, q);
    }
}

/// Decoded tone-mapping parameters: `k` of them, each fitting its widths.
proof fn lemma_parse_tones_wf(bits: Seq<bool>, p: int, k: nat)
    requires
        parse_tones(bits, p, k) is Some,
    ensures
        parse_tones(bits, p, k).unwrap().0.len() == k,
        forall|i: int| 0 <= i < k ==> tone_wf(#[trigger] parse_tones(bits, p, k).unwrap().0[i]),
    decreases k,
{
    if k > 0 {
        lemma_parse_tones_wf(bits, p, (k - 1) as nat);
        let q = parse_tones(bits, p, (k - 1) as nat).unwrap().1;
        lemma_parse_tone_wf(bits, q);
    }
}

/// Decoded HDR10+ metadata is well formed: one to three windows and all-zero
/// unused window slots; per window, a knee point and anchors (at most nine)
/// exactly when tone mapping is on, a distribution of at most fifteen
/// entries, and every field within its width; each peak luminance table
/// present exactly when flagged, with at most 25 rows and columns; a colour
/// saturation weight below 64 exactly when flagged; and no switching flag
/// outside frame-based mode.
#[verifier::spinoff_prover]
#[verifier::rlimit(40)]
pub proof fn lemma_hdr10plus_decoded_wf(bits: Seq<bool>)
    requires
        hdr10plus_of_bits(bits) is Some,
    ensures
        hdr10plus_wf(hdr10plus_of_bits(bits).unwrap()),
{
    lemma_layout_widths();
    lemma2_to64();
    let m = hdr10plus_of_bits(bits).unwrap();
    let (hd, p6) = parse_head(bits).unwrap();
    let (h, p1) = parse_fields(bits, 0, HEAD_FIELDS@).unwrap();
    let (sfs, p2) = (if h[1] as u8 == 1 {
        read_at(bits, p1, 1)
    } else {
        Some((0nat, p1))
    }).unwrap();
    let p3 = p2 + 1;
    let p4 = p2 + 2;
    let (l, p5) = parse_fields(bits, p4, LUM_FIELDS@).unwrap();
    lemma_parse_fields_fit(bits, p4, LUM_FIELDS@);
    assert(l[0] < pow2(LUM_FIELDS@[0] as nat));
    lemma_parse_opt_apl_wf(bits, p5, l[1] == 1);
    let (nw, p7) = read_at(bits, p6, 2).unwrap();
    lemma_parse_windows_wf(bits, p7, nw + 1);
    let (ws, p8) = parse_windows(bits, p7, nw + 1).unwrap();
    let (mf, p9) = read_at(bits, p8, 1).unwrap();
    lemma_parse_opt_apl_wf(bits, p9, mf == 1);
    let p10 = parse_opt_apl(bits, p9, mf == 1).unwrap().1;
    lemma_parse_tones_wf(bits, p10, nw + 1);
    let (ts, p11) = parse_tones(bits, p10, nw + 1).unwrap();
    let (cf, p12) = read_at(bits, p11, 1).unwrap();
    if cf == 1 {
        lemma_read_at_bound(bits, p12, 6);
    }
    lemma_array_of_view::<Hdr10PlusWindow, 3>(
        Seq::new(3, |i: int| if i < ws.len() { with_tone(ws[i], ts[i]) } else { zero_window() }),
    );
    assert forall|i: int| 0 <= i < m.windows.count implies window_wf(
        #[trigger] m.windows.windows[i],
    ) by {
        assert(m.windows.windows[i] == with_tone(ws[i], ts[i]));
        assert(first_pass_wf(ws[i]));
        assert(tone_wf(ts[i]));
    }
    assert forall|i: int| m.windows.count <= i < 3 implies #[trigger] m.windows.windows[i]
        == zero_window() by {}
}

/// Encode then decode: the buffer [`Hdr10PlusMetadata::encode`] returns for well-formed metadata,
/// cut at the returned length, decodes back to the same metadata, with a warning only for an application mode above 1.
pub proof fn lemma_hdr10plus_encode_decode(m: Hdr10PlusMetadata, buf: Seq<u8>, len: int)
    requires
        hdr10plus_wf(m),
        buf.len() == MAX_DYNAMIC_HDR_PAYLOAD,
        bits_of_bytes(buf) == enc_hdr10plus(m) + zero_bits(max_payload_bits() - enc_hdr10plus(m).len()),
        len == (enc_hdr10plus(m).len() + 7) / 8,
    ensures
        0 <= len <= MAX_DYNAMIC_HDR_PAYLOAD,
        hdr10plus_of_bits(bits_of_bytes(buf.take(len))) == Some(m),
        hdr10plus_warnings(bits_of_bytes(buf.take(len))) == hdr10plus_mode_warnings(m),
{
    lemma_enc_hdr10plus_len(m);
    let e = enc_hdr10plus(m);
    let n = e.len() as int;
    assert(n <= max_payload_bits());
    lemma_bits_of_bytes_take(buf, len);
    let bits = bits_of_bytes(buf.take(len));
    assert(bits =~= e + zero_bits(len * 8 - n));
    lemma_hdr10plus_round_trip(m, zero_bits(len * 8 - n));
}

} // verus!
