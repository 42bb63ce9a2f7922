use vstd::prelude::*;

use display_types::cea861::hdmi_forum::HdmiDscMaxSlices as SharedDscMaxSlices;
use display_types::HdmiForumFrl as SharedFrl;

verus! {

/// A single color encoding format (the AVI InfoFrame `Y` field).
///
/// The library's own copy of the shared HDMI vocabulary type of the same name.
#[derive(Debug, Clone, Copy, PartialEq, Eq, Structural)]
#[non_exhaustive]
pub enum ColorFormat {
    /// RGB 4:4:4.
    Rgb444,
    /// YCbCr 4:4:4.
    YCbCr444,
    /// YCbCr 4:2:2.
    YCbCr422,
    /// YCbCr 4:2:0.
    YCbCr420,
}

/// Fixed Rate Link (FRL) rate, carrying the HDMI 2.1 `FRL_Rate` nibble values.
///
/// The library's own copy of the shared HDMI vocabulary type of the same name;
/// [`HdmiForumFrl::raw`] gives the nibble value (the discriminant of the
/// shared type).
#[derive(Debug, Clone, Copy, PartialEq, Eq, Structural)]
#[non_exhaustive]
pub enum HdmiForumFrl {
    /// FRL not supported; TMDS only (0).
    NotSupported,
    /// Up to 3 Gbps/lane on 3 lanes (1).
    Rate3Gbps3Lanes,
    /// Up to 6 Gbps/lane on 3 lanes (2).
    Rate6Gbps3Lanes,
    /// Up to 6 Gbps/lane on 4 lanes (3).
    Rate6Gbps4Lanes,
    /// Up to 8 Gbps/lane on 4 lanes (4).
    Rate8Gbps4Lanes,
    /// Up to 10 Gbps/lane on 4 lanes (5).
    Rate10Gbps4Lanes,
    /// Up to 12 Gbps/lane on 4 lanes (6).
    Rate12Gbps4Lanes,
}

/// Maximum number of horizontal DSC slices (the HDMI 2.1 `DSC_MaxSlices` nibble).
///
/// The library's own copy of the shared HDMI vocabulary type of the same name;
/// [`HdmiDscMaxSlices::raw`] gives the nibble value.
#[derive(Debug, Clone, Copy, PartialEq, Eq, Structural)]
#[non_exhaustive]
pub enum HdmiDscMaxSlices {
    /// DSC not supported (0).
    NotSupported,
    /// Up to 1 slice; ≤ 340 MHz pixel clock per slice (1).
    Slices1,
    /// Up to 2 slices; ≤ 340 MHz per slice (2).
    Slices2,
    /// Up to 4 slices; ≤ 340 MHz per slice (3).
    Slices4,
    /// Up to 8 slices; ≤ 340 MHz per slice (4).
    Slices8At340Mhz,
    /// Up to 8 slices; ≤ 400 MHz per slice (5).
    Slices8At400Mhz,
    /// Up to 12 slices; ≤ 400 MHz per slice (6).
    Slices12,
    /// Up to 16 slices; ≤ 400 MHz per slice (7).
    Slices16,
}

/// The FRL rate with nibble value `code` (meaningful for 0–6).
pub open spec fn frl_of_code(code: u8) -> HdmiForumFrl {
    match code {
        1 => HdmiForumFrl::Rate3Gbps3Lanes,
        2 => HdmiForumFrl::Rate6Gbps3Lanes,
        3 => HdmiForumFrl::Rate6Gbps4Lanes,
        4 => HdmiForumFrl::Rate8Gbps4Lanes,
        5 => HdmiForumFrl::Rate10Gbps4Lanes,
        6 => HdmiForumFrl::Rate12Gbps4Lanes,
        _ => HdmiForumFrl::NotSupported,
    }
}

/// The nibble value of an FRL rate.
pub open spec fn code_of_frl(f: HdmiForumFrl) -> u8 {
    match f {
        HdmiForumFrl::NotSupported => 0,
        HdmiForumFrl::Rate3Gbps3Lanes => 1,
        HdmiForumFrl::Rate6Gbps3Lanes => 2,
        HdmiForumFrl::Rate6Gbps4Lanes => 3,
        HdmiForumFrl::Rate8Gbps4Lanes => 4,
        HdmiForumFrl::Rate10Gbps4Lanes => 5,
        HdmiForumFrl::Rate12Gbps4Lanes => 6,
    }
}

/// The slice count with nibble value `code` (meaningful for 0–7).
pub open spec fn slices_of_code(code: u8) -> HdmiDscMaxSlices {
    match code {
        1 => HdmiDscMaxSlices::Slices1,
        2 => HdmiDscMaxSlices::Slices2,
        3 => HdmiDscMaxSlices::Slices4,
        4 => HdmiDscMaxSlices::Slices8At340Mhz,
        5 => HdmiDscMaxSlices::Slices8At400Mhz,
        6 => HdmiDscMaxSlices::Slices12,
        7 => HdmiDscMaxSlices::Slices16,
        _ => HdmiDscMaxSlices::NotSupported,
    }
}

/// The nibble value of a slice count.
pub open spec fn code_of_slices(s: HdmiDscMaxSlices) -> u8 {
    match s {
        HdmiDscMaxSlices::NotSupported => 0,
        HdmiDscMaxSlices::Slices1 => 1,
        HdmiDscMaxSlices::Slices2 => 2,
        HdmiDscMaxSlices::Slices4 => 3,
        HdmiDscMaxSlices::Slices8At340Mhz => 4,
        HdmiDscMaxSlices::Slices8At400Mhz => 5,
        HdmiDscMaxSlices::Slices12 => 6,
        HdmiDscMaxSlices::Slices16 => 7,
    }
}

/// Decodes an `FRL_Rate` nibble through `display_types::HdmiForumFrl::from_raw`
/// and returns the nibble value of the variant it yields.
///
/// Trusted: the crate's source maps each raw value 0–6 to the variant with that
/// discriminant and every other value to `NotSupported` (discriminant 0).
#[verifier::external_body]
fn shared_frl_from_raw(raw: u8) -> (code: u8)
    ensures
        code == (if raw <= 6 { raw } else { 0 }),
{
    match SharedFrl::from_raw(raw) {
        SharedFrl::NotSupported => 0,
        SharedFrl::Rate3Gbps3Lanes => 1,
        SharedFrl::Rate6Gbps3Lanes => 2,
        SharedFrl::Rate6Gbps4Lanes => 3,
        SharedFrl::Rate8Gbps4Lanes => 4,
        SharedFrl::Rate10Gbps4Lanes => 5,
        SharedFrl::Rate12Gbps4Lanes => 6,
        _ => 0,
    }
}

/// Decodes a `DSC_MaxSlices` nibble through
/// `display_types::cea861::hdmi_forum::HdmiDscMaxSlices::from_raw` and returns
/// the nibble value of the variant it yields.
///
/// Trusted: the crate's source maps each raw value 0–7 to the variant in that
/// position and every other value to `NotSupported` (position 0).
#[verifier::external_body]
fn shared_slices_from_raw(raw: u8) -> (code: u8)
    ensures
        code == (if raw <= 7 { raw } else { 0 }),
{
    match SharedDscMaxSlices::from_raw(raw) {
        SharedDscMaxSlices::NotSupported => 0,
        SharedDscMaxSlices::Slices1 => 1,
        SharedDscMaxSlices::Slices2 => 2,
        SharedDscMaxSlices::Slices4 => 3,
        SharedDscMaxSlices::Slices8At340Mhz => 4,
        SharedDscMaxSlices::Slices8At400Mhz => 5,
        SharedDscMaxSlices::Slices12 => 6,
        SharedDscMaxSlices::Slices16 => 7,
        _ => 0,
    }
}

impl HdmiForumFrl {
    /// Decodes an `FRL_Rate` nibble: values 0–6 name a rate, reserved values
    /// decode as `NotSupported`.
    pub fn from_raw(raw: u8) -> (r: Self)
        ensures
            r == frl_of_code(if raw <= 6 { raw } else { 0 }),
    {
        match shared_frl_from_raw(raw) {
            1 => HdmiForumFrl::Rate3Gbps3Lanes,
            2 => HdmiForumFrl::Rate6Gbps3Lanes,
            3 => HdmiForumFrl::Rate6Gbps4Lanes,
            4 => HdmiForumFrl::Rate8Gbps4Lanes,
            5 => HdmiForumFrl::Rate10Gbps4Lanes,
            6 => HdmiForumFrl::Rate12Gbps4Lanes,
            _ => HdmiForumFrl::NotSupported,
        }
    }

    /// The nibble value of this rate.
    pub fn raw(self) -> (r: u8)
        ensures
            r == code_of_frl(self),
    {
        match self {
            HdmiForumFrl::NotSupported => 0,
            HdmiForumFrl::Rate3Gbps3Lanes => 1,
            HdmiForumFrl::Rate6Gbps3Lanes => 2,
            HdmiForumFrl::Rate6Gbps4Lanes => 3,
            HdmiForumFrl::Rate8Gbps4Lanes => 4,
            HdmiForumFrl::Rate10Gbps4Lanes => 5,
            HdmiForumFrl::Rate12Gbps4Lanes => 6,
        }
    }
}

impl HdmiDscMaxSlices {
    /// Decodes a `DSC_MaxSlices` nibble: values 0–7 name a slice count,
    /// reserved values decode as `NotSupported`.
    pub fn from_raw(raw: u8) -> (r: Self)
        ensures
            r == slices_of_code(if raw <= 7 { raw } else { 0 }),
    {
        match shared_slices_from_raw(raw) {
            1 => HdmiDscMaxSlices::Slices1,
            2 => HdmiDscMaxSlices::Slices2,
            3 => HdmiDscMaxSlices::Slices4,
            4 => HdmiDscMaxSlices::Slices8At340Mhz,
            5 => HdmiDscMaxSlices::Slices8At400Mhz,
            6 => HdmiDscMaxSlices::Slices12,
            7 => HdmiDscMaxSlices::Slices16,
            _ => HdmiDscMaxSlices::NotSupported,
        }
    }

    /// The nibble value of this slice count.
    pub fn raw(self) -> (r: u8)
        ensures
            r == code_of_slices(self),
    {
        match self {
            HdmiDscMaxSlices::NotSupported => 0,
            HdmiDscMaxSlices::Slices1 => 1,
            HdmiDscMaxSlices::Slices2 => 2,
            HdmiDscMaxSlices::Slices4 => 3,
            HdmiDscMaxSlices::Slices8At340Mhz => 4,
            HdmiDscMaxSlices::Slices8At400Mhz => 5,
            HdmiDscMaxSlices::Slices12 => 6,
            HdmiDscMaxSlices::Slices16 => 7,
        }
    }
}

// ---------------------------------------------------------------------------
// What the rate and slice codes mean
// ---------------------------------------------------------------------------

/// The number of data lanes a link at this rate uses (three TMDS channels
/// when FRL is not supported).
pub open spec fn frl_lanes(f: HdmiForumFrl) -> nat {
    match f {
        HdmiForumFrl::NotSupported => 3,
        HdmiForumFrl::Rate3Gbps3Lanes => 3,
        HdmiForumFrl::Rate6Gbps3Lanes => 3,
        _ => 4,
    }
}

/// The FRL rate per lane, in Gbps (0 when FRL is not supported).
pub open spec fn frl_gbps_per_lane(f: HdmiForumFrl) -> nat {
    match f {
        HdmiForumFrl::NotSupported => 0,
        HdmiForumFrl::Rate3Gbps3Lanes => 3,
        HdmiForumFrl::Rate6Gbps3Lanes => 6,
        HdmiForumFrl::Rate6Gbps4Lanes => 6,
        HdmiForumFrl::Rate8Gbps4Lanes => 8,
        HdmiForumFrl::Rate10Gbps4Lanes => 10,
        HdmiForumFrl::Rate12Gbps4Lanes => 12,
    }
}

/// The total FRL link rate, in Gbps: lanes times the rate per lane.
pub open spec fn frl_link_gbps(f: HdmiForumFrl) -> nat {
    frl_lanes(f) * frl_gbps_per_lane(f)
}

/// The number of horizontal slices a DSC slice limit allows.
pub open spec fn dsc_slices(s: HdmiDscMaxSlices) -> nat {
    match s {
        HdmiDscMaxSlices::NotSupported => 0,
        HdmiDscMaxSlices::Slices1 => 1,
        HdmiDscMaxSlices::Slices2 => 2,
        HdmiDscMaxSlices::Slices4 => 4,
        HdmiDscMaxSlices::Slices8At340Mhz => 8,
        HdmiDscMaxSlices::Slices8At400Mhz => 8,
        HdmiDscMaxSlices::Slices12 => 12,
        HdmiDscMaxSlices::Slices16 => 16,
    }
}

/// The pixel clock each slice may carry, in MHz.
pub open spec fn dsc_slice_mhz(s: HdmiDscMaxSlices) -> nat {
    match s {
        HdmiDscMaxSlices::NotSupported => 0,
        HdmiDscMaxSlices::Slices1 => 340,
        HdmiDscMaxSlices::Slices2 => 340,
        HdmiDscMaxSlices::Slices4 => 340,
        HdmiDscMaxSlices::Slices8At340Mhz => 340,
        _ => 400,
    }
}

/// The total pixel clock a DSC slice limit allows, in MHz: slices times the
/// clock per slice.
pub open spec fn dsc_total_mhz(s: HdmiDscMaxSlices) -> nat {
    dsc_slices(s) * dsc_slice_mhz(s)
}

/// The link rate of each FRL rate, multiplied out.
proof fn lemma_frl_link_values(f: HdmiForumFrl)
    ensures
        frl_link_gbps(f) == match f {
            HdmiForumFrl::NotSupported => 0nat,
            HdmiForumFrl::Rate3Gbps3Lanes => 9nat,
            HdmiForumFrl::Rate6Gbps3Lanes => 18nat,
            HdmiForumFrl::Rate6Gbps4Lanes => 24nat,
            HdmiForumFrl::Rate8Gbps4Lanes => 32nat,
            HdmiForumFrl::Rate10Gbps4Lanes => 40nat,
            HdmiForumFrl::Rate12Gbps4Lanes => 48nat,
        },
{
}

/// The total pixel clock of each slice limit, multiplied out.
proof fn lemma_dsc_total_values(s: HdmiDscMaxSlices)
    ensures
        dsc_total_mhz(s) == match s {
            HdmiDscMaxSlices::NotSupported => 0nat,
            HdmiDscMaxSlices::Slices1 => 340nat,
            HdmiDscMaxSlices::Slices2 => 680nat,
            HdmiDscMaxSlices::Slices4 => 1360nat,
            HdmiDscMaxSlices::Slices8At340Mhz => 2720nat,
            HdmiDscMaxSlices::Slices8At400Mhz => 3200nat,
            HdmiDscMaxSlices::Slices12 => 4800nat,
            HdmiDscMaxSlices::Slices16 => 6400nat,
        },
{
}

/// The `FRL_Rate` nibble ranks the link rates: of two defined nibbles
/// (0–6), the higher one decodes ([`HdmiForumFrl::from_raw`]) to the strictly
/// faster link, and of two rates the faster one has the strictly higher
/// nibble ([`HdmiForumFrl::raw`]). So nibbles 1–6 name 3×3, 3×6, 4×6, 4×8,
/// 4×10 and 4×12 Gbps links in turn, and 0 names no FRL.
pub proof fn lemma_frl_rate_order(a: u8, b: u8, f: HdmiForumFrl, g: HdmiForumFrl)
    requires
        a <= 6,
        b <= 6,
    ensures
        a < b <==> frl_link_gbps(frl_of_code(a)) < frl_link_gbps(frl_of_code(b)),
        frl_link_gbps(f) < frl_link_gbps(g) <==> code_of_frl(f) < code_of_frl(g),
        code_of_frl(f) <= 6,
{
    lemma_frl_link_values(frl_of_code(a));
    lemma_frl_link_values(frl_of_code(b));
    lemma_frl_link_values(f);
    lemma_frl_link_values(g);
}

/// The `DSC_MaxSlices` nibble ranks the slice limits: of two defined nibbles
/// (0–7), the higher one decodes ([`HdmiDscMaxSlices::from_raw`]) to a
/// strictly higher total pixel clock, and of two limits the higher one has
/// the strictly higher nibble ([`HdmiDscMaxSlices::raw`]). So nibbles 1–7
/// name 1, 2, 4 and 8 slices at 340 MHz, then 8, 12 and 16 slices at
/// 400 MHz, and 0 names no DSC.
pub proof fn lemma_dsc_slices_order(a: u8, b: u8, s: HdmiDscMaxSlices, t: HdmiDscMaxSlices)
    requires
        a <= 7,
        b <= 7,
    ensures
        a < b <==> dsc_total_mhz(slices_of_code(a)) < dsc_total_mhz(slices_of_code(b)),
        dsc_total_mhz(s) < dsc_total_mhz(t) <==> code_of_slices(s) < code_of_slices(t),
        code_of_slices(s) <= 7,
{
    lemma_dsc_total_values(slices_of_code(a));
    lemma_dsc_total_values(slices_of_code(b));
    lemma_dsc_total_values(s);
    lemma_dsc_total_values(t);
}

} // verus!
