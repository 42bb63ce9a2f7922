use vstd::prelude::*;

verus! {

/// A hard decode failure.
///
/// Most anomalies encountered while decoding — bad checksum, reserved fields set,
/// unrecognised enum values — are reported as warnings on the returned frame rather
/// than errors. `DecodeError` is returned only when the packet cannot be decoded at
/// all.
#[derive(Debug, Clone, Copy, PartialEq, Eq, Structural)]
#[non_exhaustive]
pub enum DecodeError {
    /// The `length` field in the packet header exceeds the available payload capacity.
    ///
    /// A 31-byte packet can hold at most 27 payload bytes (bytes 4–30). If the header
    /// `length` field declares more than 27, the packet cannot be decoded.
    Truncated {
        /// The value declared in the packet header's `length` field.
        claimed: u8,
    },
    /// `DynamicHdrInfoFrame::decode_sequence` was called with an empty packet slice.
    EmptySequence,
    /// The assembled metadata payload is too short to contain the fields
    /// required by its declared format, or declares a count beyond what the
    /// format allows.
    MalformedPayload,
}

} // verus!
