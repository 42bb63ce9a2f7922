//! Encoding and decoding for HDMI InfoFrames.
//!
//! `cartouche` encodes and decodes the five HDMI 2.1 InfoFrame types: AVI, Audio,
//! HDR Static Metadata, HDMI Forum Vendor-Specific, and Dynamic HDR. It is a pure
//! encoding/decoding library with no I/O.
//!
//! Every decoder and encoder carries a contract stated over the wire bytes; the
//! round-trip properties of each frame type are stated and proved as lemmas next
//! to the frame type.

/// The [`IntoPackets`](encode::IntoPackets) encoding trait.
pub mod encode;

/// Byte-level helpers shared by the wire formats.
pub mod bytes;

/// Checksum computation for the 31-byte wire packet.
pub mod checksum;

/// The [`DecodeError`](error::DecodeError) type.
pub mod error;

/// Per-frame warning enums and the unified [`Warning`](warn::Warning) wrapper.
pub mod warn;

/// The [`Decoded`](decoded::Decoded) wrapper pairing a value with its warnings.
pub mod decoded;

/// The shared HDMI vocabulary types that InfoFrame fields carry.
pub mod vocab;

/// The Audio InfoFrame.
pub mod audio;

/// The AVI InfoFrame.
pub mod avi;

/// The HDMI Forum Vendor-Specific InfoFrame.
pub mod hdmi_forum_vsi;

/// The HDR Static Metadata InfoFrame.
pub mod hdr_static;

/// The Dynamic HDR InfoFrame and its metadata formats.
pub mod dynamic_hdr;

/// The top-level [`InfoFrame`](frame::InfoFrame) and
/// [`InfoFramePacket`](frame::InfoFramePacket) enums.
pub mod frame;

/// The top-level [`decode`] dispatch.
pub mod decode;

pub use decode::decode;
