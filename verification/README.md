# cartouche

Encoding and decoding of HDMI 2.1 InfoFrames — AVI, Audio, HDR Static Metadata,
HDMI Forum Vendor-Specific and Dynamic HDR (HDR10+, SL-HDR) — verified with Verus.

Every decoder and encoder states its behaviour over the wire bytes: a decoder
returns exactly the frame and the warnings that spec functions over the packet
describe, and fails only on a declared length above 27 (or, for Dynamic HDR, an
empty or malformed sequence). The round-trip properties are proved as lemmas
next to each frame type.

## Layout

- `src/` — the verified library.
  - `checksum.rs`, `bytes.rs` — packet checksum and byte helpers.
  - `audio.rs`, `avi.rs`, `hdr_static.rs`, `hdmi_forum_vsi.rs` — the single-packet
    frame types, each with its decoder, encoder, and round-trip lemmas.
  - `dynamic_hdr/` — bit-level reader and writer (`bits.rs`), fixed field
    layouts (`fields.rs`), HDR10+ and SL-HDR metadata, and the multi-packet
    Dynamic HDR frame.
  - `frame.rs`, `decode.rs` — the top-level `InfoFrame` encoder and `decode`
    dispatch.
  - `vocab.rs` — the shared HDMI vocabulary types, decoded through the
    `display-types` crate.
- `tests/` — unit and round-trip tests.
- `app/` — serde support: serialisable copies of the warning and SL-HDR types
  with conversions to and from the library's own.
