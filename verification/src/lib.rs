//! Decoding and pacing core of a terminal video player.
//!
//! A video is delivered as one contiguous byte buffer holding back-to-back
//! uncompressed bitmap frames, each self-describing through a fixed-offset
//! header. The [`bitmap`] module parses that format: header fields, padded
//! bottom-up scan lines, and the blue-green-red channel order. The [`driver`]
//! module walks a whole stream frame by frame, and the [`pacing`] module
//! models the fixed wall-clock cadence between displayed frames.
//!
//! Terminal output and audio playback are left to the binary around this
//! library: the decoder hands back plain grids of colored cells.

pub mod bitmap;
pub mod driver;
pub mod pacing;
