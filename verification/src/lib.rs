//! Planning of two-pass video encodes that shrink a file to a target size.
//!
//! The library works out the video bitrate that meets a target size, builds the argument
//! lists of the encoder's two passes, and decides, event by event, how an encode goes on.
//! It runs nothing itself: the caller runs the prober and the encoder and reports back.
//!
//! Quantities that carry a fraction (seconds, kibibits per second, mebibytes, percentages)
//! are held as whole counts of millionths, so that every formula is exact integer
//! arithmetic with a stated rounding.

pub mod text;
pub mod decimal;
pub mod trim;
pub mod crop;
pub mod ffmpeg;
pub mod orchestrator;
pub mod logging;
pub mod host;
