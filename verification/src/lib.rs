//! Merging of paired two-channel field recordings into one deliverable.
//!
//! A recording unit is captured as two stereo files, a mid-side (MS) pair and
//! an X-Y pair, named after each other by a fixed token substitution. This
//! crate holds the verified core of the converter: resolving the pair of
//! names from either member, scanning a stream for its peak magnitude,
//! deriving and applying a normalization gain, merging two synchronized
//! stereo streams into one four-channel stream chunk by chunk (or copying a
//! single stream through), and the validation and routing decisions around
//! those steps. Samples are 32-bit integer PCM values; the codec layer that
//! reads and writes them sits outside this crate and hands chunks of plain
//! samples in and out.

pub mod engine;
pub mod error;
pub mod gain;
pub mod laws;
pub mod merge;
pub mod pairing;
pub mod route;
pub mod scan;
