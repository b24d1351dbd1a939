//! Perceptual-hash pipeline for near-duplicate detection across a video's
//! timeline: each decoded frame is downsampled to a fixed 9-by-8 intensity
//! grid, reduced to a 64-bit gradient fingerprint, and runs of identical
//! consecutive fingerprints are collapsed to a single entry.

pub mod dedup;
pub mod error;
pub mod fingerprint;
pub mod frame;
pub mod pipeline;
pub mod resample;
