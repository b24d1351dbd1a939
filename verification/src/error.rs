use vstd::prelude::*;

verus! {

/// Everything that can go wrong in the fingerprint pipeline.
///
/// The first three variants are contract violations on malformed frame or
/// grid data; they are surfaced immediately and never retried.
/// `DecodeError` carries a message from an external frame source verbatim;
/// the pipeline itself never constructs it.
#[derive(Clone, PartialEq, Eq, Debug)]
pub enum PipelineError {
    /// A frame has a zero width or a zero height.
    InvalidDimensions,
    /// A frame's pixel buffer does not hold `width * height * channels` bytes.
    BufferSizeMismatch,
    /// An intensity grid does not hold exactly `9 * 8` bytes.
    InvalidGridSize,
    /// A frame source failed to decode; the message is passed through.
    DecodeError(String),
}

} // verus!
