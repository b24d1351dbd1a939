use crate::error::PipelineError;
use crate::frame::{to_luma, Frame};
use fast_image_resize::images::{Image, ImageRef};
use fast_image_resize::{FilterType, PixelType, ResizeAlg, ResizeOptions, Resizer};
use vstd::prelude::*;

verus! {

/// The 9-by-8 row-major grid that the bilinear convolution resampler
/// produces from a `width`-by-`height` row-major luma buffer.  The filter's
/// fixed-point arithmetic makes the result a function of the source pixels
/// and dimensions alone, so the grid is given a name rather than a formula.
pub uninterp spec fn resampled_of(pixels: Seq<u8>, width: int, height: int) -> Seq<u8>;

/// Relies on fast_image_resize: `Resizer::resize` with
/// `ResizeAlg::Convolution(FilterType::Bilinear)` on single-channel `U8`
/// pixels fills the 9-by-8 destination image from the source alone
/// (the crate pins one expected checksum for every CPU extension, so the
/// result does not depend on the machine).  `ImageRef::new` accepts any
/// `U8` buffer of at least `width * height` bytes, and `resize` accepts
/// any two `U8` images, so neither `unwrap` can fail here.
#[verifier::external_body]
fn resize_bilinear(pixels: &Vec<u8>, width: u32, height: u32) -> (r: Vec<u8>)
    requires
        width >= 1,
        height >= 1,
        pixels@.len() == width * height,
    ensures
        r@.len() == 72,
        r@ == resampled_of(pixels@, width as int, height as int),
{
    let src = ImageRef::new(width, height, pixels, PixelType::U8).unwrap();
    let mut dst = Image::new(9, 8, PixelType::U8);
    let options = ResizeOptions::new().resize_alg(ResizeAlg::Convolution(FilterType::Bilinear));
    Resizer::new().resize(&src, &mut dst, &options).unwrap();
    dst.into_vec()
}

/// Downsample a frame to the fixed 9-by-8 intensity grid with the bilinear
/// convolution filter.  A color frame is first reduced to luma, so a color
/// frame and its grayscale reduction yield the same grid.  Fails with
/// `InvalidDimensions` on a zero dimension and with `BufferSizeMismatch`
/// when the buffer does not hold `width * height * channels` bytes.
pub fn resample(frame: &Frame) -> (r: Result<Vec<u8>, PipelineError>)
    ensures
        r is Ok <==> frame.wf(),
        r is Ok ==> r->Ok_0@ == resampled_of(
            frame.luma(),
            frame.width as int,
            frame.height as int,
        ) && r->Ok_0@.len() == 72 && (forall|i: int|
            0 <= i < r->Ok_0@.len() ==> 0 <= #[trigger] r->Ok_0@[i] <= 255),
        !frame.has_valid_dimensions() ==> r == Err::<Vec<u8>, PipelineError>(
            PipelineError::InvalidDimensions,
        ),
        frame.has_valid_dimensions() && !frame.has_matching_buffer() ==> r == Err::<
            Vec<u8>,
            PipelineError,
        >(PipelineError::BufferSizeMismatch),
{
    if frame.width == 0 || frame.height == 0 {
        return Err(PipelineError::InvalidDimensions);
    }
    let channels = frame.format.channels();
    proof {
        assert((frame.width as int) * (frame.height as int) * (channels as int) < u128::MAX)
            by (nonlinear_arith)
            requires
                frame.width <= u32::MAX,
                frame.height <= u32::MAX,
                0 <= channels <= 3,
        ;
    }
    let expected: u128 = (frame.width as u128) * (frame.height as u128) * (channels as u128);
    if (frame.data.len() as u128) != expected {
        return Err(PipelineError::BufferSizeMismatch);
    }
    let luma = to_luma(frame);
    Ok(resize_bilinear(&luma, frame.width, frame.height))
}

} // verus!
