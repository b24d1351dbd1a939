use vstd::prelude::*;

verus! {

/// Layout of a frame's pixel buffer: single-channel luma, or three-channel
/// interleaved red-green-blue, both row-major.
#[derive(Clone, Copy, PartialEq, Eq, Structural, Debug)]
pub enum PixelFormat {
    Gray8,
    Rgb8,
}

impl PixelFormat {
    /// Number of bytes each pixel occupies in the buffer.
    pub open spec fn spec_channels(self) -> int {
        match self {
            PixelFormat::Gray8 => 1,
            PixelFormat::Rgb8 => 3,
        }
    }

    pub fn channels(self) -> (r: u32)
        ensures
            r == self.spec_channels(),
    {
        match self {
            PixelFormat::Gray8 => 1,
            PixelFormat::Rgb8 => 3,
        }
    }
}

/// One decoded still image, tagged with its position in the stream.
/// Indices are monotonically increasing but not necessarily contiguous.
pub struct Frame {
    pub index: u64,
    pub width: u32,
    pub height: u32,
    pub format: PixelFormat,
    pub data: Vec<u8>,
}

/// Integer luma approximation of a red-green-blue pixel, with weights
/// 77/256, 150/256 and 29/256 and rounding to nearest.  The weights sum to
/// 256, so the result is always in `[0, 255]`.
pub open spec fn luma_byte(r: u8, g: u8, b: u8) -> u8 {
    ((77 * r + 150 * g + 29 * b + 128) / 256) as u8
}

impl Frame {
    /// Both dimensions are nonzero.
    pub open spec fn has_valid_dimensions(self) -> bool {
        self.width >= 1 && self.height >= 1
    }

    /// The buffer holds exactly `width * height * channels` bytes.
    pub open spec fn has_matching_buffer(self) -> bool {
        self.data@.len() == self.width * self.height * self.format.spec_channels()
    }

    pub open spec fn wf(self) -> bool {
        self.has_valid_dimensions() && self.has_matching_buffer()
    }

    /// The frame's single-channel intensity values, row-major: the buffer
    /// itself for a grayscale frame, the per-pixel `luma_byte` for a color
    /// frame.  Both paths yield one byte per pixel, so a color frame and
    /// its grayscale reduction resample identically.
    pub open spec fn luma(self) -> Seq<u8> {
        match self.format {
            PixelFormat::Gray8 => self.data@,
            PixelFormat::Rgb8 => Seq::new(
                (self.width * self.height) as nat,
                |i: int| luma_byte(self.data@[3 * i], self.data@[3 * i + 1], self.data@[3 * i + 2]),
            ),
        }
    }
}

/// Reduce a well-formed frame to its row-major luma bytes.
pub fn to_luma(frame: &Frame) -> (r: Vec<u8>)
    requires
        frame.wf(),
    ensures
        r@ == frame.luma(),
        r@.len() == frame.width * frame.height,
{
    match frame.format {
        PixelFormat::Gray8 => frame.data.clone(),
        PixelFormat::Rgb8 => {
            let n: usize = frame.data.len() / 3;
            proof {
                assert(n == frame.width * frame.height);
                assert(3 * n <= usize::MAX);
            }
            let mut out: Vec<u8> = Vec::new();
            let mut i: usize = 0;
            while i < n
                invariant
                    frame.wf(),
                    frame.format == PixelFormat::Rgb8,
                    n == frame.width * frame.height,
                    3 * n == frame.data@.len(),
                    3 * n <= usize::MAX,
                    i <= n,
                    out@.len() == i,
                    forall|j: int|
                        0 <= j < i ==> out@[j] == luma_byte(
                            frame.data@[3 * j],
                            frame.data@[3 * j + 1],
                            frame.data@[3 * j + 2],
                        ),
                decreases n - i,
            {
                let r = frame.data[3 * i];
                let g = frame.data[3 * i + 1];
                let b = frame.data[3 * i + 2];
                let weighted: u32 = 77 * (r as u32) + 150 * (g as u32) + 29 * (b as u32) + 128;
                out.push((weighted / 256) as u8);
                i = i + 1;
            }
            proof {
                assert(out@ =~= frame.luma());
            }
            out
        },
    }
}

} // verus!
