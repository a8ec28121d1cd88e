//! Pixel format descriptors: channel ordering and byte width of one pixel.

use vstd::prelude::*;

verus! {

/// Channel layout of one pixel: the ordering of the color channels.
///
/// The byte width (3 or 4) and the channel masks used when negotiating a
/// native visual are both functions of this choice; the format of a buffer
/// never changes after construction.
#[derive(Clone, Copy, PartialEq, Eq, Structural, Debug)]
pub enum PixelBufferFormatType {
    RGB,
    RGBA,
    BGR,
    BGRA,
}

impl PixelBufferFormatType {
    /// Number of bytes one pixel of this format occupies in the buffer.
    pub open spec fn spec_bytes_per_pixel(self) -> u32 {
        match self {
            PixelBufferFormatType::RGB => 3,
            PixelBufferFormatType::RGBA => 4,
            PixelBufferFormatType::BGR => 3,
            PixelBufferFormatType::BGRA => 4,
        }
    }

    pub fn bytes_per_pixel(self) -> (r: u32)
        ensures
            r == self.spec_bytes_per_pixel(),
    {
        match self {
            PixelBufferFormatType::RGB => 3,
            PixelBufferFormatType::RGBA => 4,
            PixelBufferFormatType::BGR => 3,
            PixelBufferFormatType::BGRA => 4,
        }
    }

    /// The (red, green, blue) masks a visual must carry to present this
    /// channel ordering: blue in the low byte for BGR-ordered formats, red in
    /// the low byte for RGB-ordered ones.
    pub open spec fn spec_channel_masks(self) -> (u64, u64, u64) {
        match self {
            PixelBufferFormatType::BGR => (0xFF0000u64, 0x00FF00u64, 0x0000FFu64),
            PixelBufferFormatType::BGRA => (0xFF0000u64, 0x00FF00u64, 0x0000FFu64),
            PixelBufferFormatType::RGB => (0x0000FFu64, 0x00FF00u64, 0xFF0000u64),
            PixelBufferFormatType::RGBA => (0x0000FFu64, 0x00FF00u64, 0xFF0000u64),
        }
    }

    pub fn channel_masks(self) -> (r: (u64, u64, u64))
        ensures
            r == self.spec_channel_masks(),
    {
        match self {
            PixelBufferFormatType::BGR => (0xFF0000u64, 0x00FF00u64, 0x0000FFu64),
            PixelBufferFormatType::BGRA => (0xFF0000u64, 0x00FF00u64, 0x0000FFu64),
            PixelBufferFormatType::RGB => (0x0000FFu64, 0x00FF00u64, 0xFF0000u64),
            PixelBufferFormatType::RGBA => (0x0000FFu64, 0x00FF00u64, 0xFF0000u64),
        }
    }
}

} // verus!
