//! The in-memory image that flows through the transform stage.

use vstd::prelude::*;

verus! {

/// Channel layout of an 8-bit image.
#[derive(Clone, Copy, Debug, PartialEq, Eq)]
pub enum Channels {
    Rgb,
    Rgba,
}

impl Channels {
    /// Bytes per pixel.
    pub open spec fn spec_count(self) -> int {
        match self {
            Channels::Rgb => 3,
            Channels::Rgba => 4,
        }
    }

    /// Bytes per pixel.
    pub fn count(self) -> (n: usize)
        ensures
            n == self.spec_count(),
    {
        match self {
            Channels::Rgb => 3,
            Channels::Rgba => 4,
        }
    }

    /// The layout with `n` bytes per pixel, if there is one.
    pub fn from_count(n: u16) -> (r: Option<Channels>)
        ensures
            n == 3 ==> r == Some(Channels::Rgb),
            n == 4 ==> r == Some(Channels::Rgba),
            n != 3 && n != 4 ==> r.is_none(),
    {
        if n == 3 {
            Some(Channels::Rgb)
        } else if n == 4 {
            Some(Channels::Rgba)
        } else {
            None
        }
    }
}

/// Number of bytes that a `width` x `height` image with `count` bytes per
/// pixel occupies.
pub open spec fn byte_len(width: int, height: int, count: int) -> int {
    width * height * count
}

/// Computes `byte_len` without overflow.
pub fn buffer_size(width: u32, height: u32, channels: Channels) -> (n: u128)
    ensures
        n == byte_len(width as int, height as int, channels.spec_count()),
{
    assert(width * height <= 0xffff_ffff * 0xffff_ffff) by (nonlinear_arith)
        requires
            0 <= width <= 0xffff_ffff,
            0 <= height <= 0xffff_ffff,
    ;
    let area: u128 = (width as u128) * (height as u128);
    let count: u128 = channels.count() as u128;
    assert(area * count <= 0xffff_ffff * 0xffff_ffff * 4) by (nonlinear_arith)
        requires
            0 <= area <= 0xffff_ffff * 0xffff_ffff,
            0 <= count <= 4,
    ;
    area * count
}

/// An owned 8-bit pixel buffer with its dimensions, rows first, top row first.
#[derive(Clone, Debug, PartialEq, Eq)]
pub struct TransformedImage {
    pub width: u32,
    pub height: u32,
    pub channels: Channels,
    pub pixels: Vec<u8>,
}

impl TransformedImage {
    /// The buffer holds exactly one byte per channel of every pixel.
    pub open spec fn wf(&self) -> bool {
        self.pixels@.len() == byte_len(
            self.width as int,
            self.height as int,
            self.channels.spec_count(),
        )
    }

    /// Index in the buffer of channel `k` of the pixel in column `x` of row `y`.
    pub open spec fn offset(&self, x: int, y: int, k: int) -> int {
        (y * self.width + x) * self.channels.spec_count() + k
    }

    /// Value of channel `k` of the pixel in column `x` of row `y`. For an
    /// image without alpha, channel 3 reads as fully opaque.
    pub open spec fn sample(&self, x: int, y: int, k: int) -> u8 {
        if k < self.channels.spec_count() {
            self.pixels@[self.offset(x, y, k)]
        } else {
            255
        }
    }

    /// Wraps a buffer, if its length fits the dimensions.
    pub fn new(width: u32, height: u32, channels: Channels, pixels: Vec<u8>) -> (r: Option<
        TransformedImage,
    >)
        ensures
            pixels@.len() == byte_len(width as int, height as int, channels.spec_count()) ==> r
                == Some(TransformedImage { width, height, channels, pixels }),
            pixels@.len() != byte_len(width as int, height as int, channels.spec_count())
                ==> r.is_none(),
            r.is_some() ==> r.unwrap().wf(),
    {
        let expected: u128 = buffer_size(width, height, channels);
        if pixels.len() as u128 == expected {
            Some(TransformedImage { width, height, channels, pixels })
        } else {
            None
        }
    }
}

/// In a well-formed image every channel of every pixel lies inside the buffer.
pub proof fn lemma_offset_in_bounds(img: TransformedImage, x: int, y: int, k: int)
    requires
        img.wf(),
        0 <= x < img.width,
        0 <= y < img.height,
        0 <= k < img.channels.spec_count(),
    ensures
        0 <= img.offset(x, y, k) < img.pixels@.len(),
{
    let w = img.width as int;
    let h = img.height as int;
    let c = img.channels.spec_count();
    assert(y * w + x <= (h - 1) * w + (w - 1)) by (nonlinear_arith)
        requires
            0 <= x < w,
            0 <= y < h,
    ;
    assert((h - 1) * w + (w - 1) == w * h - 1) by (nonlinear_arith);
    assert(0 <= y * w + x) by (nonlinear_arith)
        requires
            0 <= x,
            0 <= y,
            0 <= w,
    ;
    let p = y * w + x;
    assert(p * c + k < w * h * c) by (nonlinear_arith)
        requires
            0 <= p <= w * h - 1,
            0 <= k < c,
    ;
    assert(0 <= p * c + k) by (nonlinear_arith)
        requires
            0 <= p,
            0 <= k,
            0 < c,
    ;
}

} // verus!
