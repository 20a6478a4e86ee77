//! Resizing: the new dimensions for a ratio of areas, and the resampling,
//! which the `image` crate does.
//!
//! A ratio is held in millionths: `500_000` stands for one half of the area.
//! Each side is scaled by the square root of the ratio.

use vstd::prelude::*;
use crate::number::{fixed_value, parse_fixed};
use crate::raster::{byte_len, Channels, TransformedImage};
use crate::text::chars_of;

verus! {

/// The ratio of the new area to the old one, in millionths; more than none
/// and at most all of it.
#[derive(Clone, Copy, Debug, PartialEq, Eq)]
pub struct Ratio {
    pub millionths: u32,
}

/// Millionths in one.
pub const WHOLE: u32 = 1_000_000;

impl Ratio {
    /// The ratio lies in (0, 1].
    pub open spec fn wf(&self) -> bool {
        0 < self.millionths <= WHOLE
    }

    /// The ratio of `millionths` millionths, if that lies in (0, 1].
    pub fn new(millionths: u32) -> (r: Option<Ratio>)
        ensures
            0 < millionths <= WHOLE ==> r == Some(Ratio { millionths }),
            !(0 < millionths <= WHOLE) ==> r.is_none(),
    {
        if 0 < millionths && millionths <= WHOLE {
            Some(Ratio { millionths })
        } else {
            None
        }
    }
}

/// The ratio that a text writes: a decimal number in (0, 1], taken in
/// whole millionths, what is beyond them cut off. A text that is no number,
/// or a number that is not at least one millionth and at most one, is no
/// ratio.
pub open spec fn ratio_of(text: Seq<char>) -> Option<Ratio> {
    match fixed_value(text, 6) {
        Some(v) => if 0 < v <= WHOLE {
            Some(Ratio { millionths: v as u32 })
        } else {
            None
        },
        None => None,
    }
}

/// Reads a ratio from the text of a decimal number.
pub fn parse_ratio(text: &str) -> (r: Option<Ratio>)
    ensures
        r == ratio_of(text@),
        r matches Some(ratio) ==> ratio.wf(),
{
    let chars = chars_of(text);
    match parse_fixed(&chars, 6) {
        Some(v) => {
            if 0 < v && v <= WHOLE as i64 {
                Some(Ratio { millionths: v as u32 })
            } else {
                None
            }
        },
        None => None,
    }
}

/// Whether `d` is `original` times the square root of `part / whole`,
/// rounded to the nearest whole number, a half rounded up: with x for the
/// exact product, d - 1/2 <= x < d + 1/2, stated over squares times four
/// times `whole`.
pub open spec fn is_nearest_to(d: int, original: int, part: int, whole: int) -> bool {
    &&& d >= 0
    &&& d >= 1 ==> (2 * d - 1) * (2 * d - 1) * whole <= 4 * original * original * part
    &&& 4 * original * original * part < (2 * d + 1) * (2 * d + 1) * whole
}

/// Whether `d` is the new length of a side of length `original` when the
/// area is brought to `part / whole` of what it was: the nearest whole
/// number to the scaled length, but at least 1.
pub open spec fn is_scaled_to(d: int, original: int, part: int, whole: int) -> bool {
    if is_nearest_to(0, original, part, whole) {
        d == 1
    } else {
        is_nearest_to(d, original, part, whole)
    }
}

/// Whether `d` is `original` times the square root of a ratio in
/// millionths, rounded to the nearest whole number, a half rounded up.
pub open spec fn is_nearest(d: int, original: int, millionths: int) -> bool {
    is_nearest_to(d, original, millionths, WHOLE as int)
}

/// Whether `d` is the new length of a side of length `original` under a
/// ratio in millionths: the nearest whole number to the scaled length, but
/// at least 1.
pub open spec fn is_scaled(d: int, original: int, millionths: int) -> bool {
    is_scaled_to(d, original, millionths, WHOLE as int)
}

/// Whatever fraction of the area is kept, only one whole number is nearest
/// to the scaled length of a side.
pub proof fn lemma_rounding_is_unique(a: int, b: int, original: int, part: int, whole: int)
    requires
        whole > 0,
        is_nearest_to(a, original, part, whole),
        is_nearest_to(b, original, part, whole),
    ensures
        a == b,
{
    if a < b {
        lemma_odd_squares_scaled(a, b, whole);
    } else if b < a {
        lemma_odd_squares_scaled(b, a, whole);
    }
}

proof fn lemma_odd_squares_scaled(a: int, b: int, whole: int)
    requires
        0 <= a < b,
        whole > 0,
    ensures
        (2 * a + 1) * (2 * a + 1) * whole <= (2 * b - 1) * (2 * b - 1) * whole,
{
    let p = 2 * a + 1;
    let q = 2 * b - 1;
    assert(p * p <= q * q) by (nonlinear_arith)
        requires
            0 <= p <= q,
    ;
    assert(p * p * whole <= q * q * whole) by (nonlinear_arith)
        requires
            p * p <= q * q,
            whole > 0,
    ;
}

/// Some whole number from `from` on, and none beyond `original`, is nearest
/// to the scaled length, if the scaled length is not less than `from` less
/// a half.
proof fn lemma_rounding_from(from: int, original: int, part: int, whole: int)
    requires
        0 <= from <= original,
        0 < part <= whole,
        from >= 1 ==> (2 * from - 1) * (2 * from - 1) * whole <= 4 * original * original * part,
    ensures
        exists|d: int| from <= d <= original && #[trigger] is_nearest_to(d, original, part, whole),
    decreases original - from,
{
    if 4 * original * original * part < (2 * from + 1) * (2 * from + 1) * whole {
        assert(is_nearest_to(from, original, part, whole));
    } else {
        let w = original;
        assert(4 * w * w * part <= 4 * w * w * whole) by (nonlinear_arith)
            requires
                0 <= w,
                0 < part <= whole,
        ;
        assert(4 * w * w * whole < (2 * w + 1) * (2 * w + 1) * whole) by (nonlinear_arith)
            requires
                0 <= w,
                whole > 0,
        ;
        assert(from < original);
        lemma_rounding_from(from + 1, original, part, whole);
    }
}

/// The rule of resizing gives every side a new length, whatever the side
/// and whatever fraction of the area is kept, as long as it is more than
/// nothing and at most all of it: the nearest whole number to the side
/// times the square root of the fraction, and 1 where that is 0. The new
/// length is no longer than the side, unless the side has length 0.
pub proof fn lemma_every_side_has_its_new_length(original: int, part: int, whole: int)
    requires
        0 <= original,
        0 < part <= whole,
    ensures
        exists|d: int|
            #[trigger] is_scaled_to(d, original, part, whole) && 1 <= d && (d <= original || d
                == 1),
{
    lemma_rounding_from(0, original, part, whole);
    let d = choose|d: int| 0 <= d <= original && #[trigger] is_nearest_to(d, original, part, whole);
    if is_nearest_to(0, original, part, whole) {
        assert(is_scaled_to(1, original, part, whole));
    } else {
        assert(is_scaled_to(d, original, part, whole));
    }
}

/// Whatever fraction of the area is kept, only one length is the new
/// length of a side.
pub proof fn lemma_new_length_is_unique(a: int, b: int, original: int, part: int, whole: int)
    requires
        whole > 0,
        is_scaled_to(a, original, part, whole),
        is_scaled_to(b, original, part, whole),
    ensures
        a == b,
{
    if !is_nearest_to(0, original, part, whole) {
        lemma_rounding_is_unique(a, b, original, part, whole);
    }
}

/// Only one whole number is nearest to the scaled length.
pub proof fn lemma_nearest_is_unique(a: int, b: int, original: int, millionths: int)
    requires
        is_nearest(a, original, millionths),
        is_nearest(b, original, millionths),
    ensures
        a == b,
{
    lemma_rounding_is_unique(a, b, original, millionths, WHOLE as int);
}

/// Only one length is the new length of a side.
pub proof fn lemma_scaled_is_unique(a: int, b: int, original: int, millionths: int)
    requires
        is_scaled(a, original, millionths),
        is_scaled(b, original, millionths),
    ensures
        a == b,
{
    lemma_new_length_is_unique(a, b, original, millionths, WHOLE as int);
}

/// With the whole area kept, a side keeps its length, but for a side of
/// length 0, which becomes 1.
pub proof fn lemma_whole_ratio_keeps_length(original: int)
    requires
        0 <= original,
    ensures
        is_scaled(
            if original == 0 {
                1
            } else {
                original
            },
            original,
            WHOLE as int,
        ),
{
    let w = original;
    assert(4 * w * w * WHOLE < (2 * w + 1) * (2 * w + 1) * WHOLE) by (nonlinear_arith)
        requires
            w >= 0,
    ;
    if w >= 1 {
        assert((2 * w - 1) * (2 * w - 1) * WHOLE <= 4 * w * w * WHOLE) by (nonlinear_arith)
            requires
                w >= 1,
        ;
        assert(!(4 * w * w * WHOLE < 1 * WHOLE)) by (nonlinear_arith)
            requires
                w >= 1,
        ;
    }
}

/// The new length of a side is at least 1, and no longer than the side
/// unless the side has length 0.
pub proof fn lemma_scaled_is_bounded(d: int, original: int, millionths: int)
    requires
        is_scaled(d, original, millionths),
        0 <= original,
        0 < millionths <= WHOLE,
    ensures
        1 <= d,
        d <= original || d == 1,
{
    if !is_nearest(0, original, millionths) && d > original {
        let w = original;
        assert((2 * d - 1) * (2 * d - 1) >= (2 * w + 1) * (2 * w + 1)) by (nonlinear_arith)
            requires
                d >= w + 1,
                w >= 0,
        ;
        assert((2 * w + 1) * (2 * w + 1) * WHOLE > 4 * w * w * millionths) by (nonlinear_arith)
            requires
                w >= 0,
                0 < millionths <= WHOLE,
                WHOLE == 1_000_000,
        ;
        assert((2 * d - 1) * (2 * d - 1) * WHOLE >= (2 * w + 1) * (2 * w + 1) * WHOLE)
            by (nonlinear_arith)
            requires
                (2 * d - 1) * (2 * d - 1) >= (2 * w + 1) * (2 * w + 1),
        ;
    }
}

/// The whole part of the square root of `n`.
pub fn integer_sqrt(n: u128) -> (r: u64)
    ensures
        r * r <= n < (r + 1) * (r + 1),
{
    let mut lo: u128 = 0;
    let mut hi: u128 = 0x1_0000_0000_0000_0000;
    assert(hi * hi > n) by (nonlinear_arith)
        requires
            hi == 0x1_0000_0000_0000_0000,
            n <= 0xffff_ffff_ffff_ffff_ffff_ffff_ffff_ffff,
    ;
    while hi - lo > 1
        invariant
            0 <= lo < hi <= 0x1_0000_0000_0000_0000,
            lo * lo <= n < hi * hi,
        decreases hi - lo,
    {
        let mid: u128 = lo + (hi - lo) / 2;
        assert(mid * mid <= 0xffff_ffff_ffff_ffff * 0xffff_ffff_ffff_ffff) by (nonlinear_arith)
            requires
                0 <= mid <= 0xffff_ffff_ffff_ffff,
        ;
        if mid * mid <= n {
            lo = mid;
        } else {
            hi = mid;
        }
    }
    lo as u64
}

/// The new length of a side of length `original`: `original` times the
/// square root of the ratio, rounded to the nearest whole number, and at
/// least 1.
pub fn scaled_dimension(original: u32, ratio: Ratio) -> (d: u32)
    requires
        ratio.wf(),
    ensures
        is_scaled(d as int, original as int, ratio.millionths as int),
        1 <= d,
        d <= original || d == 1,
{
    let w: u128 = original as u128;
    let m: u128 = ratio.millionths as u128;
    assert(w * w <= 0xffff_ffff * 0xffff_ffff) by (nonlinear_arith)
        requires
            0 <= w <= 0xffff_ffff,
    ;
    let square: u128 = w * w;
    assert(4 * square * m <= 4 * (0xffff_ffff * 0xffff_ffff) * 1_000_000) by (nonlinear_arith)
        requires
            0 <= square <= 0xffff_ffff * 0xffff_ffff,
            0 <= m <= 1_000_000,
    ;
    let n: u128 = 4 * square * m;
    let q: u128 = n / (WHOLE as u128);
    let t: u64 = integer_sqrt(q);
    proof {
        // t is at most twice the original length.
        assert(q <= 4 * square) by (nonlinear_arith)
            requires
                q == (4 * square * m) / 1_000_000,
                0 <= m <= 1_000_000,
                0 <= square,
        ;
        assert(t <= 2 * w) by (nonlinear_arith)
            requires
                t * t <= q,
                q <= 4 * (w * w),
                0 <= t,
                0 <= w,
        ;
    }
    let d: u64 = (t + 1) / 2;
    proof {
        let di = d as int;
        let ti = t as int;
        let ni = n as int;
        let qi = q as int;
        assert(ni == 4 * original * original * ratio.millionths) by (nonlinear_arith)
            requires
                ni == 4 * (w * w) * m,
                w == original,
                m == ratio.millionths,
        ;
        assert(qi * WHOLE <= ni < (qi + 1) * WHOLE) by (nonlinear_arith)
            requires
                qi == ni / 1_000_000,
                WHOLE == 1_000_000,
        ;
        assert(2 * di - 1 <= ti <= 2 * di);
        // Upper bound: (2d + 1)^2 >= (t + 1)^2 > q.
        assert((2 * di + 1) * (2 * di + 1) >= (ti + 1) * (ti + 1)) by (nonlinear_arith)
            requires
                2 * di + 1 >= ti + 1,
                ti >= 0,
        ;
        assert((2 * di + 1) * (2 * di + 1) * WHOLE >= (qi + 1) * WHOLE) by (nonlinear_arith)
            requires
                (2 * di + 1) * (2 * di + 1) >= qi + 1,
        ;
        // Lower bound: (2d - 1)^2 <= t^2 <= q.
        if di >= 1 {
            assert((2 * di - 1) * (2 * di - 1) <= ti * ti) by (nonlinear_arith)
                requires
                    0 <= 2 * di - 1 <= ti,
            ;
            assert((2 * di - 1) * (2 * di - 1) * WHOLE <= qi * WHOLE) by (nonlinear_arith)
                requires
                    (2 * di - 1) * (2 * di - 1) <= qi,
            ;
        }
        assert(is_nearest(di, original as int, ratio.millionths as int));
        if is_nearest(0, original as int, ratio.millionths as int) {
            lemma_nearest_is_unique(di, 0, original as int, ratio.millionths as int);
        }
    }
    if d == 0 {
        1
    } else {
        d as u32
    }
}

/// Calls `image::imageops::resize` with the filter `Lanczos3` on the image
/// that `pixels` holds, and hands out the samples of the result. The crate
/// allocates the result with its new dimensions, so the samples fill them.
/// Where the new dimensions are the old ones it copies the image; else what
/// the samples are depends on floating-point arithmetic and is not stated.
/// The crate panics where a buffer is larger than a vector can be: the
/// caller rules that out.
#[verifier::external_body]
fn resample(
    width: u32,
    height: u32,
    channels: Channels,
    pixels: Vec<u8>,
    new_width: u32,
    new_height: u32,
) -> (r: Vec<u8>)
    requires
        pixels@.len() == byte_len(width as int, height as int, channels.spec_count()),
        byte_len(width as int, new_height as int, 16) <= isize::MAX,
        byte_len(new_width as int, new_height as int, 16) <= isize::MAX,
    ensures
        r@.len() == byte_len(new_width as int, new_height as int, channels.spec_count()),
        new_width == width && new_height == height ==> r@ == pixels@,
{
    let filter = image::imageops::FilterType::Lanczos3;
    match channels {
        Channels::Rgb => {
            let img = image::RgbImage::from_raw(width, height, pixels).unwrap();
            image::imageops::resize(&img, new_width, new_height, filter).into_raw()
        },
        Channels::Rgba => {
            let img = image::RgbaImage::from_raw(width, height, pixels).unwrap();
            image::imageops::resize(&img, new_width, new_height, filter).into_raw()
        },
    }
}

/// Whether an image of this size can be resized: the working buffer of the
/// resampling, sixteen bytes per pixel, must fit in memory's address range.
pub open spec fn resizable(img: TransformedImage) -> bool {
    byte_len(
        if img.width == 0 {
            1
        } else {
            img.width as int
        },
        if img.height == 0 {
            1
        } else {
            img.height as int
        },
        16,
    ) <= isize::MAX
}

/// Whether an image can be resized.
pub fn can_resize(img: &TransformedImage) -> (b: bool)
    ensures
        b == resizable(*img),
{
    let w: u32 = if img.width == 0 {
        1
    } else {
        img.width
    };
    let h: u32 = if img.height == 0 {
        1
    } else {
        img.height
    };
    assert(w * h <= 0xffff_ffff * 0xffff_ffff) by (nonlinear_arith)
        requires
            0 <= w <= 0xffff_ffff,
            0 <= h <= 0xffff_ffff,
    ;
    let area: u128 = (w as u128) * (h as u128);
    assert(area * 16 <= 0xffff_ffff * 0xffff_ffff * 16) by (nonlinear_arith)
        requires
            0 <= area <= 0xffff_ffff * 0xffff_ffff,
    ;
    area * 16 <= isize::MAX as u128
}

/// Resizes an image to the given ratio of its area: both sides are scaled by
/// the square root of the ratio, and the pixels are resampled with a
/// Lanczos filter of three lobes. The channel layout is kept, and an image
/// whose sides stay as they are keeps its pixels.
pub fn resize_image(img: TransformedImage, ratio: Ratio) -> (r: TransformedImage)
    requires
        img.wf(),
        ratio.wf(),
        resizable(img),
    ensures
        r.wf(),
        r.channels == img.channels,
        is_scaled(r.width as int, img.width as int, ratio.millionths as int),
        is_scaled(r.height as int, img.height as int, ratio.millionths as int),
        r.width == img.width && r.height == img.height ==> r.pixels@ == img.pixels@,
{
    let new_width = scaled_dimension(img.width, ratio);
    let new_height = scaled_dimension(img.height, ratio);
    let channels = img.channels;
    proof {
        let w = img.width as int;
        let h = img.height as int;
        let nw = new_width as int;
        let nh = new_height as int;
        let w1 = if w == 0 {
            1
        } else {
            w
        };
        let h1 = if h == 0 {
            1
        } else {
            h
        };
        assert(nw <= w1 && nh <= h1);
        assert(w * nh * 16 <= w1 * h1 * 16) by (nonlinear_arith)
            requires
                0 <= w <= w1,
                0 <= nh <= h1,
        ;
        assert(nw * nh * 16 <= w1 * h1 * 16) by (nonlinear_arith)
            requires
                0 <= nw <= w1,
                0 <= nh <= h1,
        ;
    }
    let pixels = resample(img.width, img.height, channels, img.pixels, new_width, new_height);
    TransformedImage { width: new_width, height: new_height, channels, pixels }
}

} // verus!
