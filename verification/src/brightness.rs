//! Brightness: reading the option, and multiplying the colour channels.
//!
//! A factor is held in millionths: `1_200_000` stands for 1.2.

use vstd::prelude::*;
use vstd::arithmetic::power::pow;
use crate::number::{
    capped, digit_run, fixed_value, minus_at, number_of, parse_fixed, sign_width,
};
use crate::raster::{Channels, TransformedImage};
use crate::text::{chars_of, spells, spells_word, trim, trimmed};

verus! {

/// How the brightness of an image is to be changed.
#[derive(Clone, Copy, Debug, PartialEq, Eq)]
pub enum BrightnessMode {
    /// Leave the image as it is.
    Unchanged,
    /// Let the decoder choose the exposure; the pixels are not touched
    /// afterwards.
    Auto,
    /// Multiply the colour channels by this factor, in millionths.
    Factor(i64),
}

/// Millionths in one.
pub const UNIT: i64 = 1_000_000;

/// Whether `.`, `e` or `E` stands in `t`.
pub open spec fn has_float_mark(t: Seq<char>) -> bool {
    exists|i: int| 0 <= i < t.len() && (t[i] == '.' || t[i] == 'e' || t[i] == 'E')
}

/// The value in millionths of the whole number that `t` is, if it is one: an
/// optional sign and at least one digit.
pub open spec fn whole_value(t: Seq<char>) -> Option<int> {
    let from = sign_width(t, 0);
    let to = from + digit_run(t, from);
    if to > from && to == t.len() {
        let m = capped(number_of(t.subrange(from, to)) * UNIT);
        Some(
            if minus_at(t, 0) {
                -m
            } else {
                m
            },
        )
    } else {
        None
    }
}

/// The mode that a number stands for, or `Unchanged` where there is no
/// number.
pub open spec fn factor_or_none(value: Option<int>) -> BrightnessMode {
    match value {
        Some(v) => BrightnessMode::Factor(v as i64),
        None => BrightnessMode::Unchanged,
    }
}

/// The mode that the value of the brightness option stands for.
///
/// Whitespace around the value does not count. `true` and `auto` in any mix
/// of cases give `Auto`, `false` and `none` give `Unchanged`. A value that
/// ends in `%` is a number of hundredths; a value with `.`, `e` or `E` in it
/// is a decimal number; any other value is a whole number. A value that is
/// none of these gives `Unchanged`.
pub open spec fn brightness_of_text(text: Seq<char>) -> BrightnessMode {
    let t = trimmed(text);
    if spells(t, seq!['t', 'r', 'u', 'e']) || spells(t, seq!['a', 'u', 't', 'o']) {
        BrightnessMode::Auto
    } else if spells(t, seq!['f', 'a', 'l', 's', 'e']) || spells(t, seq!['n', 'o', 'n', 'e']) {
        BrightnessMode::Unchanged
    } else if t.len() > 0 && t.last() == '%' {
        factor_or_none(fixed_value(trimmed(t.drop_last()), 4))
    } else if has_float_mark(t) {
        factor_or_none(fixed_value(t, 6))
    } else {
        factor_or_none(whole_value(t))
    }
}

/// The mode that the brightness option stands for: without the option
/// `Unchanged`, with the bare option `Auto`, else what its value says.
pub open spec fn brightness_of(option: Option<Option<String>>) -> BrightnessMode {
    match option {
        None => BrightnessMode::Unchanged,
        Some(None) => BrightnessMode::Auto,
        Some(Some(s)) => brightness_of_text(s@),
    }
}

/// A string without `.`, `e` or `E` is a decimal literal exactly if it is a
/// whole number, and then both readings give the same value.
pub proof fn lemma_whole_number_is_literal(t: Seq<char>)
    requires
        !has_float_mark(t),
    ensures
        whole_value(t) == fixed_value(t, 6),
{
    let from = sign_width(t, 0);
    let to = from + digit_run(t, from);
    crate::number::lemma_digit_run(t, from);
    if to < t.len() {
        assert(!(t[to] == '.' || t[to] == 'e' || t[to] == 'E'));
    }
    assert(t.subrange(from, to) + t.subrange(to, to) =~= t.subrange(from, to));
    assert(pow(10, 6) == 1_000_000) by {
        reveal_with_fuel(pow, 7);
    }
}

/// Whether `v` spells `false` in any mix of cases.
fn spells_false(v: &Vec<char>) -> (r: bool)
    ensures
        r == spells(v@, seq!['f', 'a', 'l', 's', 'e']),
{
    let ghost word = seq!['f', 'a', 'l', 's', 'e'];
    if v.len() != 5 {
        return false;
    }
    let r = crate::text::same_letter(v[0], 'f') && crate::text::same_letter(v[1], 'a')
        && crate::text::same_letter(v[2], 'l') && crate::text::same_letter(v[3], 's')
        && crate::text::same_letter(v[4], 'e');
    proof {
        if r {
            assert forall|i: int| 0 <= i < v@.len() implies crate::text::is_letter(
                v@[i],
                word[i],
            ) by {
                if i == 0 {
                } else if i == 1 {
                } else if i == 2 {
                } else if i == 3 {
                } else {
                }
            }
        } else {
            if !crate::text::is_letter(v@[0], 'f') {
                assert(!crate::text::is_letter(v@[0], word[0]));
            } else if !crate::text::is_letter(v@[1], 'a') {
                assert(!crate::text::is_letter(v@[1], word[1]));
            } else if !crate::text::is_letter(v@[2], 'l') {
                assert(!crate::text::is_letter(v@[2], word[2]));
            } else if !crate::text::is_letter(v@[3], 's') {
                assert(!crate::text::is_letter(v@[3], word[3]));
            } else {
                assert(!crate::text::is_letter(v@[4], word[4]));
            }
        }
    }
    r
}

/// The mode that a parsed number stands for.
fn mode_of(value: Option<i64>) -> (m: BrightnessMode)
    ensures
        m == match value {
            Some(v) => BrightnessMode::Factor(v),
            None => BrightnessMode::Unchanged,
        },
{
    match value {
        Some(v) => BrightnessMode::Factor(v),
        None => BrightnessMode::Unchanged,
    }
}

/// Reads the value of the brightness option. Every string is read: one that
/// says nothing gives `Unchanged`.
pub fn parse_brightness_text(text: &str) -> (m: BrightnessMode)
    ensures
        m == brightness_of_text(text@),
{
    let chars = chars_of(text);
    let mut t = trim(&chars);
    if spells_word(&t, 't', 'r', 'u', 'e') || spells_word(&t, 'a', 'u', 't', 'o') {
        return BrightnessMode::Auto;
    }
    if spells_false(&t) || spells_word(&t, 'n', 'o', 'n', 'e') {
        return BrightnessMode::Unchanged;
    }
    let n = t.len();
    if n > 0 && t[n - 1] == '%' {
        let ghost whole = t@;
        t.pop();
        assert(t@ == whole.drop_last());
        let number = trim(&t);
        return mode_of(parse_fixed(&number, 4));
    }
    proof {
        if !has_float_mark(t@) {
            lemma_whole_number_is_literal(t@);
        }
    }
    mode_of(parse_fixed(&t, 6))
}

/// Reads the brightness option: absent, bare, or with a value. Total.
pub fn parse_brightness(option: &Option<Option<String>>) -> (m: BrightnessMode)
    ensures
        m == brightness_of(*option),
{
    match option {
        None => BrightnessMode::Unchanged,
        Some(None) => BrightnessMode::Auto,
        Some(Some(s)) => parse_brightness_text(s.as_str()),
    }
}

/// A channel value multiplied by a factor in millionths, cut off toward zero
/// and held within 0 to 255.
pub open spec fn scaled(p: u8, factor: i64) -> u8 {
    if factor <= 0 {
        0
    } else if p * factor / (UNIT as int) > 255 {
        255
    } else {
        (p * factor / (UNIT as int)) as u8
    }
}

/// Multiplies a channel value by a factor in millionths.
pub fn scale(p: u8, factor: i64) -> (r: u8)
    ensures
        r == scaled(p, factor),
{
    if factor <= 0 {
        0
    } else if factor >= 255 * UNIT {
        assert(p >= 1 ==> p * factor / (UNIT as int) >= 255) by (nonlinear_arith)
            requires
                factor >= 255 * UNIT,
                UNIT == 1_000_000,
        ;
        assert(p == 0 ==> p * factor / (UNIT as int) == 0) by (nonlinear_arith)
            requires
                UNIT == 1_000_000,
        ;
        if p == 0 {
            0
        } else {
            255
        }
    } else {
        assert(p * factor <= 255 * 255_000_000) by (nonlinear_arith)
            requires
                0 <= p <= 255,
                0 < factor < 255_000_000,
        ;
        assert(0 <= p * factor) by (nonlinear_arith)
            requires
                0 <= p,
                0 < factor,
        ;
        let v: u64 = (p as u64) * (factor as u64) / (UNIT as u64);
        if v > 255 {
            255
        } else {
            v as u8
        }
    }
}

/// The factor one keeps every channel value, no factor above nothing makes
/// a channel brighter than white or darker than black, and a greater
/// channel value never comes out darker than a smaller one.
pub proof fn lemma_scaled_is_sound(p: u8, q: u8, factor: i64)
    ensures
        scaled(p, UNIT) == p,
        scaled(p, 0) == 0,
        factor <= 0 ==> scaled(p, factor) == 0,
        scaled(0, factor) == 0,
        p <= q ==> scaled(p, factor) <= scaled(q, factor),
        factor >= UNIT ==> scaled(p, factor) >= p,
        0 <= factor <= UNIT ==> scaled(p, factor) <= p,
{
    let unit = UNIT as int;
    assert(p * unit / unit == p) by (nonlinear_arith)
        requires
            unit == 1_000_000,
    ;
    assert(0 * factor / unit == 0) by (nonlinear_arith)
        requires
            unit == 1_000_000,
    ;
    if factor > 0 {
        if p <= q {
            assert(p * factor / unit <= q * factor / unit) by (nonlinear_arith)
                requires
                    0 <= p <= q,
                    factor > 0,
                    unit == 1_000_000,
            ;
            assert(0 <= p * factor / unit) by (nonlinear_arith)
                requires
                    0 <= p,
                    factor > 0,
                    unit == 1_000_000,
            ;
        }
        if factor >= unit {
            assert(p * factor / unit >= p) by (nonlinear_arith)
                requires
                    0 <= p,
                    factor >= unit,
                    unit == 1_000_000,
            ;
        }
        if factor <= unit {
            assert(0 <= p * factor / unit <= p) by (nonlinear_arith)
                requires
                    0 <= p,
                    0 < factor <= unit,
                    unit == 1_000_000,
            ;
        }
    }
}

/// Whether `after` is `before` with its colour channels multiplied by
/// `factor`: an RGBA image of the same size, alpha as it was, fully opaque
/// where `before` had no alpha.
pub open spec fn brightened(before: TransformedImage, factor: i64, after: TransformedImage) -> bool {
    &&& after.width == before.width
    &&& after.height == before.height
    &&& after.channels == Channels::Rgba
    &&& after.wf()
    &&& forall|x: int, y: int, k: int|
        0 <= x < before.width && 0 <= y < before.height && 0 <= k < 4 ==> #[trigger] after.sample(
            x,
            y,
            k,
        ) == if k < 3 {
            scaled(before.sample(x, y, k), factor)
        } else {
            before.sample(x, y, 3)
        }
}

/// Applies a brightness mode. `Unchanged` and `Auto` hand the image back as
/// it is; a factor multiplies red, green and blue of every pixel and leaves
/// alpha alone.
pub fn apply_brightness(img: TransformedImage, mode: BrightnessMode) -> (r: TransformedImage)
    requires
        img.wf(),
    ensures
        r.wf(),
        mode is Unchanged || mode is Auto ==> r == img,
        mode matches BrightnessMode::Factor(f) ==> brightened(img, f, r),
{
    match mode {
        BrightnessMode::Unchanged => img,
        BrightnessMode::Auto => img,
        BrightnessMode::Factor(f) => multiply(&img, f),
    }
}

/// The image with its colour channels multiplied by `factor`.
fn multiply(img: &TransformedImage, factor: i64) -> (r: TransformedImage)
    requires
        img.wf(),
    ensures
        brightened(*img, factor, r),
{
    let c: usize = img.channels.count();
    let total: usize = img.pixels.len();
    let count: usize = total / c;
    let ghost w = img.width as int;
    let ghost h = img.height as int;
    proof {
        assert(w * h * c / (c as int) == w * h) by (nonlinear_arith)
            requires
                c == 3 || c == 4,
        ;
        assert(0 <= w * h) by (nonlinear_arith)
            requires
                0 <= w,
                0 <= h,
        ;
    }
    let mut out: Vec<u8> = Vec::new();
    let mut i: usize = 0;
    while i < count
        invariant
            0 <= i <= count,
            count == w * h,
            c == img.channels.spec_count(),
            total == img.pixels@.len(),
            total == count * c,
            out@.len() == 4 * i,
            forall|j: int, k: int|
                0 <= j < i && 0 <= k < 4 ==> #[trigger] out@[4 * j + k] == if k < 3 {
                    scaled(img.pixels@[j * c + k], factor)
                } else if c == 4 {
                    img.pixels@[j * c + 3]
                } else {
                    255u8
                },
        decreases count - i,
    {
        assert(i * c + c <= count * c) by (nonlinear_arith)
            requires
                i < count,
                c > 0,
        ;
        let base: usize = i * c;
        let r0 = scale(img.pixels[base], factor);
        let r1 = scale(img.pixels[base + 1], factor);
        let r2 = scale(img.pixels[base + 2], factor);
        let a: u8 = if c == 4 {
            img.pixels[base + 3]
        } else {
            255
        };
        let ghost before = out@;
        out.push(r0);
        out.push(r1);
        out.push(r2);
        out.push(a);
        proof {
            assert forall|j: int, k: int| 0 <= j < i + 1 && 0 <= k < 4 implies #[trigger] out@[4
                * j + k] == if k < 3 {
                scaled(img.pixels@[j * c + k], factor)
            } else if c == 4 {
                img.pixels@[j * c + 3]
            } else {
                255u8
            } by {
                if j < i {
                    assert(out@[4 * j + k] == before[4 * j + k]);
                }
            }
        }
        i += 1;
    }
    let r = TransformedImage {
        width: img.width,
        height: img.height,
        channels: Channels::Rgba,
        pixels: out,
    };
    proof {
        assert(4 * (w * h) == w * h * 4) by (nonlinear_arith);
        assert forall|x: int, y: int, k: int|
            0 <= x < img.width && 0 <= y < img.height && 0 <= k < 4 implies #[trigger] r.sample(
            x,
            y,
            k,
        ) == if k < 3 {
            scaled(img.sample(x, y, k), factor)
        } else {
            img.sample(x, y, 3)
        } by {
            let j = y * w + x;
            assert(0 <= j < w * h) by (nonlinear_arith)
                requires
                    0 <= x < w,
                    0 <= y < h,
                    j == y * w + x,
            ;
            assert(r.offset(x, y, k) == 4 * j + k) by (nonlinear_arith)
                requires
                    r.offset(x, y, k) == (y * w + x) * 4 + k,
                    j == y * w + x,
            ;
            assert(out@[4 * j + k] == if k < 3 {
                scaled(img.pixels@[j * c + k], factor)
            } else if c == 4 {
                img.pixels@[j * c + 3]
            } else {
                255u8
            });
        }
    }
    r
}

} // verus!
