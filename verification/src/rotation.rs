//! Rotation of a decoded image by quarter turns: which turn an angle or an
//! orientation code asks for, and the turning of the pixels.

use vstd::prelude::*;
use crate::raster::{byte_len, lemma_offset_in_bounds, Channels, TransformedImage};

verus! {

/// A clockwise rotation by a multiple of a quarter turn.
#[derive(Clone, Copy, Debug, PartialEq, Eq)]
pub enum Rotation {
    /// No rotation.
    Keep,
    /// 90 degrees.
    Quarter,
    /// 180 degrees.
    Half,
    /// 270 degrees.
    ThreeQuarters,
}

/// The angle, in degrees, that stands for `degrees` in `0..360`.
pub open spec fn reduced(degrees: int) -> int {
    degrees % 360
}

/// Reduces an angle in degrees modulo 360.
pub fn reduce_degrees(degrees: i32) -> (r: i32)
    ensures
        r == reduced(degrees as int),
        0 <= r < 360,
{
    let m: i32 = degrees % 360;
    if m < 0 {
        m + 360
    } else {
        m
    }
}

/// The rotation that an angle asks for: a quarter, a half or three quarters
/// of a turn for an angle that is 90, 180 or 270 modulo 360, and none for
/// any other angle.
pub open spec fn turn_of_degrees(degrees: int) -> Rotation {
    let r = reduced(degrees);
    if r == 90 {
        Rotation::Quarter
    } else if r == 180 {
        Rotation::Half
    } else if r == 270 {
        Rotation::ThreeQuarters
    } else {
        Rotation::Keep
    }
}

/// The rotation that an angle in degrees asks for.
pub fn rotation_for_degrees(degrees: i32) -> (r: Rotation)
    ensures
        r == turn_of_degrees(degrees as int),
{
    let reduced = reduce_degrees(degrees);
    if reduced == 90 {
        Rotation::Quarter
    } else if reduced == 180 {
        Rotation::Half
    } else if reduced == 270 {
        Rotation::ThreeQuarters
    } else {
        Rotation::Keep
    }
}

/// The rotation that an orientation code of a photograph asks for: 3 a half
/// turn, 6 a quarter turn, 8 three quarters, any other code none.
pub open spec fn turn_of_orientation(code: u32) -> Rotation {
    if code == 3 {
        Rotation::Half
    } else if code == 6 {
        Rotation::Quarter
    } else if code == 8 {
        Rotation::ThreeQuarters
    } else {
        Rotation::Keep
    }
}

/// The rotation that an orientation code asks for.
pub fn rotation_for_orientation(code: u32) -> (r: Rotation)
    ensures
        r == turn_of_orientation(code),
{
    if code == 3 {
        Rotation::Half
    } else if code == 6 {
        Rotation::Quarter
    } else if code == 8 {
        Rotation::ThreeQuarters
    } else {
        Rotation::Keep
    }
}

/// Reducing an angle a second time changes nothing, a reduced angle lies in
/// `0..360`, and angles that differ by full turns reduce to the same angle
/// and ask for the same rotation.
pub proof fn lemma_reduction_is_idempotent(degrees: int, turns: int)
    ensures
        reduced(reduced(degrees)) == reduced(degrees),
        0 <= reduced(degrees) < 360,
        reduced(degrees + 360 * turns) == reduced(degrees),
        turn_of_degrees(reduced(degrees)) == turn_of_degrees(degrees),
        turn_of_degrees(degrees + 360 * turns) == turn_of_degrees(degrees),
{
    vstd::arithmetic::div_mod::lemma_mod_multiples_vanish(turns, degrees, 360);
}

/// An angle asks for a rotation only if it is 90, 180 or 270 modulo 360.
pub proof fn lemma_other_angles_keep(degrees: int)
    ensures
        turn_of_degrees(degrees) is Keep <==> !(reduced(degrees) == 90 || reduced(degrees) == 180
            || reduced(degrees) == 270),
{
}

/// Column of the pixel of the original that comes to stand in column `x` of
/// row `y` of the rotated image. `w` and `h` are the original's dimensions.
pub open spec fn source_x(rotation: Rotation, w: int, h: int, x: int, y: int) -> int {
    match rotation {
        Rotation::Keep => x,
        Rotation::Quarter => y,
        Rotation::Half => w - 1 - x,
        Rotation::ThreeQuarters => w - 1 - y,
    }
}

/// Row of the pixel of the original that comes to stand in column `x` of row
/// `y` of the rotated image.
pub open spec fn source_y(rotation: Rotation, w: int, h: int, x: int, y: int) -> int {
    match rotation {
        Rotation::Keep => y,
        Rotation::Quarter => h - 1 - x,
        Rotation::Half => h - 1 - y,
        Rotation::ThreeQuarters => x,
    }
}

/// Width of the rotated image.
pub open spec fn turned_width(rotation: Rotation, w: int, h: int) -> int {
    match rotation {
        Rotation::Keep | Rotation::Half => w,
        Rotation::Quarter | Rotation::ThreeQuarters => h,
    }
}

/// Height of the rotated image.
pub open spec fn turned_height(rotation: Rotation, w: int, h: int) -> int {
    match rotation {
        Rotation::Keep | Rotation::Half => h,
        Rotation::Quarter | Rotation::ThreeQuarters => w,
    }
}

/// Whether `after` is `before` turned clockwise by `rotation`: an RGBA image
/// in which every pixel is the one of `before` that the turn brings there,
/// fully opaque where `before` had no alpha.
pub open spec fn turned(before: TransformedImage, rotation: Rotation, after: TransformedImage) -> bool {
    let w = before.width as int;
    let h = before.height as int;
    &&& after.width == turned_width(rotation, w, h)
    &&& after.height == turned_height(rotation, w, h)
    &&& after.channels == Channels::Rgba
    &&& after.wf()
    &&& forall|x: int, y: int, k: int|
        0 <= x < after.width && 0 <= y < after.height && 0 <= k < 4 ==> #[trigger] after.sample(
            x,
            y,
            k,
        ) == before.sample(source_x(rotation, w, h, x, y), source_y(rotation, w, h, x, y), k)
}

/// The turn brings each pixel of the original to one place in the rotated
/// image: a quarter turn brings the pixel in column `x` of row `y` to column
/// `h - 1 - y` of row `x`, a half turn to column `w - 1 - x` of row
/// `h - 1 - y`, three quarters to column `y` of row `w - 1 - x`.
pub proof fn lemma_turn_places_every_pixel(
    before: TransformedImage,
    rotation: Rotation,
    after: TransformedImage,
    x: int,
    y: int,
    k: int,
)
    requires
        turned(before, rotation, after),
        0 <= x < before.width,
        0 <= y < before.height,
        0 <= k < 4,
    ensures
        ({
            let w = before.width as int;
            let h = before.height as int;
            match rotation {
                Rotation::Keep => after.sample(x, y, k) == before.sample(x, y, k),
                Rotation::Quarter => after.sample(h - 1 - y, x, k) == before.sample(x, y, k),
                Rotation::Half => after.sample(w - 1 - x, h - 1 - y, k) == before.sample(x, y, k),
                Rotation::ThreeQuarters => after.sample(y, w - 1 - x, k) == before.sample(
                    x,
                    y,
                    k,
                ),
            }
        }),
{
    let w = before.width as int;
    let h = before.height as int;
    match rotation {
        Rotation::Keep => {
            assert(after.sample(x, y, k) == before.sample(x, y, k));
        },
        Rotation::Quarter => {
            assert(after.sample(h - 1 - y, x, k) == before.sample(x, y, k));
        },
        Rotation::Half => {
            assert(after.sample(w - 1 - x, h - 1 - y, k) == before.sample(x, y, k));
        },
        Rotation::ThreeQuarters => {
            assert(after.sample(y, w - 1 - x, k) == before.sample(x, y, k));
        },
    }
}

/// Two quarter turns make a half turn, and a quarter turn undoes three
/// quarters: the pixels come to stand where the one turn would have brought
/// them.
pub proof fn lemma_turns_compose(
    first: TransformedImage,
    second: TransformedImage,
    third: TransformedImage,
    x: int,
    y: int,
    k: int,
)
    requires
        0 <= k < 4,
    ensures
        turned(first, Rotation::Quarter, second) && turned(second, Rotation::Quarter, third) && 0
            <= x < first.width && 0 <= y < first.height ==> third.width == first.width
            && third.height == first.height && third.sample(x, y, k) == first.sample(
            first.width - 1 - x,
            first.height - 1 - y,
            k,
        ),
        turned(first, Rotation::ThreeQuarters, second) && turned(second, Rotation::Quarter, third)
            && 0 <= x < first.width && 0 <= y < first.height ==> third.width == first.width
            && third.height == first.height && third.sample(x, y, k) == first.sample(x, y, k),
        turned(first, Rotation::Half, second) && turned(second, Rotation::Half, third) && 0 <= x
            < first.width && 0 <= y < first.height ==> third.width == first.width && third.height
            == first.height && third.sample(x, y, k) == first.sample(x, y, k),
{
    let w = first.width as int;
    let h = first.height as int;
    if 0 <= x < w && 0 <= y < h {
        if turned(first, Rotation::Quarter, second) && turned(second, Rotation::Quarter, third) {
            // The second image is h wide and w high.
            assert(third.sample(x, y, k) == second.sample(y, w - 1 - x, k));
            assert(second.sample(y, w - 1 - x, k) == first.sample(w - 1 - x, h - 1 - y, k));
        }
        if turned(first, Rotation::ThreeQuarters, second) && turned(
            second,
            Rotation::Quarter,
            third,
        ) {
            assert(third.sample(x, y, k) == second.sample(y, w - 1 - x, k));
            assert(second.sample(y, w - 1 - x, k) == first.sample(x, y, k));
        }
        if turned(first, Rotation::Half, second) && turned(second, Rotation::Half, third) {
            assert(third.sample(x, y, k) == second.sample(w - 1 - x, h - 1 - y, k));
            assert(second.sample(w - 1 - x, h - 1 - y, k) == first.sample(x, y, k));
        }
    }
}

/// Channel `k` of the pixel in column `x` of row `y` of an RGBA buffer
/// whose rows hold `width` pixels.
pub open spec fn cell(out: Seq<u8>, width: int, x: int, y: int, k: int) -> u8 {
    out[4 * (y * width + x) + k]
}

/// The image turned clockwise by `rotation`, as an RGBA image. Without a
/// rotation the image is handed back as it is.
pub fn rotate(img: TransformedImage, rotation: Rotation) -> (r: TransformedImage)
    requires
        img.wf(),
    ensures
        r.wf(),
        rotation is Keep ==> r == img,
        !(rotation is Keep) ==> turned(img, rotation, r),
{
    match rotation {
        Rotation::Keep => img,
        _ => turn(&img, rotation),
    }
}

fn turn(img: &TransformedImage, rotation: Rotation) -> (r: TransformedImage)
    requires
        img.wf(),
        !(rotation is Keep),
    ensures
        turned(*img, rotation, r),
{
    let w: u32 = img.width;
    let h: u32 = img.height;
    let c: usize = img.channels.count();
    let total: usize = img.pixels.len();
    let (ow, oh): (u32, u32) = match rotation {
        Rotation::Half => (w, h),
        _ => (h, w),
    };
    let ghost wi = w as int;
    let ghost hi = h as int;
    let ghost owi = ow as int;
    let mut out: Vec<u8> = Vec::new();
    let mut oy: u32 = 0;
    proof {
        assert(4 * (0 * owi) == 0) by (nonlinear_arith);
    }
    while oy < oh
        invariant
            img.wf(),
            !(rotation is Keep),
            w == img.width,
            h == img.height,
            wi == w,
            hi == h,
            owi == ow,
            c == img.channels.spec_count(),
            total == img.pixels@.len(),
            ow == turned_width(rotation, wi, hi),
            oh == turned_height(rotation, wi, hi),
            0 <= oy <= oh,
            out@.len() == 4 * (oy * owi),
            forall|x: int, y: int, k: int|
                0 <= y < oy && 0 <= x < owi && 0 <= k < 4 ==> #[trigger] cell(out@, owi, x, y, k)
                    == img.sample(
                    source_x(rotation, wi, hi, x, y),
                    source_y(rotation, wi, hi, x, y),
                    k,
                ),
        decreases oh - oy,
    {
        let mut ox: u32 = 0;
        while ox < ow
            invariant
                img.wf(),
                !(rotation is Keep),
                w == img.width,
                h == img.height,
                wi == w,
                hi == h,
                owi == ow,
                c == img.channels.spec_count(),
                total == img.pixels@.len(),
                ow == turned_width(rotation, wi, hi),
                oh == turned_height(rotation, wi, hi),
                0 <= oy < oh,
                0 <= ox <= ow,
                out@.len() == 4 * (oy * owi + ox),
                forall|x: int, y: int, k: int|
                    0 <= y < oy && 0 <= x < owi && 0 <= k < 4 ==> #[trigger] cell(
                        out@,
                        owi,
                        x,
                        y,
                        k,
                    ) == img.sample(
                        source_x(rotation, wi, hi, x, y),
                        source_y(rotation, wi, hi, x, y),
                        k,
                    ),
                forall|x: int, k: int|
                    0 <= x < ox && 0 <= k < 4 ==> #[trigger] cell(out@, owi, x, oy as int, k)
                        == img.sample(
                        source_x(rotation, wi, hi, x, oy as int),
                        source_y(rotation, wi, hi, x, oy as int),
                        k,
                    ),
            decreases ow - ox,
        {
            let (sx, sy): (u32, u32) = match rotation {
                Rotation::Quarter => (oy, h - 1 - ox),
                Rotation::Half => (w - 1 - ox, h - 1 - oy),
                _ => (w - 1 - oy, ox),
            };
            proof {
                assert(sx == source_x(rotation, wi, hi, ox as int, oy as int));
                assert(sy == source_y(rotation, wi, hi, ox as int, oy as int));
                lemma_offset_in_bounds(*img, sx as int, sy as int, 0);
                lemma_offset_in_bounds(*img, sx as int, sy as int, c - 1);
                assert(sy * wi <= sy * wi + sx);
                assert(0 <= sy * wi) by (nonlinear_arith)
                    requires
                        0 <= sy,
                        0 <= wi,
                ;
                assert(sy * wi + sx <= (sy * wi + sx) * c) by (nonlinear_arith)
                    requires
                        0 <= sy * wi + sx,
                        c >= 1,
                ;
            }
            let base: usize = ((sy as usize) * (w as usize) + (sx as usize)) * c;
            let p0 = img.pixels[base];
            let p1 = img.pixels[base + 1];
            let p2 = img.pixels[base + 2];
            let p3: u8 = if c == 4 {
                img.pixels[base + 3]
            } else {
                255
            };
            let ghost before = out@;
            let ghost at = 4 * (oy * owi + ox);
            out.push(p0);
            out.push(p1);
            out.push(p2);
            out.push(p3);
            proof {
                assert(4 * (oy * owi + (ox + 1)) == at + 4) by (nonlinear_arith)
                    requires
                        at == 4 * (oy * owi + ox),
                ;
                assert forall|x: int, y: int, k: int|
                    0 <= y < oy && 0 <= x < owi && 0 <= k < 4 implies #[trigger] cell(
                    out@,
                    owi,
                    x,
                    y,
                    k,
                ) == img.sample(
                    source_x(rotation, wi, hi, x, y),
                    source_y(rotation, wi, hi, x, y),
                    k,
                ) by {
                    assert(4 * (y * owi + x) + k < at) by (nonlinear_arith)
                        requires
                            0 <= y < oy,
                            0 <= x < owi,
                            0 <= k < 4,
                            0 <= ox,
                            at == 4 * (oy * owi + ox),
                    ;
                    assert(0 <= 4 * (y * owi + x) + k) by (nonlinear_arith)
                        requires
                            0 <= y,
                            0 <= x,
                            0 <= owi,
                            0 <= k,
                    ;
                    assert(cell(out@, owi, x, y, k) == cell(before, owi, x, y, k));
                }
                assert forall|x: int, k: int| 0 <= x < ox + 1 && 0 <= k < 4 implies #[trigger] cell(
                    out@,
                    owi,
                    x,
                    oy as int,
                    k,
                ) == img.sample(
                    source_x(rotation, wi, hi, x, oy as int),
                    source_y(rotation, wi, hi, x, oy as int),
                    k,
                ) by {
                    assert(4 * (oy * owi + x) + k == at - 4 * (ox - x) + k) by (nonlinear_arith)
                        requires
                            at == 4 * (oy * owi + ox),
                    ;
                    if x < ox {
                        assert(0 <= 4 * (oy * owi + x) + k) by (nonlinear_arith)
                            requires
                                0 <= oy,
                                0 <= x,
                                0 <= owi,
                                0 <= k,
                        ;
                        assert(cell(out@, owi, x, oy as int, k) == cell(
                            before,
                            owi,
                            x,
                            oy as int,
                            k,
                        ));
                    } else {
                        assert(img.offset(sx as int, sy as int, k) == base + k);
                    }
                }
            }
            ox += 1;
        }
        proof {
            assert(4 * (oy * owi + owi) == 4 * ((oy + 1) * owi)) by (nonlinear_arith);
        }
        oy += 1;
    }
    let r = TransformedImage { width: ow, height: oh, channels: Channels::Rgba, pixels: out };
    proof {
        assert(4 * (oh * owi) == byte_len(ow as int, oh as int, 4)) by (nonlinear_arith)
            requires
                owi == ow,
        ;
        assert forall|x: int, y: int, k: int|
            0 <= x < r.width && 0 <= y < r.height && 0 <= k < 4 implies #[trigger] r.sample(
            x,
            y,
            k,
        ) == img.sample(
            source_x(rotation, wi, hi, x, y),
            source_y(rotation, wi, hi, x, y),
            k,
        ) by {
            assert(r.offset(x, y, k) == 4 * (y * owi + x) + k) by (nonlinear_arith)
                requires
                    r.offset(x, y, k) == (y * owi + x) * 4 + k,
            ;
            assert(r.sample(x, y, k) == cell(out@, owi, x, y, k));
        }
    }
    r
}

} // verus!
