//! A job and the transform stage: what is done to a decoded image, in which
//! order, before it is encoded.

use vstd::prelude::*;
use vstd::string::StringExecFns;
use crate::brightness::{apply_brightness, brightened, BrightnessMode};
use crate::codec::{encode, is_encoding, EncodeError, OutputFormat};
use crate::scheduler::Outcome;
use crate::sniff::{is_nef_file, looks_like_nef};
use crate::orientation::{resolve_rotation, turn_for, RotationSpec};
use crate::raster::{byte_len, Channels, TransformedImage};
use crate::resize::{
    is_scaled, lemma_scaled_is_unique, lemma_whole_ratio_keeps_length, resizable, resize_image,
    Ratio, WHOLE,
};
use crate::rotation::{rotate, turned, turned_height, turned_width, Rotation};
use crate::session::DecodeOptions;

verus! {

/// The options of a job.
#[derive(Clone, Copy, Debug, PartialEq, Eq)]
pub struct JobOptions {
    pub ratio: Ratio,
    pub brightness: BrightnessMode,
    pub rotation: RotationSpec,
    pub enhance: bool,
    pub use_preview: bool,
    pub debug: bool,
}

/// Where one result of a job goes, and in which format.
#[derive(Clone, Debug, PartialEq, Eq)]
pub struct OutputTarget {
    pub path: String,
    pub format: OutputFormat,
}

/// One unit of work: one input file and the files to make of it.
#[derive(Clone, Debug, PartialEq, Eq)]
pub struct Job {
    pub input: String,
    pub outputs: Vec<OutputTarget>,
    pub options: JobOptions,
}

/// The factor that enhancing multiplies the colour channels by, in
/// millionths.
pub const ENHANCE_FACTOR: i64 = 1_050_000;

/// The blur that enhancing sharpens against: the sigma of a Gaussian.
pub const SHARPEN_SIGMA: u8 = 1;

/// The smallest difference of a channel that enhancing sharpens.
pub const SHARPEN_THRESHOLD: i32 = 1;

/// The options of the decode that a job asks for: the preview if the job
/// wants it, and the decoder's automatic brightness exactly for the mode
/// `Auto`.
pub fn decode_options(options: &JobOptions) -> (r: DecodeOptions)
    ensures
        r.use_preview == options.use_preview,
        r.auto_brightness == (options.brightness is Auto),
{
    DecodeOptions {
        use_preview: options.use_preview,
        auto_brightness: match options.brightness {
            BrightnessMode::Auto => true,
            _ => false,
        },
    }
}

/// Whether `after` may be what sharpening makes of the sample `before`. A
/// sample is left as it is or moved away from the blurred sample by their
/// difference, and held within 0 to 255: so it lies between `2 * before -
/// 255` and `2 * before`.
pub open spec fn sharpened_sample(before: u8, after: u8) -> bool {
    2 * before - 255 <= after <= 2 * before
}

/// Calls `image::imageops::unsharpen` on the RGBA image that `pixels`
/// holds, with `sigma` as the blur and `threshold` as the threshold, and
/// hands out the samples of the result. The crate asks for a blur above
/// nothing. It gives the result the dimensions of the image, so the samples
/// fill them, and it makes each sample from the sample in the same place and
/// its blurred value, an 8-bit sample too: the sample itself, or twice the
/// sample less the blurred one, held within 0 to 255. What the blurred
/// values are depends on floating-point arithmetic and is not stated.
#[verifier::external_body]
fn unsharpen(width: u32, height: u32, pixels: Vec<u8>, sigma: u8, threshold: i32) -> (r: Vec<u8>)
    requires
        width >= 1,
        height >= 1,
        sigma >= 1,
        pixels@.len() == byte_len(width as int, height as int, 4),
        byte_len(width as int, height as int, 16) <= isize::MAX,
    ensures
        r@.len() == byte_len(width as int, height as int, 4),
        forall|i: int| 0 <= i < r@.len() ==> sharpened_sample(pixels@[i], #[trigger] r@[i]),
{
    let img = image::RgbaImage::from_raw(width, height, pixels).unwrap();
    image::imageops::unsharpen(&img, sigma.into(), threshold).into_raw()
}

/// Whether `after` is an RGBA image of the size of `before`.
pub open spec fn same_shape(before: TransformedImage, after: TransformedImage) -> bool {
    &&& after.wf()
    &&& after.width == before.width
    &&& after.height == before.height
    &&& after.channels == Channels::Rgba
}

/// What resizing makes of an image: an image of the same channels whose
/// sides are the scaled sides, and with the pixels of the image where the
/// sides stay as they are.
pub open spec fn resized(before: TransformedImage, ratio: Ratio, after: TransformedImage) -> bool {
    &&& after.wf()
    &&& after.channels == before.channels
    &&& is_scaled(after.width as int, before.width as int, ratio.millionths as int)
    &&& is_scaled(after.height as int, before.height as int, ratio.millionths as int)
    &&& after.width == before.width && after.height == before.height ==> after.pixels@
        == before.pixels@
}

/// What the brightness stage makes of an image.
pub open spec fn brightness_stage(
    before: TransformedImage,
    mode: BrightnessMode,
    after: TransformedImage,
) -> bool {
    match mode {
        BrightnessMode::Factor(f) => brightened(before, f, after),
        _ => after == before,
    }
}

/// What the rotation stage makes of an image.
pub open spec fn rotation_stage(
    before: TransformedImage,
    rotation: Rotation,
    after: TransformedImage,
) -> bool {
    if rotation is Keep {
        after == before
    } else {
        turned(before, rotation, after)
    }
}

/// Whether `after` may be what sharpening makes of the RGBA image
/// `before`: an image of the same shape in which every sample is a
/// sharpened form of the sample in its place.
pub open spec fn sharpened(before: TransformedImage, after: TransformedImage) -> bool {
    &&& same_shape(before, after)
    &&& forall|i: int|
        0 <= i < after.pixels@.len() ==> sharpened_sample(
            before.pixels@[i],
            #[trigger] after.pixels@[i],
        )
}

/// What enhancing makes of an image: the colour channels are multiplied by
/// the enhance factor, and the result is sharpened.
pub open spec fn enhanced(before: TransformedImage, after: TransformedImage) -> bool {
    exists|lit: TransformedImage| #[trigger]
        brightened(before, ENHANCE_FACTOR, lit) && sharpened(lit, after)
}

/// What the enhance stage makes of an image.
pub open spec fn enhance_stage(before: TransformedImage, on: bool, after: TransformedImage) -> bool {
    if on {
        enhanced(before, after)
    } else {
        after == before
    }
}

/// Whether `after` is what the transform stage makes of `before`: the
/// image is resized, then the brightness is applied, then the rotation,
/// then the enhancement, each to the result of the stage before.
pub open spec fn transformed(
    before: TransformedImage,
    options: JobOptions,
    rotation: Rotation,
    after: TransformedImage,
) -> bool {
    exists|a: TransformedImage, b: TransformedImage, c: TransformedImage| #[trigger]
        resized(before, options.ratio, a) && #[trigger] brightness_stage(a, options.brightness, b)
            && #[trigger] rotation_stage(b, rotation, c) && enhance_stage(c, options.enhance, after)
}

/// Whether an image can be enhanced: it has pixels, and the working buffer
/// of the sharpening, sixteen bytes per pixel, fits in memory's address
/// range.
pub open spec fn enhanceable(img: TransformedImage) -> bool {
    &&& img.width >= 1
    &&& img.height >= 1
    &&& byte_len(img.width as int, img.height as int, 16) <= isize::MAX
}

/// Whether an image can be enhanced.
pub fn can_enhance(img: &TransformedImage) -> (b: bool)
    ensures
        b == enhanceable(*img),
{
    if img.width == 0 || img.height == 0 {
        return false;
    }
    assert(img.width * img.height <= 0xffff_ffff * 0xffff_ffff) by (nonlinear_arith)
        requires
            0 <= img.width <= 0xffff_ffff,
            0 <= img.height <= 0xffff_ffff,
    ;
    let area: u128 = (img.width as u128) * (img.height as u128);
    area * 16 <= isize::MAX as u128
}

/// Enhances an image: a slight brightening followed by a mild sharpening.
pub fn enhance(img: TransformedImage) -> (r: TransformedImage)
    requires
        img.wf(),
        enhanceable(img),
    ensures
        enhanced(img, r),
        r.wf(),
{
    let lit = apply_brightness(img, BrightnessMode::Factor(ENHANCE_FACTOR));
    let ghost lit_image = lit;
    let width = lit.width;
    let height = lit.height;
    let pixels = unsharpen(width, height, lit.pixels, SHARPEN_SIGMA, SHARPEN_THRESHOLD);
    let r = TransformedImage { width, height, channels: Channels::Rgba, pixels };
    assert(brightened(img, ENHANCE_FACTOR, lit_image) && sharpened(lit_image, r));
    r
}

/// With the whole area kept, the brightness left as it is, no rotation and
/// no enhancement, the transform stage keeps an image that has pixels: its
/// sides, its channels and every sample.
pub proof fn lemma_plain_transform_keeps_the_image(
    before: TransformedImage,
    options: JobOptions,
    rotation: Rotation,
    after: TransformedImage,
)
    requires
        before.width >= 1,
        before.height >= 1,
        options.ratio.millionths == WHOLE,
        !(options.brightness is Factor),
        rotation is Keep,
        !options.enhance,
        transformed(before, options, rotation, after),
    ensures
        after.width == before.width,
        after.height == before.height,
        after.channels == before.channels,
        after.pixels@ == before.pixels@,
{
    let (a, b, c) = choose|a: TransformedImage, b: TransformedImage, c: TransformedImage| #[trigger]
        resized(before, options.ratio, a) && #[trigger] brightness_stage(a, options.brightness, b)
            && #[trigger] rotation_stage(b, rotation, c) && enhance_stage(
            c,
            options.enhance,
            after,
        );
    lemma_whole_ratio_keeps_length(before.width as int);
    lemma_whole_ratio_keeps_length(before.height as int);
    lemma_scaled_is_unique(a.width as int, before.width as int, before.width as int, WHOLE as int);
    lemma_scaled_is_unique(
        a.height as int,
        before.height as int,
        before.height as int,
        WHOLE as int,
    );
}

/// Whatever the options, the sides of what the transform stage gives are
/// the scaled sides of the image, one for the other where the rotation is a
/// quarter turn or three.
pub proof fn lemma_transform_scales_the_sides(
    before: TransformedImage,
    options: JobOptions,
    rotation: Rotation,
    after: TransformedImage,
)
    requires
        transformed(before, options, rotation, after),
    ensures
        is_scaled(
            turned_width(rotation, after.width as int, after.height as int),
            before.width as int,
            options.ratio.millionths as int,
        ),
        is_scaled(
            turned_height(rotation, after.width as int, after.height as int),
            before.height as int,
            options.ratio.millionths as int,
        ),
{
    let (a, b, c) = choose|a: TransformedImage, b: TransformedImage, c: TransformedImage| #[trigger]
        resized(before, options.ratio, a) && #[trigger] brightness_stage(a, options.brightness, b)
            && #[trigger] rotation_stage(b, rotation, c) && enhance_stage(
            c,
            options.enhance,
            after,
        );
    if options.enhance {
        let lit = choose|lit: TransformedImage| #[trigger]
            brightened(c, ENHANCE_FACTOR, lit) && sharpened(lit, after);
    }
}

/// The transform stage with the rotation already decided: resize, then
/// brightness, then rotation, then enhancement.
pub fn transform_with(
    img: TransformedImage,
    options: &JobOptions,
    rotation: Rotation,
) -> (r: TransformedImage)
    requires
        img.wf(),
        options.ratio.wf(),
        resizable(img),
    ensures
        r.wf(),
        transformed(img, *options, rotation, r),
{
    let ghost w = img.width as int;
    let ghost h = img.height as int;
    let a = resize_image(img, options.ratio);
    let ghost stage_a = a;
    proof {
        let w1 = if w == 0 {
            1
        } else {
            w
        };
        let h1 = if h == 0 {
            1
        } else {
            h
        };
        crate::resize::lemma_scaled_is_bounded(a.width as int, w, options.ratio.millionths as int);
        crate::resize::lemma_scaled_is_bounded(a.height as int, h, options.ratio.millionths as int);
        assert(a.width * a.height * 16 <= w1 * h1 * 16) by (nonlinear_arith)
            requires
                1 <= a.width <= w1,
                1 <= a.height <= h1,
        ;
    }
    let b = apply_brightness(a, options.brightness);
    let ghost stage_b = b;
    let c = rotate(b, rotation);
    let ghost stage_c = c;
    proof {
        assert(c.width * c.height == b.width * b.height) by (nonlinear_arith)
            requires
                (c.width == b.width && c.height == b.height) || (c.width == b.height && c.height
                    == b.width),
        ;
    }
    let r = if options.enhance {
        enhance(c)
    } else {
        c
    };
    assert(resized(img, options.ratio, stage_a) && brightness_stage(
        stage_a,
        options.brightness,
        stage_b,
    ) && rotation_stage(stage_b, rotation, stage_c) && enhance_stage(
        stage_c,
        options.enhance,
        r,
    ));
    r
}

/// The transform stage of a job: the decoded image is resized, brightened,
/// rotated and enhanced, in this order. The rotation `auto` is read from
/// the bytes of the original file.
pub fn transform(img: TransformedImage, options: &JobOptions, original: &[u8]) -> (r:
    TransformedImage)
    requires
        img.wf(),
        options.ratio.wf(),
        resizable(img),
    ensures
        r.wf(),
        transformed(img, *options, turn_for(options.rotation, original@), r),
{
    let rotation = resolve_rotation(options.rotation, original);
    transform_with(img, options, rotation)
}

/// What is done with a file before it is decoded: a file that does not pass
/// for a RAW image is skipped, which is no failure.
pub fn screen(head: &[u8]) -> (r: Option<Outcome>)
    ensures
        looks_like_nef(head@) ==> r.is_none(),
        !looks_like_nef(head@) ==> r == Some(Outcome::Skipped),
{
    if is_nef_file(head) {
        None
    } else {
        Some(Outcome::Skipped)
    }
}

/// The texts joined, `; ` between them.
pub open spec fn joined(texts: Seq<String>) -> Seq<char>
    decreases texts.len(),
{
    if texts.len() == 0 {
        Seq::empty()
    } else if texts.len() == 1 {
        texts[0]@
    } else {
        joined(texts.drop_last()) + seq![';', ' '] + texts.last()@
    }
}

/// Whether `outcome` is how a job ended whose outputs failed for the given
/// reasons: a success with the time that it took if no output failed, else
/// a failure that names every reason.
pub open spec fn is_conclusion(elapsed_ms: u64, failures: Seq<String>, outcome: Outcome) -> bool {
    if failures.len() == 0 {
        outcome == Outcome::Success(elapsed_ms)
    } else {
        outcome matches Outcome::Error(why) && why@ == joined(failures)
    }
}

/// How a job ended that was decoded and transformed: it succeeded if every
/// output was written.
pub fn conclude(elapsed_ms: u64, failures: &Vec<String>) -> (outcome: Outcome)
    ensures
        is_conclusion(elapsed_ms, failures@, outcome),
{
    if failures.len() == 0 {
        return Outcome::Success(elapsed_ms);
    }
    let mut why = failures[0].clone();
    let mut i: usize = 1;
    assert(failures@.take(1) =~= seq![failures@[0]]);
    while i < failures.len()
        invariant
            1 <= i <= failures@.len(),
            why@ == joined(failures@.take(i as int)),
        decreases failures@.len() - i,
    {
        why.append("; ");
        why.append(failures[i].as_str());
        proof {
            reveal_strlit("; ");
            assert("; "@ =~= seq![';', ' ']);
            assert(failures@.take(i + 1).drop_last() =~= failures@.take(i as int));
        }
        i += 1;
    }
    assert(failures@.take(failures@.len() as int) =~= failures@);
    Outcome::Error(why)
}

/// One output of a job: where it goes, and its bytes or the reason why
/// there are none.
#[derive(Debug, PartialEq, Eq)]
pub struct RenderedOutput {
    pub path: String,
    pub bytes: Result<Vec<u8>, EncodeError>,
}

/// Encodes a transformed image once for every output of a job, in the order
/// of the outputs. An output that cannot be encoded does not stop the
/// others.
pub fn render_outputs(img: &TransformedImage, outputs: &Vec<OutputTarget>) -> (r: Vec<
    RenderedOutput,
>)
    requires
        img.wf(),
    ensures
        r@.len() == outputs@.len(),
        forall|i: int| 0 <= i < r@.len() ==> (#[trigger] r@[i]).path@ == outputs@[i].path@,
        forall|i: int|
            0 <= i < r@.len() ==> is_encoding(*img, outputs@[i].format, (#[trigger] r@[i]).bytes),
{
    let mut r: Vec<RenderedOutput> = Vec::new();
    let mut i: usize = 0;
    while i < outputs.len()
        invariant
            img.wf(),
            0 <= i <= outputs@.len(),
            r@.len() == i,
            forall|j: int| 0 <= j < i ==> (#[trigger] r@[j]).path@ == outputs@[j].path@,
            forall|j: int|
                0 <= j < i ==> is_encoding(
                    *img,
                    outputs@[j].format,
                    (#[trigger] r@[j]).bytes,
                ),
        decreases outputs@.len() - i,
    {
        let bytes = encode(img, outputs[i].format);
        r.push(RenderedOutput { path: outputs[i].path.clone(), bytes });
        i += 1;
    }
    r
}

} // verus!
