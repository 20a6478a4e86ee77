//! Decoding of compressed payloads and encoding of finished images, both done
//! by the `image` crate.

use vstd::prelude::*;
use vstd::string::StringExecFns;
use crate::raster::{byte_len, Channels, TransformedImage};
use crate::progress::string_of;
use crate::text::{chars_of, is_letter, same_letter, spells, spells_word};

verus! {

/// Calls `image::load_from_memory` on `bytes` and hands out the decoded
/// image as width, height, whether it has an alpha channel, and its 8-bit
/// samples: those of an RGB image as they are, those of any other image
/// after `DynamicImage::into_rgba8`. A failure is handed out as the text of
/// the crate's error. Nothing is claimed of the values.
#[verifier::external_body]
fn read_image(bytes: &[u8]) -> (r: Result<(u32, u32, bool, Vec<u8>), String>) {
    match image::load_from_memory(bytes) {
        Ok(image::DynamicImage::ImageRgb8(buf)) => Ok(
            (buf.width(), buf.height(), false, buf.into_raw()),
        ),
        Ok(other) => {
            let buf = other.into_rgba8();
            Ok((buf.width(), buf.height(), true, buf.into_raw()))
        },
        Err(e) => Err(e.to_string()),
    }
}

/// The channel layout of a decoded image with or without alpha.
pub open spec fn layout_of(alpha: bool) -> Channels {
    if alpha {
        Channels::Rgba
    } else {
        Channels::Rgb
    }
}

/// Turns what the decoder handed out into an image. Samples that do not fill
/// the dimensions exactly are refused; the decoder's failure is passed on.
pub fn import_decoded(answer: Result<(u32, u32, bool, Vec<u8>), String>) -> (r: Result<
    TransformedImage,
    String,
>)
    ensures
        match answer {
            Ok((width, height, alpha, pixels)) => if pixels@.len() == byte_len(
                width as int,
                height as int,
                layout_of(alpha).spec_count(),
            ) {
                r == Ok::<TransformedImage, String>(
                    TransformedImage { width, height, channels: layout_of(alpha), pixels },
                )
            } else {
                r is Err
            },
            Err(why) => r == Err::<TransformedImage, String>(why),
        },
        r matches Ok(img) ==> img.wf(),
{
    match answer {
        Ok((width, height, alpha, pixels)) => {
            let channels = if alpha {
                Channels::Rgba
            } else {
                Channels::Rgb
            };
            match TransformedImage::new(width, height, channels, pixels) {
                Some(img) => Ok(img),
                None => Err(String::from_str("decoded samples do not fill the image")),
            }
        },
        Err(why) => Err(why),
    }
}

/// Decodes a compressed image file held in memory: the bytes go to the
/// decoder as they are, and `import_decoded` makes the result of its
/// answer. Which bytes decode, and to what, is the decoder's matter, and it
/// chooses its arithmetic by the processor that it runs on: so nothing is
/// said of its answer but that an image that comes out is well formed.
pub fn decode_payload(bytes: &[u8]) -> (r: Result<TransformedImage, String>)
    ensures
        r matches Ok(img) ==> img.wf(),
{
    import_decoded(read_image(bytes))
}

/// A raster format that images are written in.
#[derive(Clone, Copy, Debug, PartialEq, Eq)]
pub enum OutputFormat {
    Png,
    Jpeg,
    Bmp,
    Gif,
    WebP,
    Tiff,
}

/// Why an image could not be encoded.
#[derive(Clone, Debug, PartialEq, Eq)]
pub enum EncodeError {
    /// The image has no pixels.
    EmptyImage,
    /// The encoder refused the image, with this text.
    Encoder(String),
}

/// The format that a name stands for: `png`, `jpeg` or `jpg`, `bmp`, `gif`,
/// `webp`, `tiff` or `tif`, in any mix of cases.
pub open spec fn format_of(name: Seq<char>) -> Option<OutputFormat> {
    if spells(name, seq!['p', 'n', 'g']) {
        Some(OutputFormat::Png)
    } else if spells(name, seq!['j', 'p', 'e', 'g']) || spells(name, seq!['j', 'p', 'g']) {
        Some(OutputFormat::Jpeg)
    } else if spells(name, seq!['b', 'm', 'p']) {
        Some(OutputFormat::Bmp)
    } else if spells(name, seq!['g', 'i', 'f']) {
        Some(OutputFormat::Gif)
    } else if spells(name, seq!['w', 'e', 'b', 'p']) {
        Some(OutputFormat::WebP)
    } else if spells(name, seq!['t', 'i', 'f', 'f']) || spells(name, seq!['t', 'i', 'f']) {
        Some(OutputFormat::Tiff)
    } else {
        None
    }
}

/// Whether `v` spells the three-letter word `a b c` in any mix of cases.
fn spells_three(v: &Vec<char>, a: char, b: char, c: char) -> (r: bool)
    ensures
        r == spells(v@, seq![a, b, c]),
{
    let ghost word = seq![a, b, c];
    if v.len() != 3 {
        return false;
    }
    let r = same_letter(v[0], a) && same_letter(v[1], b) && same_letter(v[2], c);
    proof {
        if r {
            assert forall|i: int| 0 <= i < v@.len() implies is_letter(v@[i], word[i]) by {
                if i == 0 {
                } else if i == 1 {
                } else {
                }
            }
        } else {
            if !is_letter(v@[0], a) {
                assert(!is_letter(v@[0], word[0]));
            } else if !is_letter(v@[1], b) {
                assert(!is_letter(v@[1], word[1]));
            } else {
                assert(!is_letter(v@[2], word[2]));
            }
        }
    }
    r
}

/// The name under which a format is written as the extension of a file.
pub open spec fn extension_of(format: OutputFormat) -> Seq<char> {
    match format {
        OutputFormat::Png => seq!['p', 'n', 'g'],
        OutputFormat::Jpeg => seq!['j', 'p', 'e', 'g'],
        OutputFormat::Bmp => seq!['b', 'm', 'p'],
        OutputFormat::Gif => seq!['g', 'i', 'f'],
        OutputFormat::WebP => seq!['w', 'e', 'b', 'p'],
        OutputFormat::Tiff => seq!['t', 'i', 'f', 'f'],
    }
}

/// The extension of a format names that format.
pub proof fn lemma_extension_names_its_format(format: OutputFormat)
    ensures
        format_of(extension_of(format)) == Some(format),
{
    let e = extension_of(format);
    match format {
        OutputFormat::Png => {
            assert(spells(e, seq!['p', 'n', 'g']));
        },
        OutputFormat::Jpeg => {
            assert(spells(e, seq!['j', 'p', 'e', 'g']));
            assert(!spells(e, seq!['p', 'n', 'g']));
        },
        OutputFormat::Bmp => {
            assert(spells(e, seq!['b', 'm', 'p']));
            assert(!is_letter(e[0], seq!['p', 'n', 'g'][0]));
            assert(!spells(e, seq!['j', 'p', 'e', 'g']));
            assert(!is_letter(e[0], seq!['j', 'p', 'g'][0]));
        },
        OutputFormat::Gif => {
            assert(spells(e, seq!['g', 'i', 'f']));
            assert(!is_letter(e[0], seq!['p', 'n', 'g'][0]));
            assert(!spells(e, seq!['j', 'p', 'e', 'g']));
            assert(!is_letter(e[0], seq!['j', 'p', 'g'][0]));
            assert(!is_letter(e[0], seq!['b', 'm', 'p'][0]));
        },
        OutputFormat::WebP => {
            assert(spells(e, seq!['w', 'e', 'b', 'p']));
            assert(!spells(e, seq!['p', 'n', 'g']));
            assert(!is_letter(e[0], seq!['j', 'p', 'e', 'g'][0]));
            assert(!spells(e, seq!['j', 'p', 'g']));
            assert(!spells(e, seq!['b', 'm', 'p']));
            assert(!spells(e, seq!['g', 'i', 'f']));
        },
        OutputFormat::Tiff => {
            assert(spells(e, seq!['t', 'i', 'f', 'f']));
            assert(!spells(e, seq!['p', 'n', 'g']));
            assert(!is_letter(e[0], seq!['j', 'p', 'e', 'g'][0]));
            assert(!spells(e, seq!['j', 'p', 'g']));
            assert(!spells(e, seq!['b', 'm', 'p']));
            assert(!spells(e, seq!['g', 'i', 'f']));
            assert(!is_letter(e[0], seq!['w', 'e', 'b', 'p'][0]));
        },
    }
}

/// The name under which a format is written as the extension of a file.
pub fn extension(format: OutputFormat) -> (name: &'static str)
    ensures
        name@ == extension_of(format),
        format_of(name@) == Some(format),
{
    proof {
        lemma_extension_names_its_format(format);
        reveal_strlit("png");
        reveal_strlit("jpeg");
        reveal_strlit("bmp");
        reveal_strlit("gif");
        reveal_strlit("webp");
        reveal_strlit("tiff");
    }
    let name = match format {
        OutputFormat::Png => "png",
        OutputFormat::Jpeg => "jpeg",
        OutputFormat::Bmp => "bmp",
        OutputFormat::Gif => "gif",
        OutputFormat::WebP => "webp",
        OutputFormat::Tiff => "tiff",
    };
    assert(name@ =~= extension_of(format));
    name
}

/// The name of the file that holds an image in a format: the stem, a point
/// and the extension of the format.
pub fn output_file_name(stem: &str, format: OutputFormat) -> (name: String)
    ensures
        name@ == stem@ + seq!['.'] + extension_of(format),
{
    let mut name = String::from_str(stem);
    name.append(".");
    name.append(extension(format));
    proof {
        reveal_strlit(".");
        assert("."@ =~= seq!['.']);
    }
    name
}

/// The formats that images can be written in.
pub fn all_formats() -> (v: Vec<OutputFormat>)
    ensures
        v@.len() == 6,
        forall|f: OutputFormat| v@.contains(f),
{
    let v = vec![
        OutputFormat::Png,
        OutputFormat::Jpeg,
        OutputFormat::Bmp,
        OutputFormat::Gif,
        OutputFormat::WebP,
        OutputFormat::Tiff,
    ];
    assert forall|f: OutputFormat| v@.contains(f) by {
        match f {
            OutputFormat::Png => assert(v@[0] == f),
            OutputFormat::Jpeg => assert(v@[1] == f),
            OutputFormat::Bmp => assert(v@[2] == f),
            OutputFormat::Gif => assert(v@[3] == f),
            OutputFormat::WebP => assert(v@[4] == f),
            OutputFormat::Tiff => assert(v@[5] == f),
        }
    }
    v
}

/// The format that the characters name.
pub fn format_named(name: &Vec<char>) -> (r: Option<OutputFormat>)
    ensures
        r == format_of(name@),
{
    if spells_three(name, 'p', 'n', 'g') {
        Some(OutputFormat::Png)
    } else if spells_word(name, 'j', 'p', 'e', 'g') || spells_three(name, 'j', 'p', 'g') {
        Some(OutputFormat::Jpeg)
    } else if spells_three(name, 'b', 'm', 'p') {
        Some(OutputFormat::Bmp)
    } else if spells_three(name, 'g', 'i', 'f') {
        Some(OutputFormat::Gif)
    } else if spells_word(name, 'w', 'e', 'b', 'p') {
        Some(OutputFormat::WebP)
    } else if spells_word(name, 't', 'i', 'f', 'f') || spells_three(name, 't', 'i', 'f') {
        Some(OutputFormat::Tiff)
    } else {
        None
    }
}

/// The format that a name stands for, if it names one.
pub fn parse_format(name: &str) -> (r: Option<OutputFormat>)
    ensures
        r == format_of(name@),
{
    let chars = chars_of(name);
    format_named(&chars)
}

/// Whether `c` parts the names in a list of formats.
pub open spec fn is_separator(c: char) -> bool {
    c == '+' || c == ','
}

/// Index of the first separator at or after `from`; the length of `s` if
/// there is none.
pub open spec fn next_separator(s: Seq<char>, from: int) -> int
    decreases s.len() - from,
{
    if 0 <= from < s.len() && !is_separator(s[from]) {
        next_separator(s, from + 1)
    } else if from < 0 {
        0
    } else if from > s.len() {
        s.len() as int
    } else {
        from
    }
}

/// The formats that a list names, in order: the names stand between `+` or
/// `,`. The error is the first name that is no format.
pub open spec fn formats_of(list: Seq<char>, from: int) -> Result<Seq<OutputFormat>, Seq<char>>
    decreases list.len() - from,
{
    let to = next_separator(list, from);
    if 0 <= from <= to <= list.len() {
        let name = list.subrange(from, to);
        match format_of(name) {
            None => Err(name),
            Some(format) => if to >= list.len() {
                Ok(seq![format])
            } else {
                match formats_of(list, to + 1) {
                    Ok(rest) => Ok(seq![format] + rest),
                    Err(name) => Err(name),
                }
            },
        }
    } else {
        Ok(Seq::empty())
    }
}

/// A separator search stays inside the string.
pub proof fn lemma_next_separator(s: Seq<char>, from: int)
    requires
        0 <= from <= s.len(),
    ensures
        from <= next_separator(s, from) <= s.len(),
        next_separator(s, from) < s.len() ==> is_separator(s[next_separator(s, from)]),
    decreases s.len() - from,
{
    if from < s.len() && !is_separator(s[from]) {
        lemma_next_separator(s, from + 1);
    }
}

/// Reads a list of format names, parted by `+` or `,`. Every name must be a
/// format: the first that is none is handed back as the error.
pub fn parse_format_list(list: &str) -> (r: Result<Vec<OutputFormat>, String>)
    ensures
        match formats_of(list@, 0) {
            Ok(formats) => r matches Ok(v) && v@ == formats,
            Err(name) => r matches Err(v) && v@ == name,
        },
{
    let chars = chars_of(list);
    let n = chars.len();
    let mut formats: Vec<OutputFormat> = Vec::new();
    let mut from: usize = 0;
    loop
        invariant
            n == chars@.len(),
            chars@ == list@,
            0 <= from <= n,
            match formats_of(chars@, from as int) {
                Ok(rest) => formats_of(chars@, 0) == Ok::<Seq<OutputFormat>, Seq<char>>(
                    formats@ + rest,
                ),
                Err(name) => formats_of(chars@, 0) == Err::<Seq<OutputFormat>, Seq<char>>(name),
            },
        decreases n - from,
    {
        let mut to: usize = from;
        let mut name: Vec<char> = Vec::new();
        while to < n && !(chars[to] == '+' || chars[to] == ',')
            invariant
                n == chars@.len(),
                from <= to <= n,
                next_separator(chars@, from as int) == next_separator(chars@, to as int),
                name@ == chars@.subrange(from as int, to as int),
            decreases n - to,
        {
            name.push(chars[to]);
            to += 1;
        }
        proof {
            lemma_next_separator(chars@, from as int);
        }
        match format_named(&name) {
            None => {
                return Err(string_of(&name));
            },
            Some(format) => {
                let ghost before = formats@;
                formats.push(format);
                if to >= n {
                    assert(before + seq![format] =~= formats@);
                    return Ok(formats);
                }
                proof {
                    let rest = formats_of(chars@, to + 1);
                    if rest is Ok {
                        assert(before + (seq![format] + rest->Ok_0) =~= formats@ + rest->Ok_0);
                    }
                }
                from = to + 1;
            },
        }
    }
}

/// What `DynamicImage::write_to` writes for an image of these dimensions,
/// this layout and these samples in a format: the bytes of the file, or the
/// text of the encoder's error. The encoders read nothing but what they are
/// given.
pub uninterp spec fn encoded_file(
    width: u32,
    height: u32,
    channels: Channels,
    pixels: Seq<u8>,
    format: OutputFormat,
) -> Result<Seq<u8>, Seq<char>>;

/// Calls `DynamicImage::write_to` on the image that `pixels` holds, into a
/// buffer in memory, with the format of the `image` crate that has the name
/// of `format`, and hands out the buffer; a failure is handed out as the
/// text of the crate's error. The image is made with
/// `ImageBuffer::from_raw`, which takes a buffer of the image's size: the
/// caller sees to that. The crate converts the pixels where the format
/// cannot hold them. The result is named after what was handed in; nothing
/// else is claimed of it.
#[verifier::external_body]
fn write_image(
    width: u32,
    height: u32,
    channels: Channels,
    pixels: &Vec<u8>,
    format: OutputFormat,
) -> (r: Result<Vec<u8>, String>)
    requires
        width >= 1,
        height >= 1,
        pixels@.len() == byte_len(width as int, height as int, channels.spec_count()),
    ensures
        encoded_file(width, height, channels, pixels@, format) == match r {
            Ok(bytes) => Ok::<Seq<u8>, Seq<char>>(bytes@),
            Err(why) => Err(why@),
        },
{
    let kind = match format {
        OutputFormat::Png => image::ImageFormat::Png,
        OutputFormat::Jpeg => image::ImageFormat::Jpeg,
        OutputFormat::Bmp => image::ImageFormat::Bmp,
        OutputFormat::Gif => image::ImageFormat::Gif,
        OutputFormat::WebP => image::ImageFormat::WebP,
        OutputFormat::Tiff => image::ImageFormat::Tiff,
    };
    let image: Option<image::DynamicImage> = match channels {
        Channels::Rgb => image::RgbImage::from_raw(width, height, pixels.clone()).map(Into::into),
        Channels::Rgba => image::RgbaImage::from_raw(width, height, pixels.clone()).map(Into::into),
    };
    let mut out = std::io::Cursor::new(Vec::new());
    image.unwrap().write_to(&mut out, kind).map(|_| out.into_inner()).map_err(|e| e.to_string())
}

/// What `encode` makes of the encoder's answer.
pub fn import_encoded(answer: Result<Vec<u8>, String>) -> (r: Result<Vec<u8>, EncodeError>)
    ensures
        r == match answer {
            Ok(bytes) => Ok::<Vec<u8>, EncodeError>(bytes),
            Err(why) => Err(EncodeError::Encoder(why)),
        },
{
    match answer {
        Ok(bytes) => Ok(bytes),
        Err(why) => Err(EncodeError::Encoder(why)),
    }
}

/// Whether `r` is what encoding an image in a format gives: an image
/// without pixels is refused; for any other image the bytes that the
/// encoder writes, or the encoder's refusal with its text.
pub open spec fn is_encoding(
    img: TransformedImage,
    format: OutputFormat,
    r: Result<Vec<u8>, EncodeError>,
) -> bool {
    if img.width == 0 || img.height == 0 {
        r == Err::<Vec<u8>, EncodeError>(EncodeError::EmptyImage)
    } else {
        match encoded_file(img.width, img.height, img.channels, img.pixels@, format) {
            Ok(bytes) => r matches Ok(b) && b@ == bytes,
            Err(why) => r matches Err(EncodeError::Encoder(e)) && e@ == why,
        }
    }
}

/// Encodes an image in the given format and returns the bytes of the file.
/// An image without pixels is refused; whether any other image can be
/// written in the format is the encoder's matter.
pub fn encode(img: &TransformedImage, format: OutputFormat) -> (r: Result<Vec<u8>, EncodeError>)
    requires
        img.wf(),
    ensures
        is_encoding(*img, format, r),
{
    if img.width == 0 || img.height == 0 {
        return Err(EncodeError::EmptyImage);
    }
    import_encoded(write_image(img.width, img.height, img.channels, &img.pixels, format))
}

} // verus!
