use fempeg::raster::{buffer_size, Channels, TransformedImage};
use fempeg::resize::{
    can_resize, integer_sqrt, parse_ratio, resize_image, scaled_dimension, Ratio,
};
use fempeg::rotation::{
    reduce_degrees, rotate, rotation_for_degrees, rotation_for_orientation, Rotation,
};

fn ratio(millionths: u32) -> Ratio {
    Ratio::new(millionths).unwrap()
}

#[test]
fn ratio_must_lie_in_unit_interval() {
    assert_eq!(Ratio::new(0), None);
    assert_eq!(Ratio::new(1), Some(Ratio { millionths: 1 }));
    assert_eq!(Ratio::new(1_000_000), Some(Ratio { millionths: 1_000_000 }));
    assert_eq!(Ratio::new(1_000_001), None);
}

#[test]
fn integer_sqrt_is_the_whole_part() {
    assert_eq!(integer_sqrt(0), 0);
    assert_eq!(integer_sqrt(1), 1);
    assert_eq!(integer_sqrt(3), 1);
    assert_eq!(integer_sqrt(4), 2);
    assert_eq!(integer_sqrt(99), 9);
    assert_eq!(integer_sqrt(100), 10);
    assert_eq!(integer_sqrt(u128::MAX), u64::MAX);
    assert_eq!(integer_sqrt((1u128 << 64) - 1), (1u64 << 32) - 1);
}

#[test]
fn sides_scale_by_the_root_of_the_ratio() {
    // 1000 * sqrt(0.5) = 707.106...
    assert_eq!(scaled_dimension(1000, ratio(500_000)), 707);
    // 6000 * sqrt(0.15) = 2323.79...
    assert_eq!(scaled_dimension(6000, ratio(150_000)), 2324);
    // 4000 * sqrt(0.15) = 1549.19...
    assert_eq!(scaled_dimension(4000, ratio(150_000)), 1549);
    // 100 * sqrt(0.25) = 50
    assert_eq!(scaled_dimension(100, ratio(250_000)), 50);
    // 10 * sqrt(0.01) = 1
    assert_eq!(scaled_dimension(10, ratio(10_000)), 1);
}

#[test]
fn halves_round_up() {
    // 3 * 0.5 = 1.5, 5 * 0.5 = 2.5, 1 * 0.5 = 0.5
    assert_eq!(scaled_dimension(3, ratio(250_000)), 2);
    assert_eq!(scaled_dimension(5, ratio(250_000)), 3);
    assert_eq!(scaled_dimension(1, ratio(250_000)), 1);
    // 15 * 0.1 = 1.5
    assert_eq!(scaled_dimension(15, ratio(10_000)), 2);
}

#[test]
fn sides_never_fall_below_one() {
    assert_eq!(scaled_dimension(0, ratio(1_000_000)), 1);
    assert_eq!(scaled_dimension(0, ratio(1)), 1);
    assert_eq!(scaled_dimension(1, ratio(1)), 1);
    assert_eq!(scaled_dimension(400, ratio(1)), 1);
    // 1500 * 0.001 = 1.5
    assert_eq!(scaled_dimension(1500, ratio(1)), 2);
}

#[test]
fn whole_ratio_keeps_sides() {
    assert_eq!(scaled_dimension(1, ratio(1_000_000)), 1);
    assert_eq!(scaled_dimension(4321, ratio(1_000_000)), 4321);
    assert_eq!(scaled_dimension(u32::MAX, ratio(1_000_000)), u32::MAX);
}

#[test]
fn scaled_side_is_nearest_for_many_inputs() {
    for original in [1u32, 2, 7, 64, 333, 1024, 6016, 65_535, 4_000_000_000] {
        for millionths in [1u32, 9, 150_000, 333_333, 500_000, 999_999, 1_000_000] {
            let d = scaled_dimension(original, ratio(millionths)) as u128;
            let n = 4 * (original as u128) * (original as u128) * (millionths as u128);
            let upper = (2 * d + 1) * (2 * d + 1) * 1_000_000;
            if d > 1 {
                let lower = (2 * d - 1) * (2 * d - 1) * 1_000_000;
                assert!(lower <= n && n < upper);
            } else {
                assert!(n < upper);
            }
        }
    }
}

fn gradient(width: u32, height: u32, channels: Channels) -> TransformedImage {
    let count = match channels {
        Channels::Rgb => 3,
        Channels::Rgba => 4,
    };
    let mut pixels = Vec::new();
    for y in 0..height {
        for x in 0..width {
            for k in 0..count {
                pixels.push((x * 16 + y * 4 + k) as u8);
            }
        }
    }
    TransformedImage::new(width, height, channels, pixels).unwrap()
}

#[test]
fn resize_gives_the_scaled_shape() {
    let img = gradient(8, 6, Channels::Rgb);
    assert!(can_resize(&img));
    let out = resize_image(img, ratio(250_000));
    assert_eq!((out.width, out.height), (4, 3));
    assert_eq!(out.channels, Channels::Rgb);
    assert_eq!(out.pixels.len(), 4 * 3 * 3);
}

#[test]
fn resize_keeps_alpha_layout() {
    let out = resize_image(gradient(10, 10, Channels::Rgba), ratio(500_000));
    assert_eq!((out.width, out.height), (7, 7));
    assert_eq!(out.channels, Channels::Rgba);
    assert_eq!(out.pixels.len(), 7 * 7 * 4);
}

#[test]
fn resize_resamples_the_pixels() {
    let mut pixels = Vec::new();
    for _ in 0..16 {
        pixels.extend_from_slice(&[200u8, 100, 50]);
    }
    let flat = TransformedImage::new(4, 4, Channels::Rgb, pixels).unwrap();
    let out = resize_image(flat, ratio(250_000));
    assert_eq!((out.width, out.height), (2, 2));
    for p in out.pixels.chunks(3) {
        assert!((p[0] as i32 - 200).abs() <= 1);
        assert!((p[1] as i32 - 100).abs() <= 1);
        assert!((p[2] as i32 - 50).abs() <= 1);
    }
}

#[test]
fn resize_of_whole_ratio_copies() {
    let img = gradient(5, 3, Channels::Rgba);
    let out = resize_image(img.clone(), ratio(1_000_000));
    assert_eq!(out, img);
}

#[test]
fn resize_of_empty_image_gives_one_pixel_sides() {
    let img = TransformedImage::new(0, 4, Channels::Rgb, vec![]).unwrap();
    let out = resize_image(img, ratio(250_000));
    assert_eq!((out.width, out.height), (1, 2));
    assert_eq!(out.pixels.len(), 6);
}

#[test]
fn buffer_size_multiplies() {
    assert_eq!(buffer_size(3, 4, Channels::Rgb), 36);
    assert_eq!(buffer_size(3, 4, Channels::Rgba), 48);
    assert_eq!(buffer_size(0, 4, Channels::Rgba), 0);
    assert_eq!(
        buffer_size(u32::MAX, u32::MAX, Channels::Rgba),
        (u32::MAX as u128) * (u32::MAX as u128) * 4
    );
}

#[test]
fn image_needs_a_buffer_of_its_size() {
    assert!(TransformedImage::new(2, 2, Channels::Rgb, vec![0; 12]).is_some());
    assert!(TransformedImage::new(2, 2, Channels::Rgb, vec![0; 11]).is_none());
    assert!(TransformedImage::new(2, 2, Channels::Rgb, vec![0; 16]).is_none());
    assert!(TransformedImage::new(2, 2, Channels::Rgba, vec![0; 16]).is_some());
    assert_eq!(Channels::from_count(3), Some(Channels::Rgb));
    assert_eq!(Channels::from_count(4), Some(Channels::Rgba));
    assert_eq!(Channels::from_count(1), None);
    assert_eq!(Channels::Rgb.count(), 3);
    assert_eq!(Channels::Rgba.count(), 4);
}

#[test]
fn degrees_reduce_modulo_full_turns() {
    assert_eq!(reduce_degrees(0), 0);
    assert_eq!(reduce_degrees(90), 90);
    assert_eq!(reduce_degrees(360), 0);
    assert_eq!(reduce_degrees(450), 90);
    assert_eq!(reduce_degrees(-90), 270);
    assert_eq!(reduce_degrees(-360), 0);
    assert_eq!(reduce_degrees(-1), 359);
    assert_eq!(reduce_degrees(i32::MAX), 2147483647 % 360);
    assert_eq!(reduce_degrees(i32::MIN), (-2147483648i64).rem_euclid(360) as i32);
}

#[test]
fn reduction_is_idempotent() {
    for d in [-100_000, -721, -360, -271, -90, -1, 0, 1, 89, 90, 91, 180, 270, 359, 360, 719, 99_999]
    {
        let once = reduce_degrees(d);
        assert_eq!(reduce_degrees(once), once);
        assert!((0..360).contains(&once));
        assert_eq!(rotation_for_degrees(once), rotation_for_degrees(d));
    }
}

#[test]
fn only_quarter_turns_rotate() {
    assert_eq!(rotation_for_degrees(90), Rotation::Quarter);
    assert_eq!(rotation_for_degrees(180), Rotation::Half);
    assert_eq!(rotation_for_degrees(270), Rotation::ThreeQuarters);
    assert_eq!(rotation_for_degrees(-90), Rotation::ThreeQuarters);
    assert_eq!(rotation_for_degrees(-270), Rotation::Quarter);
    assert_eq!(rotation_for_degrees(900), Rotation::Half);
    for d in -720i32..=720 {
        let r = d.rem_euclid(360);
        if r != 90 && r != 180 && r != 270 {
            assert_eq!(rotation_for_degrees(d), Rotation::Keep);
        }
    }
}

#[test]
fn orientation_codes_map_to_turns() {
    assert_eq!(rotation_for_orientation(3), Rotation::Half);
    assert_eq!(rotation_for_orientation(6), Rotation::Quarter);
    assert_eq!(rotation_for_orientation(8), Rotation::ThreeQuarters);
    for code in [0u32, 1, 2, 4, 5, 7, 9, 90, 180, u32::MAX] {
        assert_eq!(rotation_for_orientation(code), Rotation::Keep);
    }
}

fn reference(img: &TransformedImage) -> image::DynamicImage {
    match img.channels {
        Channels::Rgb => image::DynamicImage::ImageRgb8(
            image::RgbImage::from_raw(img.width, img.height, img.pixels.clone()).unwrap(),
        ),
        Channels::Rgba => image::DynamicImage::ImageRgba8(
            image::RgbaImage::from_raw(img.width, img.height, img.pixels.clone()).unwrap(),
        ),
    }
}

#[test]
fn quarter_turn_matches_the_image_crate() {
    for channels in [Channels::Rgb, Channels::Rgba] {
        let img = gradient(3, 2, channels);
        let expected = image::imageops::rotate90(&reference(&img));
        let out = rotate(img, Rotation::Quarter);
        assert_eq!((out.width, out.height), (2, 3));
        assert_eq!(out.channels, Channels::Rgba);
        assert_eq!(out.pixels, expected.into_raw());
    }
}

#[test]
fn half_turn_matches_the_image_crate() {
    for channels in [Channels::Rgb, Channels::Rgba] {
        let img = gradient(3, 2, channels);
        let expected = image::imageops::rotate180(&reference(&img));
        let out = rotate(img, Rotation::Half);
        assert_eq!((out.width, out.height), (3, 2));
        assert_eq!(out.pixels, expected.into_raw());
    }
}

#[test]
fn three_quarter_turn_matches_the_image_crate() {
    for channels in [Channels::Rgb, Channels::Rgba] {
        let img = gradient(5, 4, channels);
        let expected = image::imageops::rotate270(&reference(&img));
        let out = rotate(img, Rotation::ThreeQuarters);
        assert_eq!((out.width, out.height), (4, 5));
        assert_eq!(out.pixels, expected.into_raw());
    }
}

#[test]
fn quarter_turn_moves_the_top_left_pixel_to_the_top_right() {
    let img = TransformedImage::new(2, 1, Channels::Rgb, vec![1, 2, 3, 4, 5, 6]).unwrap();
    let out = rotate(img, Rotation::Quarter);
    assert_eq!((out.width, out.height), (1, 2));
    assert_eq!(out.pixels, vec![1, 2, 3, 255, 4, 5, 6, 255]);
}

#[test]
fn keeping_hands_the_image_back() {
    let img = gradient(3, 2, Channels::Rgb);
    assert_eq!(rotate(img.clone(), Rotation::Keep), img);
}

#[test]
fn four_quarter_turns_come_round() {
    let img = gradient(4, 3, Channels::Rgba);
    let mut out = img.clone();
    for _ in 0..4 {
        out = rotate(out, Rotation::Quarter);
    }
    assert_eq!(out, img);
}

#[test]
fn empty_image_turns() {
    let img = TransformedImage::new(0, 3, Channels::Rgb, vec![]).unwrap();
    let out = rotate(img, Rotation::Quarter);
    assert_eq!((out.width, out.height), (3, 0));
    assert!(out.pixels.is_empty());
}

#[test]
fn ratio_is_read_from_a_decimal_number() {
    assert_eq!(parse_ratio("0.15"), Ratio::new(150_000));
    assert_eq!(parse_ratio("0.5"), Ratio::new(500_000));
    assert_eq!(parse_ratio("1"), Ratio::new(1_000_000));
    assert_eq!(parse_ratio("1.0"), Ratio::new(1_000_000));
    assert_eq!(parse_ratio("1.000000999"), Ratio::new(1_000_000));
    assert_eq!(parse_ratio(".25"), Ratio::new(250_000));
    assert_eq!(parse_ratio("25e-2"), Ratio::new(250_000));
    assert_eq!(parse_ratio("+0.000001"), Ratio::new(1));
    assert_eq!(parse_ratio("0.1234567"), Ratio::new(123_456));
}

#[test]
fn ratio_outside_the_unit_interval_is_refused() {
    for text in ["0", "0.0", "-0.5", "1.000001", "2", "1e3", "0.0000009", "", "half", "0.5 ", " 0.5",
        "50%", "inf", "nan", "0,5"]
    {
        assert_eq!(parse_ratio(text), None);
    }
}

#[test]
fn colour_survives_the_factor_one() {
    for p in 0..=255u8 {
        assert_eq!(fempeg::brightness::scale(p, fempeg::brightness::UNIT), p);
        assert!(fempeg::brightness::scale(p, 1_500_000) >= p);
        assert!(fempeg::brightness::scale(p, 500_000) <= p);
    }
}
