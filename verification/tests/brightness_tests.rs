use fempeg::brightness::{
    apply_brightness, parse_brightness, parse_brightness_text, scale, BrightnessMode,
};
use fempeg::raster::{Channels, TransformedImage};

fn given(value: &str) -> BrightnessMode {
    parse_brightness(&Some(Some(value.to_string())))
}

#[test]
fn absent_option_leaves_brightness_alone() {
    assert_eq!(parse_brightness(&None), BrightnessMode::Unchanged);
}

#[test]
fn bare_option_means_auto() {
    assert_eq!(parse_brightness(&Some(None)), BrightnessMode::Auto);
}

#[test]
fn keywords_are_read_in_any_case() {
    assert_eq!(given("true"), BrightnessMode::Auto);
    assert_eq!(given("TRUE"), BrightnessMode::Auto);
    assert_eq!(given("Auto"), BrightnessMode::Auto);
    assert_eq!(given("  auto\t"), BrightnessMode::Auto);
    assert_eq!(given("false"), BrightnessMode::Unchanged);
    assert_eq!(given("False"), BrightnessMode::Unchanged);
    assert_eq!(given("NONE"), BrightnessMode::Unchanged);
}

#[test]
fn percent_is_hundredths() {
    assert_eq!(given("120%"), BrightnessMode::Factor(1_200_000));
    assert_eq!(given("-20%"), BrightnessMode::Factor(-200_000));
    assert_eq!(given("50 %"), BrightnessMode::Factor(500_000));
    assert_eq!(given("12.5%"), BrightnessMode::Factor(125_000));
    assert_eq!(given("0.0001%"), BrightnessMode::Factor(1));
    assert_eq!(given("0.00001%"), BrightnessMode::Factor(0));
}

#[test]
fn percent_without_number_is_nothing() {
    assert_eq!(given("%"), BrightnessMode::Unchanged);
    assert_eq!(given("abc%"), BrightnessMode::Unchanged);
    assert_eq!(given("12%%"), BrightnessMode::Unchanged);
}

#[test]
fn whole_numbers_are_factors() {
    assert_eq!(given("5"), BrightnessMode::Factor(5_000_000));
    assert_eq!(given("+3"), BrightnessMode::Factor(3_000_000));
    assert_eq!(given("-2"), BrightnessMode::Factor(-2_000_000));
    assert_eq!(given("0"), BrightnessMode::Factor(0));
    assert_eq!(given("007"), BrightnessMode::Factor(7_000_000));
}

#[test]
fn decimal_numbers_are_factors() {
    assert_eq!(given("0.58"), BrightnessMode::Factor(580_000));
    assert_eq!(given("1.2"), BrightnessMode::Factor(1_200_000));
    assert_eq!(given(".5"), BrightnessMode::Factor(500_000));
    assert_eq!(given("5."), BrightnessMode::Factor(5_000_000));
    assert_eq!(given("1e2"), BrightnessMode::Factor(100_000_000));
    assert_eq!(given("1E2"), BrightnessMode::Factor(100_000_000));
    assert_eq!(given("1.5e-1"), BrightnessMode::Factor(150_000));
    assert_eq!(given("25e-1"), BrightnessMode::Factor(2_500_000));
    assert_eq!(given("1.e1"), BrightnessMode::Factor(10_000_000));
    assert_eq!(given("-0.25"), BrightnessMode::Factor(-250_000));
}

#[test]
fn digits_beyond_a_millionth_are_cut_off() {
    assert_eq!(given("0.9999999"), BrightnessMode::Factor(999_999));
    assert_eq!(given("0.0000001"), BrightnessMode::Factor(0));
    assert_eq!(given("-0.0000019"), BrightnessMode::Factor(-1));
    assert_eq!(given("1234567e-12"), BrightnessMode::Factor(1));
}

#[test]
fn huge_numbers_are_held_at_the_limit() {
    let limit = fempeg::number::LIMIT;
    assert_eq!(limit, 1_000_000_000_000_000_000);
    assert_eq!(given("1e40"), BrightnessMode::Factor(limit));
    assert_eq!(given("-1e40"), BrightnessMode::Factor(-limit));
    assert_eq!(given("99999999999999999999999999999"), BrightnessMode::Factor(limit));
    assert_eq!(given("1e999999999999999999999999999999999999"), BrightnessMode::Factor(limit));
    assert_eq!(given("0e999999999999999999999999999999999999"), BrightnessMode::Factor(0));
    assert_eq!(given("5e-999999999999999999999999999999999999"), BrightnessMode::Factor(0));
    assert_eq!(given("1000000000000"), BrightnessMode::Factor(limit));
    assert_eq!(given("999999999999"), BrightnessMode::Factor(999_999_999_999_000_000));
}

#[test]
fn long_fractions_keep_their_value() {
    assert_eq!(
        given("0.0000000000000000000000000000000000000001e40"),
        BrightnessMode::Factor(1_000_000)
    );
    assert_eq!(
        given("10000000000000000000000000000000000000000e-40"),
        BrightnessMode::Factor(1_000_000)
    );
}

#[test]
fn unreadable_values_are_nothing() {
    assert_eq!(given(""), BrightnessMode::Unchanged);
    assert_eq!(given("   "), BrightnessMode::Unchanged);
    assert_eq!(given("bright"), BrightnessMode::Unchanged);
    assert_eq!(given("."), BrightnessMode::Unchanged);
    assert_eq!(given("1e"), BrightnessMode::Unchanged);
    assert_eq!(given("e5"), BrightnessMode::Unchanged);
    assert_eq!(given("1e+"), BrightnessMode::Unchanged);
    assert_eq!(given("+-5"), BrightnessMode::Unchanged);
    assert_eq!(given("1.2.3"), BrightnessMode::Unchanged);
    assert_eq!(given("12abc"), BrightnessMode::Unchanged);
    assert_eq!(given("1 2"), BrightnessMode::Unchanged);
    assert_eq!(given("0x10"), BrightnessMode::Unchanged);
    assert_eq!(given("1_000"), BrightnessMode::Unchanged);
    assert_eq!(given("inf"), BrightnessMode::Unchanged);
    assert_eq!(given("nan"), BrightnessMode::Unchanged);
    assert_eq!(given("\u{661}\u{662}"), BrightnessMode::Unchanged);
    assert_eq!(given("-"), BrightnessMode::Unchanged);
    assert_eq!(given("+"), BrightnessMode::Unchanged);
}

#[test]
fn whitespace_of_any_script_is_trimmed() {
    assert_eq!(given(" 5 "), BrightnessMode::Factor(5_000_000));
    assert_eq!(given("\u{a0}5\u{2003}"), BrightnessMode::Factor(5_000_000));
    assert_eq!(given("\n\t1.5\r\n"), BrightnessMode::Factor(1_500_000));
    assert_eq!(given("\u{3000}true\u{2028}"), BrightnessMode::Auto);
    assert_eq!(given("\u{200b}5"), BrightnessMode::Unchanged);
}

#[test]
fn text_and_option_agree() {
    assert_eq!(parse_brightness_text("120%"), BrightnessMode::Factor(1_200_000));
    assert_eq!(parse_brightness_text("auto"), BrightnessMode::Auto);
    assert_eq!(parse_brightness_text("?"), BrightnessMode::Unchanged);
}

#[test]
fn parser_reads_every_string() {
    let samples = [
        "", " ", "%", "%%", "e", "E", ".", "..", "+", "-", "+.", "-.e", "1e1e1", "٣", "😀", "1%1",
        "true%", "auto1", "1auto", "\0", "1\0", "-0", "-0.0", "+0e-0", "00000", "9".repeat(400).as_str(),
    ]
    .map(|s| s.to_string());
    for s in samples.iter() {
        let mode = parse_brightness_text(s);
        assert!(matches!(
            mode,
            BrightnessMode::Unchanged | BrightnessMode::Auto | BrightnessMode::Factor(_)
        ));
    }
    assert_eq!(given("-0"), BrightnessMode::Factor(0));
    assert_eq!(given("+0e-0"), BrightnessMode::Factor(0));
}

#[test]
fn scale_multiplies_and_clamps() {
    assert_eq!(scale(100, 1_200_000), 120);
    assert_eq!(scale(250, 1_200_000), 255);
    assert_eq!(scale(255, 1_000_000), 255);
    assert_eq!(scale(3, 500_000), 1);
    assert_eq!(scale(1, 999_999), 0);
    assert_eq!(scale(200, 0), 0);
    assert_eq!(scale(200, -200_000), 0);
    assert_eq!(scale(0, fempeg::number::LIMIT), 0);
    assert_eq!(scale(1, fempeg::number::LIMIT), 255);
    assert_eq!(scale(1, 255_000_000), 255);
    assert_eq!(scale(1, 254_999_999), 254);
    assert_eq!(scale(100, 1_050_000), 105);
}

fn sample_rgba() -> TransformedImage {
    TransformedImage::new(2, 1, Channels::Rgba, vec![100, 200, 250, 7, 0, 1, 2, 255]).unwrap()
}

#[test]
fn factor_multiplies_colour_and_keeps_alpha() {
    let out = apply_brightness(sample_rgba(), BrightnessMode::Factor(1_200_000));
    assert_eq!(out.width, 2);
    assert_eq!(out.height, 1);
    assert_eq!(out.channels, Channels::Rgba);
    assert_eq!(out.pixels, vec![120, 240, 255, 7, 0, 1, 2, 255]);
}

#[test]
fn factor_turns_rgb_into_opaque_rgba() {
    let img = TransformedImage::new(1, 2, Channels::Rgb, vec![10, 20, 30, 40, 50, 60]).unwrap();
    let out = apply_brightness(img, BrightnessMode::Factor(2_000_000));
    assert_eq!(out.channels, Channels::Rgba);
    assert_eq!(out.pixels, vec![20, 40, 60, 255, 80, 100, 120, 255]);
}

#[test]
fn negative_factor_blackens() {
    let out = apply_brightness(sample_rgba(), BrightnessMode::Factor(-200_000));
    assert_eq!(out.pixels, vec![0, 0, 0, 7, 0, 0, 0, 255]);
}

#[test]
fn unchanged_and_auto_leave_pixels_alone() {
    let img = TransformedImage::new(1, 1, Channels::Rgb, vec![1, 2, 3]).unwrap();
    assert_eq!(apply_brightness(img.clone(), BrightnessMode::Unchanged), img);
    assert_eq!(apply_brightness(img.clone(), BrightnessMode::Auto), img);
}

#[test]
fn empty_image_stays_empty() {
    let img = TransformedImage::new(0, 5, Channels::Rgb, vec![]).unwrap();
    let out = apply_brightness(img, BrightnessMode::Factor(1_500_000));
    assert_eq!(out.width, 0);
    assert_eq!(out.height, 5);
    assert!(out.pixels.is_empty());
}
