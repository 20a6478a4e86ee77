use fempeg::brightness::{parse_brightness_text, BrightnessMode};
use fempeg::browser::split_key;
use fempeg::codec::decode_payload;
use fempeg::exif::exif_entries;
use fempeg::exiftool::merge_json_output;
use fempeg::number::{parse_fixed, parse_i32, parse_u32, LIMIT};
use fempeg::ordering::numeric_key;
use fempeg::orientation::first_token;
use fempeg::progress::{format_time, progress_label};
use fempeg::resize::{integer_sqrt, scaled_dimension, Ratio};
use fempeg::rotation::reduce_degrees;
use fempeg::sniff::is_nef_file;
use fempeg::text::contains_folded;

/// A small generator of numbers that looks random and is the same in every
/// run.
struct Dice(u64);

impl Dice {
    fn next(&mut self, bound: u64) -> u64 {
        self.0 ^= self.0 << 13;
        self.0 ^= self.0 >> 7;
        self.0 ^= self.0 << 17;
        self.0 % bound
    }

    fn text(&mut self, alphabet: &[char], longest: u64) -> String {
        let len = self.next(longest + 1);
        (0..len).map(|_| alphabet[self.next(alphabet.len() as u64) as usize]).collect()
    }
}

#[test]
fn decimal_grammar_is_the_one_of_the_standard_library() {
    let alphabet = ['0', '1', '5', '9', '+', '-', '.', 'e', 'E', ' ', 'x'];
    let mut dice = Dice(0x1234_5678_9abc_def1);
    let mut accepted = 0;
    for _ in 0..200_000 {
        let s = dice.text(&alphabet, 7);
        let ours = parse_fixed(&s.chars().collect(), 6);
        let theirs = s.parse::<f64>();
        assert_eq!(ours.is_some(), theirs.is_ok(), "{:?}", s);
        if let (Some(fixed), Ok(value)) = (ours, theirs) {
            accepted += 1;
            let exact = value * 1_000_000.0;
            if exact.abs() < 1e15 {
                assert!((fixed as f64 - exact).abs() <= 1.0 + exact.abs() * 1e-12, "{:?}", s);
                assert!((fixed as f64).abs() <= exact.abs() + exact.abs() * 1e-12, "{:?}", s);
            } else {
                assert_eq!(fixed.abs(), if exact.abs() >= 1e18 { LIMIT } else { fixed.abs() });
            }
            if value != 0.0 {
                assert_eq!(fixed < 0 || (fixed == 0 && value < 0.0), value < 0.0, "{:?}", s);
            }
        }
    }
    assert!(accepted > 1_000);
}

#[test]
fn brightness_values_agree_with_the_rules_on_random_text() {
    let alphabet = ['0', '2', '7', '+', '-', '.', 'e', '%', ' ', 't', 'r', 'u', 'a', 'o', 'n', 'f'];
    let mut dice = Dice(0x0dd_ba11_cafe_f00d);
    for _ in 0..100_000 {
        let s = dice.text(&alphabet, 6);
        let trimmed = s.trim();
        let low = trimmed.to_ascii_lowercase();
        let mode = parse_brightness_text(&s);
        if low == "true" || low == "auto" {
            assert_eq!(mode, BrightnessMode::Auto, "{:?}", s);
        } else if low == "false" || low == "none" {
            assert_eq!(mode, BrightnessMode::Unchanged, "{:?}", s);
        } else if let Some(number) = trimmed.strip_suffix('%') {
            let expected = parse_fixed(&number.trim().chars().collect(), 4);
            match expected {
                Some(v) => assert_eq!(mode, BrightnessMode::Factor(v), "{:?}", s),
                None => assert_eq!(mode, BrightnessMode::Unchanged, "{:?}", s),
            }
        } else {
            let is_number = matches!(trimmed.parse::<f64>(), Ok(v) if v.is_finite() || v.is_infinite())
                && !low.contains("inf")
                && !low.contains("nan");
            assert_eq!(matches!(mode, BrightnessMode::Factor(_)), is_number, "{:?}", s);
        }
    }
}

#[test]
fn whole_numbers_are_read_as_the_standard_library_reads_them() {
    let alphabet = ['0', '1', '2', '4', '7', '8', '9', '+', '-', ' ', 'a'];
    let mut dice = Dice(0xfeed_face_0bad_beef);
    let mut accepted = 0;
    for _ in 0..200_000 {
        let s = dice.text(&alphabet, 12);
        let chars: Vec<char> = s.chars().collect();
        assert_eq!(parse_i32(&chars), s.parse::<i32>().ok(), "{:?}", s);
        assert_eq!(parse_u32(&chars), s.parse::<u32>().ok(), "{:?}", s);
        if s.parse::<i32>().is_ok() {
            accepted += 1;
        }
    }
    assert!(accepted > 1_000);
    for s in ["2147483647", "2147483648", "-2147483648", "-2147483649", "4294967295", "4294967296",
        "+0", "-0", "00000000000000000000001"]
    {
        let chars: Vec<char> = s.chars().collect();
        assert_eq!(parse_i32(&chars), s.parse::<i32>().ok(), "{:?}", s);
        assert_eq!(parse_u32(&chars), s.parse::<u32>().ok(), "{:?}", s);
    }
}

#[test]
fn numeric_keys_are_the_digits_read_as_a_number() {
    let alphabet = ['0', '1', '9', '_', 'D', 'S', 'C', '-', '.', '\u{662}'];
    let mut dice = Dice(0xabad_1dea_0000_0001);
    for _ in 0..100_000 {
        let s = dice.text(&alphabet, 24);
        let expected =
            s.chars().filter(|c| c.is_ascii_digit()).collect::<String>().parse::<u64>().ok();
        assert_eq!(numeric_key(&s), expected, "{:?}", s);
    }
}

#[test]
fn first_token_is_what_splitting_at_whitespace_gives() {
    let alphabet = ['6', 'a', ' ', '\t', '\u{a0}', '\u{2003}', ',', '\n'];
    let mut dice = Dice(0x5eed_5eed_5eed_5eed);
    for _ in 0..100_000 {
        let s = dice.text(&alphabet, 8);
        let ours: String = first_token(&s.chars().collect()).into_iter().collect();
        assert_eq!(ours, s.split_whitespace().next().unwrap_or(""), "{:?}", s);
    }
}

#[test]
fn folded_search_is_lower_casing_and_searching() {
    let alphabet = ['n', 'N', 'i', 'I', 'k', 'K', 'o', 'n', '\u{130}', ' '];
    let mut dice = Dice(0x0123_4567_89ab_cdef);
    let mut found = 0;
    for _ in 0..100_000 {
        let hay = dice.text(&alphabet, 12);
        let word = dice.text(&['n', 'i', 'k', 'o'], 4);
        let expected = hay.to_ascii_lowercase().contains(&word);
        assert_eq!(contains_folded(hay.as_bytes(), word.as_bytes()), expected, "{:?} {:?}", hay, word);
        if expected {
            found += 1;
        }
    }
    assert!(found > 1_000);
}

#[test]
fn keys_are_parted_like_finding_the_colon() {
    let alphabet = ['a', 'B', ':', ' ', '\u{e9}'];
    let mut dice = Dice(0x7777_1111_3333_5555);
    for _ in 0..50_000 {
        let key = dice.text(&alphabet, 8);
        let expected = match key.find(':') {
            Some(pos) => (key[..pos].to_string(), key[pos + 1..].to_string()),
            None => (String::new(), key.clone()),
        };
        assert_eq!(split_key(&key), expected, "{:?}", key);
    }
}

#[test]
fn durations_and_labels_are_written_like_formatted_numbers() {
    let mut dice = Dice(0x4242_4242_4242_4242);
    for _ in 0..50_000 {
        let secs = dice.next(u64::MAX) >> dice.next(64);
        let expected = if secs < 60 {
            format!("{}s", secs)
        } else {
            format!("{}m {}s", secs / 60, secs % 60)
        };
        assert_eq!(format_time(secs), expected);
        let position = dice.next(100_000) as usize;
        let total = dice.next(100_000) as usize;
        assert_eq!(progress_label(position, total), format!("[{}/{}]", position, total));
    }
}

#[test]
fn degrees_reduce_like_the_euclidean_remainder() {
    let mut dice = Dice(0x1357_9bdf_0246_8ace);
    for _ in 0..200_000 {
        let d = dice.next(1 << 32) as u32 as i32;
        assert_eq!(reduce_degrees(d), d.rem_euclid(360));
    }
}

#[test]
fn integer_sqrt_brackets_its_argument() {
    let mut dice = Dice(0x2468_ace0_1357_9bdf);
    for _ in 0..100_000 {
        let n = ((dice.next(u64::MAX) as u128) << 64 | dice.next(u64::MAX) as u128)
            >> dice.next(128);
        let r = integer_sqrt(n) as u128;
        assert!(r * r <= n);
        assert!(r == u64::MAX as u128 || (r + 1) * (r + 1) > n);
    }
}

#[test]
fn scaled_sides_agree_with_rounding_the_root() {
    let mut dice = Dice(0x0f0f_f0f0_3c3c_c3c3);
    for _ in 0..200_000 {
        let original = (dice.next(1 << 32) >> dice.next(32)) as u32;
        let millionths = 1 + dice.next(1_000_000) as u32;
        let d = scaled_dimension(original, Ratio::new(millionths).unwrap());
        let exact = original as f64 * (millionths as f64 / 1_000_000.0).sqrt();
        let rounded = exact.round().max(1.0);
        let near_half = ((exact - exact.floor()) - 0.5).abs() < 1e-6;
        assert!(d as f64 == rounded || near_half, "{} {} {} {}", original, millionths, d, exact);
        assert!((d as f64 - exact).abs() <= 0.5 + 1e-6 || (d == 1 && exact < 0.5));
    }
}

#[test]
fn random_bytes_are_answered_without_a_crash() {
    let mut dice = Dice(0xdead_beef_dead_beef);
    let starts: [&[u8]; 7] = [
        b"II*\0\x08\0\0\0",
        b"MM\0*\0\0\0\x08",
        &[0xff, 0xd8, 0xff, 0xe1, 0x00, 0x10, b'E', b'x', b'i', b'f', 0, 0],
        &[0x89, b'P', b'N', b'G', 0x0d, 0x0a, 0x1a, 0x0a],
        b"GIF89a",
        b"BM",
        b"[{\"",
    ];
    for round in 0..3_000 {
        let mut bytes = starts[round % starts.len()].to_vec();
        let extra = dice.next(64);
        for _ in 0..extra {
            bytes.push(dice.next(256) as u8);
        }
        let _ = is_nef_file(&bytes);
        let _ = exif_entries(&bytes);
        let _ = merge_json_output(&bytes);
        if let Ok(image) = decode_payload(&bytes) {
            assert_eq!(
                image.pixels.len() as u128,
                fempeg::raster::buffer_size(image.width, image.height, image.channels)
            );
        }
    }
}
