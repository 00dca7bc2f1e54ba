use matrix_screensaver::config::Charset;
use matrix_screensaver::render::matrix::{charset_chars, random_trail_len};

#[test]
fn test_charset_katakana() {
    let chars = charset_chars(&Charset::Katakana);
    for c in &chars {
        let cp = *c as u32;
        assert!(cp >= 0xFF66 && cp <= 0xFF9F, "unexpected char: U+{:04X}", cp);
    }
}

#[test]
fn katakana_set_is_the_whole_half_width_block_in_order() {
    let chars = charset_chars(&Charset::Katakana);
    assert_eq!(chars.len(), 58);
    for (i, c) in chars.iter().enumerate() {
        assert_eq!(*c as u32, 0xFF66 + i as u32);
    }
    assert_eq!(chars[0], '\u{FF66}');
    assert_eq!(chars[57], '\u{FF9F}');
}

#[test]
fn latin_set_is_upper_then_lower_case() {
    let chars = charset_chars(&Charset::Latin);
    let expected: Vec<char> = ('A'..='Z').chain('a'..='z').collect();
    assert_eq!(chars, expected);
}

#[test]
fn digit_set_is_zero_to_nine() {
    let chars = charset_chars(&Charset::Digits);
    let expected: Vec<char> = ('0'..='9').collect();
    assert_eq!(chars, expected);
}

#[test]
fn mixed_set_is_katakana_upper_case_and_digits() {
    let chars = charset_chars(&Charset::Mixed);
    let mut expected: Vec<char> = (0xFF66u32..=0xFF9F).filter_map(char::from_u32).collect();
    expected.extend('A'..='Z');
    expected.extend('0'..='9');
    assert_eq!(chars.len(), 58 + 26 + 10);
    assert_eq!(chars, expected);
}

#[test]
fn default_charset_is_katakana() {
    assert_eq!(Charset::default(), Charset::Katakana);
}

#[test]
fn trail_lengths_stay_between_eight_and_nineteen() {
    let mut seen = std::collections::HashSet::new();
    for _ in 0..2000 {
        let n = random_trail_len();
        assert!(n >= 8 && n < 20, "trail length {n}");
        assert!(n > 0);
        seen.insert(n);
    }
    // 2000 uniform draws from 12 values miss one with negligible probability.
    assert!(seen.len() > 1);
}
