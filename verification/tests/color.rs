use matrix_screensaver::render::{parse_color, Rgb};

fn rgb(r: u8, g: u8, b: u8) -> Rgb {
    Rgb { r, g, b }
}

#[test]
fn parses_hash_prefixed_hex() {
    assert_eq!(parse_color("#ff8000"), rgb(255, 128, 0));
    assert_eq!(parse_color("#00ff00"), rgb(0, 255, 0));
    assert_eq!(parse_color("#FFAA0c"), rgb(255, 170, 12));
}

#[test]
fn the_hash_is_optional_and_may_repeat() {
    assert_eq!(parse_color("123456"), rgb(0x12, 0x34, 0x56));
    assert_eq!(parse_color("###abcdef"), rgb(0xab, 0xcd, 0xef));
}

#[test]
fn short_settings_give_pure_green() {
    assert_eq!(parse_color("#abc"), rgb(0, 255, 0));
    assert_eq!(parse_color(""), rgb(0, 255, 0));
    assert_eq!(parse_color("######"), rgb(0, 255, 0));
}

#[test]
fn a_bad_pair_falls_back_per_channel() {
    assert_eq!(parse_color("#zz0000"), rgb(0, 0, 0));
    assert_eq!(parse_color("#10zz30"), rgb(0x10, 255, 0x30));
    assert_eq!(parse_color("#1020zz"), rgb(0x10, 0x20, 0));
    assert_eq!(parse_color("#-10000"), rgb(0, 0, 0));
}

#[test]
fn a_plus_sign_leaves_one_digit() {
    assert_eq!(parse_color("#+f+a+1"), rgb(15, 10, 1));
}

#[test]
fn only_the_first_six_bytes_count() {
    assert_eq!(parse_color("#102030ffff"), rgb(0x10, 0x20, 0x30));
}

#[test]
fn colour_text_round_trips() {
    for &(r, g, b) in &[(0u8, 0u8, 0u8), (255, 255, 255), (1, 128, 254), (0x0a, 0xb0, 0x7f)] {
        let text = format!("#{:02x}{:02x}{:02x}", r, g, b);
        assert_eq!(parse_color(&text), rgb(r, g, b));
    }
}
