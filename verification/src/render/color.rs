use vstd::prelude::*;
use vstd::string::StringSliceAdditionalSpecFns;

verus! {

/// A colour with 8-bit red, green and blue channels.
#[derive(Debug, Clone, Copy, PartialEq, Eq, Structural)]
pub struct Rgb {
    pub r: u8,
    pub g: u8,
    pub b: u8,
}

/// The value of an ASCII hexadecimal digit (either case).
pub open spec fn hex_digit_value(b: u8) -> Option<u8> {
    if 0x30 <= b <= 0x39 {
        Some((b - 0x30) as u8)
    } else if 0x61 <= b <= 0x66 {
        Some((b - 0x61 + 10) as u8)
    } else if 0x41 <= b <= 0x46 {
        Some((b - 0x41 + 10) as u8)
    } else {
        None
    }
}

/// `u8::from_str_radix(s, 16)` on a two-byte string `s = [a, b]`: a leading '+' is a
/// sign and leaves one digit; otherwise both bytes must be hexadecimal digits.
pub open spec fn parse_hex_pair(a: u8, b: u8) -> Option<u8> {
    if a == 0x2B {
        hex_digit_value(b)
    } else {
        match (hex_digit_value(a), hex_digit_value(b)) {
            (Some(x), Some(y)) => Some((16 * x + y) as u8),
            _ => None,
        }
    }
}

/// The number of leading '#' bytes.
pub open spec fn leading_hashes(s: Seq<u8>) -> nat
    decreases s.len(),
{
    if s.len() > 0 && s[0] == 0x23 {
        1 + leading_hashes(s.drop_first())
    } else {
        0
    }
}

/// The bytes after the leading '#' bytes.
pub open spec fn trim_hashes(s: Seq<u8>) -> Seq<u8> {
    s.skip(leading_hashes(s) as int)
}

pub open spec fn unwrap_or(o: Option<u8>, d: u8) -> u8 {
    match o {
        Some(v) => v,
        None => d,
    }
}

/// The colour a setting stands for: after the leading '#' characters, three pairs of
/// hexadecimal digits for red, green and blue. Fewer than six bytes give pure green; a
/// pair that does not parse gives 0 for red and blue and 255 for green.
pub open spec fn color_of(s: Seq<u8>) -> Rgb {
    let t = trim_hashes(s);
    if t.len() < 6 {
        Rgb { r: 0, g: 255, b: 0 }
    } else {
        Rgb {
            r: unwrap_or(parse_hex_pair(t[0], t[1]), 0),
            g: unwrap_or(parse_hex_pair(t[2], t[3]), 255),
            b: unwrap_or(parse_hex_pair(t[4], t[5]), 0),
        }
    }
}

/// A UTF-8 continuation byte, which never starts a character.
pub open spec fn is_continuation(b: u8) -> bool {
    0x80 <= b < 0xC0
}

/// The pairs are cut out of the text as string slices, so when the trimmed text is six
/// bytes or longer, bytes 2, 4 and 6 (where present) must each start a character.
pub open spec fn pairs_on_char_boundaries(s: Seq<u8>) -> bool {
    let t = trim_hashes(s);
    t.len() >= 6 ==> {
        &&& !is_continuation(t[2])
        &&& !is_continuation(t[4])
        &&& (t.len() > 6 ==> !is_continuation(t[6]))
    }
}

fn hex_digit(b: u8) -> (v: Option<u8>)
    ensures
        v == hex_digit_value(b),
{
    if 0x30 <= b && b <= 0x39 {
        Some(b - 0x30)
    } else if 0x61 <= b && b <= 0x66 {
        Some(b - 0x61 + 10)
    } else if 0x41 <= b && b <= 0x46 {
        Some(b - 0x41 + 10)
    } else {
        None
    }
}

fn hex_pair(a: u8, b: u8) -> (v: Option<u8>)
    ensures
        v == parse_hex_pair(a, b),
{
    if a == 0x2B {
        hex_digit(b)
    } else {
        match (hex_digit(a), hex_digit(b)) {
            (Some(x), Some(y)) => Some(16 * x + y),
            _ => None,
        }
    }
}

proof fn lemma_leading_hashes_prefix(s: Seq<u8>, i: int)
    requires
        0 <= i <= s.len(),
        forall|k: int| 0 <= k < i ==> s[k] == 0x23,
    ensures
        leading_hashes(s) == i + leading_hashes(s.skip(i)),
    decreases i,
{
    if i > 0 {
        assert(s.skip(1) =~= s.drop_first());
        lemma_leading_hashes_prefix(s.drop_first(), i - 1);
        assert(s.drop_first().skip(i - 1) =~= s.skip(i));
    } else {
        assert(s.skip(0) =~= s);
    }
}

/// Parses a colour setting such as "#00ff00" (see `color_of`).
pub fn parse_color(hex: &str) -> (c: Rgb)
    requires
        pairs_on_char_boundaries(hex.spec_bytes()),
    ensures
        c == color_of(hex.spec_bytes()),
{
    let bytes = hex.as_bytes();
    let n = bytes.len();
    let mut start: usize = 0;
    while start < n && bytes[start] == 0x23
        invariant
            n == bytes@.len(),
            bytes@ == hex.spec_bytes(),
            start <= n,
            forall|k: int| 0 <= k < start ==> bytes@[k] == 0x23,
        decreases n - start,
    {
        start = start + 1;
    }
    proof {
        lemma_leading_hashes_prefix(bytes@, start as int);
        assert(bytes@.skip(start as int).len() == 0 || bytes@.skip(start as int)[0] != 0x23);
        assert(leading_hashes(bytes@.skip(start as int)) == 0);
    }
    let ghost t = trim_hashes(bytes@);
    assert(t =~= bytes@.skip(start as int));
    if n - start < 6 {
        return Rgb { r: 0, g: 255, b: 0 };
    }
    let r = match hex_pair(bytes[start], bytes[start + 1]) {
        Some(v) => v,
        None => 0,
    };
    let g = match hex_pair(bytes[start + 2], bytes[start + 3]) {
        Some(v) => v,
        None => 255,
    };
    let b = match hex_pair(bytes[start + 4], bytes[start + 5]) {
        Some(v) => v,
        None => 0,
    };
    Rgb { r, g, b }
}

proof fn lemma_leading_hashes_bound(s: Seq<u8>)
    ensures
        leading_hashes(s) <= s.len(),
    decreases s.len(),
{
    if s.len() > 0 && s[0] == 0x23 {
        lemma_leading_hashes_bound(s.drop_first());
    }
}

/// Every ASCII colour setting can be parsed: its slices always fall on character
/// boundaries.
pub proof fn lemma_ascii_settings_parse(s: Seq<u8>)
    requires
        forall|k: int| 0 <= k < s.len() ==> #[trigger] s[k] < 0x80,
    ensures
        pairs_on_char_boundaries(s),
{
    lemma_leading_hashes_bound(s);
    let n = leading_hashes(s) as int;
    let t = trim_hashes(s);
    assert forall|k: int| 0 <= k < t.len() implies #[trigger] t[k] < 0x80 by {
        assert(t[k] == s[n + k]);
    }
}

/// Hexadecimal digits read as `from_str_radix` reads them: '0'..'9' are 0..9, and
/// 'a'..'f' and 'A'..'F' alike are 10..15; no other byte is a digit.
pub proof fn lemma_hex_digits(b: u8)
    ensures
        forall|k: int| 0 <= k < 10 ==> #[trigger] hex_digit_value((0x30 + k) as u8) == Some(k as u8),
        forall|k: int|
            0 <= k < 6 ==> #[trigger] hex_digit_value((0x61 + k) as u8) == Some((10 + k) as u8)
                && hex_digit_value((0x41 + k) as u8) == Some((10 + k) as u8),
        hex_digit_value(b) is Some <==> (0x30 <= b <= 0x39 || 0x61 <= b <= 0x66 || 0x41 <= b <= 0x46),
{
}

/// The ASCII lower-case form of a byte.
pub open spec fn ascii_lower(b: u8) -> u8 {
    if 0x41 <= b <= 0x5A {
        (b + 0x20) as u8
    } else {
        b
    }
}

/// A pair of hexadecimal digits is sixteen times its first digit plus its second; a
/// leading '+' leaves the one digit after it.
pub proof fn lemma_hex_pair_value(a: u8, b: u8)
    ensures
        (a != 0x2B && hex_digit_value(a) is Some && hex_digit_value(b) is Some) ==> parse_hex_pair(a, b)
            == Some((16 * hex_digit_value(a)->0 + hex_digit_value(b)->0) as u8),
        hex_digit_value(a) is Some ==> hex_digit_value(a)->0 < 16,
        a == 0x2B ==> parse_hex_pair(a, b) == hex_digit_value(b),
        (a != 0x2B && (hex_digit_value(a) is None || hex_digit_value(b) is None)) ==> parse_hex_pair(a, b)
            is None,
{
}

/// Case does not matter: a setting parses to the same colour as its lower-case form.
pub proof fn lemma_color_case_insensitive(s: Seq<u8>)
    ensures
        color_of(s.map_values(|b: u8| ascii_lower(b))) == color_of(s),
{
    let l = s.map_values(|b: u8| ascii_lower(b));
    assert(forall|b: u8| #[trigger] hex_digit_value(ascii_lower(b)) == hex_digit_value(b));
    assert(forall|b: u8| (#[trigger] ascii_lower(b) == 0x23) == (b == 0x23));
    assert(forall|b: u8| (#[trigger] ascii_lower(b) == 0x2B) == (b == 0x2B));
    lemma_leading_hashes_map(s);
    let n = leading_hashes(s) as int;
    lemma_leading_hashes_bound(s);
    assert(trim_hashes(l) =~= trim_hashes(s).map_values(|b: u8| ascii_lower(b)));
}

proof fn lemma_leading_hashes_map(s: Seq<u8>)
    ensures
        leading_hashes(s.map_values(|b: u8| ascii_lower(b))) == leading_hashes(s),
    decreases s.len(),
{
    let l = s.map_values(|b: u8| ascii_lower(b));
    if s.len() > 0 {
        assert(l.drop_first() =~= s.drop_first().map_values(|b: u8| ascii_lower(b)));
        lemma_leading_hashes_map(s.drop_first());
    }
}

/// Leading '#' characters do not matter, nor anything after the sixth byte of the
/// rest; a pair that does not parse gives 0 for red, 255 for green and 0 for blue,
/// leaving the other channels as they are; and with fewer than six bytes after the
/// '#' characters the colour is pure green.
pub proof fn lemma_color_shape(s: Seq<u8>, extra: Seq<u8>)
    ensures
        color_of(seq![0x23u8] + s) == color_of(s),
        trim_hashes(s).len() >= 6 ==> color_of(s + extra) == color_of(s),
        trim_hashes(s).len() < 6 ==> color_of(s) == (Rgb { r: 0, g: 255, b: 0 }),
        ({
            let t = trim_hashes(s);
            t.len() >= 6 ==> {
                &&& parse_hex_pair(t[0], t[1]) is None ==> color_of(s).r == 0
                &&& parse_hex_pair(t[2], t[3]) is None ==> color_of(s).g == 255
                &&& parse_hex_pair(t[4], t[5]) is None ==> color_of(s).b == 0
                &&& parse_hex_pair(t[0], t[1]) matches Some(v) ==> color_of(s).r == v
                &&& parse_hex_pair(t[2], t[3]) matches Some(v) ==> color_of(s).g == v
                &&& parse_hex_pair(t[4], t[5]) matches Some(v) ==> color_of(s).b == v
            }
        }),
{
    let h = seq![0x23u8] + s;
    assert(h.drop_first() =~= s);
    lemma_leading_hashes_bound(s);
    assert(trim_hashes(h) =~= trim_hashes(s));
    if trim_hashes(s).len() >= 6 {
        lemma_leading_hashes_append(s, extra);
        let n = leading_hashes(s) as int;
        assert(trim_hashes(s + extra) =~= trim_hashes(s) + extra);
    }
}

proof fn lemma_leading_hashes_append(s: Seq<u8>, extra: Seq<u8>)
    requires
        leading_hashes(s) < s.len(),
    ensures
        leading_hashes(s + extra) == leading_hashes(s),
    decreases s.len(),
{
    if s[0] == 0x23 {
        assert((s + extra).drop_first() =~= s.drop_first() + extra);
        lemma_leading_hashes_append(s.drop_first(), extra);
    }
}

/// The upper-case hexadecimal digit for a value below 16.
pub open spec fn hex_char_upper(v: int) -> u8 {
    if v < 10 {
        (0x30 + v) as u8
    } else {
        (0x41 + v - 10) as u8
    }
}

/// "RRGGBB" in upper-case hexadecimal, without '#'.
pub open spec fn color_text_upper(c: Rgb) -> Seq<u8> {
    seq![
        hex_char_upper(c.r as int / 16),
        hex_char_upper(c.r as int % 16),
        hex_char_upper(c.g as int / 16),
        hex_char_upper(c.g as int % 16),
        hex_char_upper(c.b as int / 16),
        hex_char_upper(c.b as int % 16),
    ]
}

/// Writing a colour in upper case without '#' and parsing it back gives the same
/// colour.
pub proof fn lemma_color_text_upper_roundtrip(c: Rgb)
    ensures
        pairs_on_char_boundaries(color_text_upper(c)),
        color_of(color_text_upper(c)) == c,
{
    let s = color_text_upper(c);
    assert(leading_hashes(s) == 0);
    assert(trim_hashes(s) =~= s);
    assert(16 * (c.r / 16) + c.r % 16 == c.r);
    assert(16 * (c.g / 16) + c.g % 16 == c.g);
    assert(16 * (c.b / 16) + c.b % 16 == c.b);
}

/// The lower-case hexadecimal digit for a value below 16.
pub open spec fn hex_char(v: int) -> u8 {
    if v < 10 {
        (0x30 + v) as u8
    } else {
        (0x61 + v - 10) as u8
    }
}

/// "#rrggbb" in lower-case hexadecimal.
pub open spec fn color_text(c: Rgb) -> Seq<u8> {
    seq![
        0x23u8,
        hex_char(c.r as int / 16),
        hex_char(c.r as int % 16),
        hex_char(c.g as int / 16),
        hex_char(c.g as int % 16),
        hex_char(c.b as int / 16),
        hex_char(c.b as int % 16),
    ]
}

proof fn lemma_hex_char_parses(v: int)
    requires
        0 <= v < 16,
    ensures
        hex_digit_value(hex_char(v)) == Some(v as u8),
        hex_char(v) != 0x2B,
        !is_continuation(hex_char(v)),
{
}

/// Writing a colour as "#rrggbb" and parsing it back gives the same colour, and such a
/// text meets the precondition of `parse_color`.
pub proof fn lemma_color_text_roundtrip(c: Rgb)
    ensures
        pairs_on_char_boundaries(color_text(c)),
        color_of(color_text(c)) == c,
{
    let s = color_text(c);
    lemma_hex_char_parses(c.r as int / 16);
    lemma_hex_char_parses(c.r as int % 16);
    lemma_hex_char_parses(c.g as int / 16);
    lemma_hex_char_parses(c.g as int % 16);
    lemma_hex_char_parses(c.b as int / 16);
    lemma_hex_char_parses(c.b as int % 16);
    assert(s.drop_first().len() == 6);
    assert(s.drop_first()[0] != 0x23);
    assert(leading_hashes(s.drop_first()) == 0);
    assert(leading_hashes(s) == 1);
    let t = trim_hashes(s);
    assert(t =~= s.drop_first());
    assert(16 * (c.r / 16) + c.r % 16 == c.r);
    assert(16 * (c.g / 16) + c.g % 16 == c.g);
    assert(16 * (c.b / 16) + c.b % 16 == c.b);
}

} // verus!
