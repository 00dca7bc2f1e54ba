use vstd::prelude::*;

use crate::config::Charset;
use crate::random::random_range;

verus! {

/// Code point of the first half-width katakana glyph, U+FF66.
pub const KATAKANA_FIRST: u32 = 0xFF66;

/// Code point of the last half-width katakana glyph, U+FF9F.
pub const KATAKANA_LAST: u32 = 0xFF9F;

/// Code points `lo, lo + 1, ..., hi` (inclusive), in order.
pub open spec fn code_range(lo: int, hi: int) -> Seq<u32> {
    Seq::new((hi - lo + 1) as nat, |i: int| (lo + i) as u32)
}

/// Half-width katakana U+FF66 ..= U+FF9F.
pub open spec fn katakana_codes() -> Seq<u32> {
    code_range(0xFF66, 0xFF9F)
}

/// 'A' ..= 'Z'.
pub open spec fn upper_codes() -> Seq<u32> {
    code_range(0x41, 0x5A)
}

/// 'a' ..= 'z'.
pub open spec fn lower_codes() -> Seq<u32> {
    code_range(0x61, 0x7A)
}

/// '0' ..= '9'.
pub open spec fn digit_codes() -> Seq<u32> {
    code_range(0x30, 0x39)
}

/// The code points of the glyphs of each character set, in drawing-table order.
pub open spec fn charset_codes(charset: Charset) -> Seq<u32> {
    match charset {
        Charset::Katakana => katakana_codes(),
        Charset::Latin => upper_codes() + lower_codes(),
        Charset::Digits => digit_codes(),
        Charset::Mixed => katakana_codes() + upper_codes() + digit_codes(),
    }
}

/// The code points of a sequence of characters.
pub open spec fn codes_of(chars: Seq<char>) -> Seq<u32> {
    chars.map_values(|c: char| c as u32)
}

/// `char::from_u32`: a character exactly when `code` is a Unicode scalar value
/// (at most U+10FFFF and outside the surrogate block U+D800 ..= U+DFFF), and then the
/// character whose code point is `code`.
#[verifier::external_body]
fn char_from_u32(code: u32) -> (c: Option<char>)
    ensures
        c is Some <==> (code <= 0x10FFFF && !(0xD800 <= code && code <= 0xDFFF)),
        c matches Some(ch) ==> ch as u32 == code,
{
    char::from_u32(code)
}

/// Appends every scalar value of `lo ..= hi` to `v`, skipping code points that are not
/// characters.
fn extend_with_code_range(v: &mut Vec<char>, lo: u32, hi: u32)
    requires
        lo <= hi < 0xD800 || 0xDFFF < lo <= hi <= 0x10FFFF,
    ensures
        codes_of(final(v)@) == codes_of(old(v)@) + code_range(lo as int, hi as int),
{
    let ghost start = old(v)@;
    let mut code: u32 = lo;
    while code <= hi
        invariant
            lo <= code <= hi + 1,
            lo <= hi < 0xD800 || 0xDFFF < lo <= hi <= 0x10FFFF,
            codes_of(v@) == codes_of(start) + code_range(lo as int, code as int - 1),
        decreases hi + 1 - code,
    {
        let ghost before = v@;
        if let Some(c) = char_from_u32(code) {
            v.push(c);
            proof {
                assert(v@ == before.push(c));
                assert(codes_of(v@) =~= codes_of(before).push(code));
            }
        }
        proof {
            assert(code_range(lo as int, code as int) =~= code_range(lo as int, code as int - 1).push(code));
            assert(codes_of(v@) =~= codes_of(start) + code_range(lo as int, code as int));
        }
        code = code + 1;
    }
}

/// The glyph table of a character set: half-width katakana U+FF66 ..= U+FF9F, Latin
/// 'A' ..= 'Z' then 'a' ..= 'z', digits '0' ..= '9', or for `Mixed` the katakana, then
/// 'A' ..= 'Z', then the digits.
pub fn charset_chars(charset: &Charset) -> (chars: Vec<char>)
    ensures
        codes_of(chars@) == charset_codes(*charset),
{
    let mut v: Vec<char> = Vec::new();
    assert(codes_of(v@) =~= Seq::<u32>::empty());
    match charset {
        Charset::Katakana => {
            extend_with_code_range(&mut v, KATAKANA_FIRST, KATAKANA_LAST);
        },
        Charset::Latin => {
            extend_with_code_range(&mut v, 0x41, 0x5A);
            extend_with_code_range(&mut v, 0x61, 0x7A);
        },
        Charset::Digits => {
            extend_with_code_range(&mut v, 0x30, 0x39);
        },
        Charset::Mixed => {
            extend_with_code_range(&mut v, KATAKANA_FIRST, KATAKANA_LAST);
            extend_with_code_range(&mut v, 0x41, 0x5A);
            extend_with_code_range(&mut v, 0x30, 0x39);
        },
    }
    proof {
        assert(Seq::<u32>::empty() + katakana_codes() =~= katakana_codes());
        assert(Seq::<u32>::empty() + digit_codes() =~= digit_codes());
        assert(Seq::<u32>::empty() + upper_codes() =~= upper_codes());
    }
    v
}


/// Every katakana glyph lies in the half-width block U+FF66 ..= U+FF9F; the sets hold
/// 58, 52, 10 and 94 glyphs, none of them twice.
pub proof fn lemma_charset_contents()
    ensures
        forall|i: int|
            0 <= i < katakana_codes().len() ==> 0xFF66 <= #[trigger] katakana_codes()[i] <= 0xFF9F,
        charset_codes(Charset::Katakana).len() == 58,
        charset_codes(Charset::Latin).len() == 52,
        charset_codes(Charset::Digits).len() == 10,
        charset_codes(Charset::Mixed).len() == 94,
        forall|c: Charset, i: int, j: int|
            0 <= i < j < charset_codes(c).len() ==> #[trigger] charset_codes(c)[i]
                != #[trigger] charset_codes(c)[j],
{
    assert forall|c: Charset, i: int, j: int|
        0 <= i < j < charset_codes(c).len() implies #[trigger] charset_codes(c)[i]
        != #[trigger] charset_codes(c)[j] by {
        let s = charset_codes(c);
        match c {
            Charset::Katakana => {},
            Charset::Digits => {},
            Charset::Latin => {
                let a = upper_codes();
                let b = lower_codes();
                assert(s == a + b);
                if i < 26 && j >= 26 {
                    assert(s[i] == a[i]);
                    assert(s[j] == b[j - 26]);
                } else if j < 26 {
                    assert(s[i] == a[i] && s[j] == a[j]);
                } else {
                    assert(s[i] == b[i - 26] && s[j] == b[j - 26]);
                }
            },
            Charset::Mixed => {
                let k = katakana_codes();
                let u = upper_codes();
                let d = digit_codes();
                assert(s == k + u + d);
                assert(forall|x: int| 0 <= x < 58 ==> #[trigger] s[x] == k[x]);
                assert(forall|x: int| 58 <= x < 84 ==> #[trigger] s[x] == u[x - 58]);
                assert(forall|x: int| 84 <= x < 94 ==> #[trigger] s[x] == d[x - 84]);
            },
        }
    }
}

/// Each set's glyphs by position: katakana U+FF66 + i; Latin 'A' + i for the first 26
/// and then 'a' + i; digits '0' + i; Mixed the 58 katakana, then 'A'..'Z', then
/// '0'..'9'.
pub proof fn lemma_charset_positions()
    ensures
        forall|i: int| 0 <= i < 58 ==> #[trigger] charset_codes(Charset::Katakana)[i] == 0xFF66 + i,
        forall|i: int| 0 <= i < 26 ==> #[trigger] charset_codes(Charset::Latin)[i] == 0x41 + i,
        forall|i: int| 26 <= i < 52 ==> #[trigger] charset_codes(Charset::Latin)[i] == 0x61 + (i - 26),
        forall|i: int| 0 <= i < 10 ==> #[trigger] charset_codes(Charset::Digits)[i] == 0x30 + i,
        forall|i: int| 0 <= i < 58 ==> #[trigger] charset_codes(Charset::Mixed)[i] == 0xFF66 + i,
        forall|i: int| 58 <= i < 84 ==> #[trigger] charset_codes(Charset::Mixed)[i] == 0x41 + (i - 58),
        forall|i: int| 84 <= i < 94 ==> #[trigger] charset_codes(Charset::Mixed)[i] == 0x30 + (i - 84),
{
    let l = charset_codes(Charset::Latin);
    assert(l == upper_codes() + lower_codes());
    assert forall|i: int| 26 <= i < 52 implies #[trigger] l[i] == 0x61 + (i - 26) by {
        assert(l[i] == lower_codes()[i - 26]);
    }
    let m = charset_codes(Charset::Mixed);
    let k = katakana_codes();
    let u = upper_codes();
    let d = digit_codes();
    assert(m == k + u + d);
    assert forall|i: int| 58 <= i < 84 implies #[trigger] m[i] == 0x41 + (i - 58) by {
        assert(m[i] == u[i - 58]);
    }
    assert forall|i: int| 84 <= i < 94 implies #[trigger] m[i] == 0x30 + (i - 84) by {
        assert(m[i] == d[i - 84]);
    }
}

/// Shortest trail a column is given.
pub const MIN_TRAIL_LEN: usize = 8;

/// One more than the longest trail a column is given.
pub const TRAIL_LEN_BOUND: usize = 20;

/// A random trail length for a new or restarted column: 8 to 19 cells.
pub fn random_trail_len() -> (len: usize)
    ensures
        MIN_TRAIL_LEN <= len < TRAIL_LEN_BOUND,
{
    random_range(MIN_TRAIL_LEN, TRAIL_LEN_BOUND)
}

} // verus!
