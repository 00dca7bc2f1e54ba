use vstd::prelude::*;
use vstd::string::StringExecFns;
use vstd::utf8::{encode_utf8, is_ascii_chars, is_ascii_chars_encode_utf8};

verus! {

/// The bytes of "matrix-screensaver-", the prefix of every screensaver window title.
pub open spec fn title_prefix_bytes() -> Seq<u8> {
    seq![
        0x6Du8, 0x61, 0x74, 0x72, 0x69, 0x78, 0x2D,
        0x73, 0x63, 0x72, 0x65, 0x65, 0x6E, 0x73, 0x61, 0x76, 0x65, 0x72, 0x2D,
    ]
}

/// The characters of a sequence of bytes read one character per byte.
pub open spec fn ascii_chars(b: Seq<u8>) -> Seq<char> {
    b.map_values(|x: u8| x as char)
}

/// The decimal digits of `n`, most significant first, without leading zeros.
pub open spec fn decimal_digits(n: nat) -> Seq<u8>
    decreases n,
{
    if n < 10 {
        seq![(0x30 + n) as u8]
    } else {
        decimal_digits(n / 10).push((0x30 + n % 10) as u8)
    }
}

/// The title of the window on display `i`: "matrix-screensaver-" then `i` in decimal.
pub open spec fn window_title_spec(i: nat) -> Seq<char> {
    ascii_chars(title_prefix_bytes() + decimal_digits(i))
}

pub open spec fn is_digit(b: u8) -> bool {
    0x30 <= b <= 0x39
}

/// The value of a sequence of decimal digits.
pub open spec fn digits_value(s: Seq<u8>) -> nat
    decreases s.len(),
{
    if s.len() == 0 {
        0
    } else {
        digits_value(s.drop_last()) * 10 + (s.last() - 0x30) as nat
    }
}

/// The text after a leading '+', if there is one.
pub open spec fn unsigned_digits(s: Seq<u8>) -> Seq<u8> {
    if s.len() > 0 && s[0] == 0x2B {
        s.drop_first()
    } else {
        s
    }
}

/// `usize::from_str` on text given as bytes: an optional '+' and then one or more
/// decimal digits whose value fits in a `usize`.
pub open spec fn parse_usize(s: Seq<u8>) -> Option<usize> {
    let d = unsigned_digits(s);
    if d.len() > 0 && (forall|k: int| 0 <= k < d.len() ==> is_digit(#[trigger] d[k])) && digits_value(d)
        <= usize::MAX {
        Some(digits_value(d) as usize)
    } else {
        None
    }
}

/// The display index a window named `name` belongs to, when it is a screensaver window
/// of one of the `num_displays` displays: the name is "matrix-screensaver-" followed by
/// a number (as `usize::from_str` reads it) below `num_displays`.
pub open spec fn window_index_spec(name: Seq<u8>, num_displays: usize) -> Option<usize> {
    if name.len() >= title_prefix_bytes().len() && name.take(title_prefix_bytes().len() as int)
        == title_prefix_bytes() {
        match parse_usize(name.skip(title_prefix_bytes().len() as int)) {
            Some(i) => if i < num_displays {
                Some(i)
            } else {
                None
            },
            None => None,
        }
    } else {
        None
    }
}

/// `ToString::to_string` on a `usize`: its decimal representation, without sign or
/// leading zeros.
#[verifier::external_body]
fn decimal_string(n: usize) -> (s: String)
    ensures
        s@ == ascii_chars(decimal_digits(n as nat)),
{
    n.to_string()
}

/// The title of the screensaver window on display `display`.
pub fn window_title(display: usize) -> (title: String)
    ensures
        title@ == window_title_spec(display as nat),
{
    let prefix = String::from_str("matrix-screensaver-");
    let digits = decimal_string(display);
    proof {
        reveal_strlit("matrix-screensaver-");
        assert("matrix-screensaver-"@ =~= ascii_chars(title_prefix_bytes()));
    }
    let title = prefix.concat(digits.as_str());
    proof {
        assert(title@ =~= window_title_spec(display as nat));
    }
    title
}

proof fn lemma_digits_value_prefix(s: Seq<u8>, k: int)
    requires
        0 <= k <= s.len(),
    ensures
        digits_value(s.take(k)) <= digits_value(s),
    decreases s.len(),
{
    if k < s.len() {
        lemma_digits_value_prefix(s.drop_last(), k);
        assert(s.drop_last().take(k) =~= s.take(k));
    } else {
        assert(s.take(k) =~= s);
    }
}

/// Reads the number after the title prefix (an optional '+' and decimal digits).
fn parse_usize_from(s: &[u8], start: usize) -> (v: Option<usize>)
    requires
        start <= s@.len(),
    ensures
        v == parse_usize(s@.skip(start as int)),
{
    let ghost rest = s@.skip(start as int);
    let n = s.len();
    let mut i = start;
    if i < n && s[i] == 0x2B {
        i = i + 1;
    }
    let ghost d = unsigned_digits(rest);
    assert(d =~= s@.skip(i as int));
    if i == n {
        return None;
    }
    let first = i;
    let mut acc: usize = 0;
    while i < n
        invariant
            first <= i <= n,
            n == s@.len(),
            d =~= s@.skip(first as int),
            rest == s@.skip(start as int),
            d == unsigned_digits(rest),
            forall|k: int| first <= k < i ==> is_digit(#[trigger] s@[k]),
            acc as nat == digits_value(d.take(i - first)),
        decreases n - i,
    {
        let b = s[i];
        proof {
            assert(d[i - first] == b);
        }
        if b < 0x30 || b > 0x39 {
            assert(!is_digit(d[i - first]));
            assert(!(forall|k: int| 0 <= k < d.len() ==> is_digit(#[trigger] d[k])));
            assert(parse_usize(rest) is None);
            return None;
        }
        proof {
            let t = d.take(i - first + 1);
            assert(t.drop_last() =~= d.take(i - first));
            assert(t.last() == b);
            assert(digits_value(t) == acc * 10 + (b - 0x30) as nat);
        }
        let next = match acc.checked_mul(10) {
            Some(m) => m.checked_add((b - 0x30) as usize),
            None => None,
        };
        match next {
            Some(v) => {
                acc = v;
            },
            None => {
                proof {
                    lemma_digits_value_prefix(d, i - first + 1);
                }
                return None;
            },
        }
        i = i + 1;
    }
    proof {
        assert(d.take(i - first) =~= d);
        assert forall|k: int| 0 <= k < d.len() implies is_digit(#[trigger] d[k]) by {
            assert(d[k] == s@[first + k]);
        }
    }
    Some(acc)
}

fn title_prefix_bytes_exec() -> (v: Vec<u8>)
    ensures
        v@ == title_prefix_bytes(),
{
    let v: Vec<u8> = vec![
        0x6D, 0x61, 0x74, 0x72, 0x69, 0x78, 0x2D,
        0x73, 0x63, 0x72, 0x65, 0x65, 0x6E, 0x73, 0x61, 0x76, 0x65, 0x72, 0x2D,
    ];
    assert(v@ =~= title_prefix_bytes());
    v
}

/// Which display's screensaver window a window named `name` (its raw `_NET_WM_NAME`
/// bytes) is, if it is one: see `window_index_spec`. Bytes that are not valid UTF-8
/// never form the prefix or a digit, so reading the raw bytes gives the same answer as
/// reading the name after a lossy UTF-8 conversion.
pub fn screensaver_window_index(name: &[u8], num_displays: usize) -> (idx: Option<usize>)
    ensures
        idx == window_index_spec(name@, num_displays),
{
    let prefix = title_prefix_bytes_exec();
    let plen = prefix.len();
    if name.len() < plen {
        return None;
    }
    let mut k: usize = 0;
    while k < plen
        invariant
            plen == prefix@.len(),
            prefix@ == title_prefix_bytes(),
            plen <= name@.len(),
            k <= plen,
            forall|j: int| 0 <= j < k ==> name@[j] == prefix@[j],
        decreases plen - k,
    {
        if name[k] != prefix[k] {
            assert(name@.take(plen as int)[k as int] != title_prefix_bytes()[k as int]);
            return None;
        }
        k = k + 1;
    }
    assert(name@.take(plen as int) =~= title_prefix_bytes());
    match parse_usize_from(name, plen) {
        Some(i) => if i < num_displays {
            Some(i)
        } else {
            None
        },
        None => None,
    }
}

proof fn lemma_decimal_digits(n: nat)
    ensures
        decimal_digits(n).len() > 0,
        forall|k: int| 0 <= k < decimal_digits(n).len() ==> is_digit(#[trigger] decimal_digits(n)[k]),
        digits_value(decimal_digits(n)) == n,
    decreases n,
{
    if n >= 10 {
        lemma_decimal_digits(n / 10);
        vstd::arithmetic::div_mod::lemma_fundamental_div_mod(n as int, 10);
        let s = decimal_digits(n);
        assert(s.drop_last() =~= decimal_digits(n / 10));
        assert(s.last() - 0x30 == n % 10);
        assert(digits_value(s) == digits_value(decimal_digits(n / 10)) * 10 + n % 10);
        assert((n / 10) * 10 + n % 10 == n) by (nonlinear_arith);
        assert forall|k: int| 0 <= k < s.len() implies is_digit(#[trigger] s[k]) by {
            if k < s.len() - 1 {
                assert(s[k] == decimal_digits(n / 10)[k]);
            }
        }
    } else {
        let s = decimal_digits(n);
        assert(s.drop_last() =~= Seq::<u8>::empty());
        assert(digits_value(s) == digits_value(Seq::<u8>::empty()) * 10 + (s.last() - 0x30) as nat);
    }
}

proof fn lemma_leading_zero_value(d: Seq<u8>)
    ensures
        digits_value(seq![0x30u8] + d) == digits_value(d),
    decreases d.len(),
{
    let z = seq![0x30u8] + d;
    if d.len() > 0 {
        assert(z.drop_last() =~= seq![0x30u8] + d.drop_last());
        lemma_leading_zero_value(d.drop_last());
        assert(z.last() == d.last());
        assert(digits_value(z) == digits_value(z.drop_last()) * 10 + (z.last() - 0x30) as nat);
    } else {
        assert(z.drop_last() =~= Seq::<u8>::empty());
        assert(z.last() == 0x30);
        assert(digits_value(z) == digits_value(z.drop_last()) * 10 + (z.last() - 0x30) as nat);
        assert(digits_value(z.drop_last()) == 0);
    }
}

/// Decimal text is written without leading zeros: one digit exactly for numbers below
/// ten, and never a leading '0' for a positive number.
pub proof fn lemma_decimal_digits_shape(n: nat)
    ensures
        decimal_digits(n).len() == 1 <==> n < 10,
        n > 0 ==> decimal_digits(n)[0] != 0x30,
        decimal_digits(n).len() > 0,
    decreases n,
{
    if n >= 10 {
        lemma_decimal_digits_shape(n / 10);
        assert(decimal_digits(n)[0] == decimal_digits(n / 10)[0]);
    }
}

/// Reading numbers as `usize::from_str` does: the decimal text of any number reads back
/// as that number when it fits in a `usize` and is refused when it does not, with or
/// without a leading '+' or leading zero; the empty text and a lone '+' are refused,
/// and so is any text with a byte that is neither a digit nor a leading '+'.
pub proof fn lemma_parse_usize_laws(n: nat, s: Seq<u8>)
    ensures
        parse_usize(decimal_digits(n)) == if n <= usize::MAX {
            Some(n as usize)
        } else {
            None::<usize>
        },
        parse_usize(seq![0x2Bu8] + decimal_digits(n)) == parse_usize(decimal_digits(n)),
        parse_usize(seq![0x30u8] + decimal_digits(n)) == parse_usize(decimal_digits(n)),
        parse_usize(Seq::empty()) is None,
        parse_usize(seq![0x2Bu8]) is None,
        (exists|k: int| 0 <= k < s.len() && !is_digit(s[k]) && !(k == 0 && s[k] == 0x2B)) ==> parse_usize(s)
            is None,
{
    let d = decimal_digits(n);
    lemma_decimal_digits(n);
    assert(d[0] != 0x2B) by {
        assert(is_digit(d[0]));
    }
    let p = seq![0x2Bu8] + d;
    assert(p.drop_first() =~= d);
    let z = seq![0x30u8] + d;
    lemma_leading_zero_value(d);
    assert forall|k: int| 0 <= k < z.len() implies is_digit(#[trigger] z[k]) by {
        if k > 0 {
            assert(z[k] == d[k - 1]);
        }
    }
    assert(seq![0x2Bu8].drop_first() =~= Seq::<u8>::empty());
    if exists|k: int| 0 <= k < s.len() && !is_digit(s[k]) && !(k == 0 && s[k] == 0x2B) {
        let k = choose|k: int| 0 <= k < s.len() && !is_digit(s[k]) && !(k == 0 && s[k] == 0x2B);
        let u = unsigned_digits(s);
        if s.len() > 0 && s[0] == 0x2B {
            assert(k > 0);
            assert(u[k - 1] == s[k]);
        } else {
            assert(u[k] == s[k]);
        }
    }
}

/// A window is only ever recognised as one of the displays there are, and only when
/// its name starts with "matrix-screensaver-".
pub proof fn lemma_window_index_bounds(name: Seq<u8>, num_displays: usize)
    ensures
        window_index_spec(name, num_displays) matches Some(i) ==> i < num_displays && name.len()
            > title_prefix_bytes().len() && name.take(19) == title_prefix_bytes(),
{
    if window_index_spec(name, num_displays) is Some {
        assert(name.skip(19).len() > 0);
    }
}

proof fn lemma_ascii_bytes_roundtrip(b: Seq<u8>)
    requires
        forall|k: int| 0 <= k < b.len() ==> #[trigger] b[k] < 0x80,
    ensures
        encode_utf8(ascii_chars(b)) == b,
{
    let c = ascii_chars(b);
    assert(is_ascii_chars(c));
    is_ascii_chars_encode_utf8(c);
    assert(encode_utf8(c) =~= b);
}

/// The title given to the window of display `i` is recognised as display `i`'s
/// screensaver window exactly when `i` is below the number of displays.
pub proof fn lemma_window_title_recognized(i: usize, num_displays: usize)
    ensures
        window_index_spec(encode_utf8(window_title_spec(i as nat)), num_displays) == if i
            < num_displays {
            Some(i)
        } else {
            None::<usize>
        },
{
    let digits = decimal_digits(i as nat);
    lemma_decimal_digits(i as nat);
    let bytes = title_prefix_bytes() + digits;
    assert forall|k: int| 0 <= k < bytes.len() implies #[trigger] bytes[k] < 0x80 by {
        if k >= title_prefix_bytes().len() {
            assert(bytes[k] == digits[k - title_prefix_bytes().len()]);
            assert(is_digit(digits[k - title_prefix_bytes().len()]));
        }
    }
    lemma_ascii_bytes_roundtrip(bytes);
    assert(bytes.take(title_prefix_bytes().len() as int) =~= title_prefix_bytes());
    assert(bytes.skip(title_prefix_bytes().len() as int) =~= digits);
    assert(digits[0] != 0x2B) by {
        assert(is_digit(digits[0]));
    }
}

} // verus!
