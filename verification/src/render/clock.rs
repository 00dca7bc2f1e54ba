use vstd::prelude::*;

use crate::config::Charset;
use crate::random::random_range;
use crate::render::matrix::{charset_chars, codes_of, katakana_codes};

verus! {

/// Whether the clock texture must be rebuilt: the second shown has changed, or there
/// is no texture yet.
pub open spec fn rebuild_needed(last_second: u32, second: u32, has_cache: bool) -> bool {
    second != last_second || !has_cache
}

/// The clock overlay's memory between frames: the second its cached texture shows.
pub struct ClockRenderer {
    last_second: u32,
}

impl ClockRenderer {
    /// The second the cached texture shows (`u32::MAX` before the first one is built).
    pub closed spec fn last_second(&self) -> u32 {
        self.last_second
    }

    /// A renderer that has built no texture yet.
    pub fn new() -> (r: Self)
        ensures
            r.last_second() == u32::MAX,
    {
        ClockRenderer { last_second: u32::MAX }
    }

    /// Whether this frame must rebuild the clock texture for the current `second`.
    pub fn needs_rebuild(&self, second: u32, has_cache: bool) -> (b: bool)
        ensures
            b == rebuild_needed(self.last_second(), second, has_cache),
    {
        second != self.last_second || !has_cache
    }

    /// Records that the texture now shows `second`.
    pub fn mark_rebuilt(&mut self, second: u32)
        ensures
            final(self).last_second() == second,
    {
        self.last_second = second;
    }
}

/// The texture is built once per second: a fresh renderer builds it on the first frame
/// (no clock second equals `u32::MAX`); after a build for second `s`, another frame in
/// second `s` with the texture in hand builds nothing, while a new second or a missing
/// texture builds again.
pub proof fn lemma_rebuild_once_per_second(last: u32, s: u32, t: u32, has_cache: bool)
    ensures
        s < 60 ==> rebuild_needed(u32::MAX, s, has_cache),
        !rebuild_needed(s, s, true),
        t != s ==> rebuild_needed(s, t, has_cache),
        rebuild_needed(last, t, false),
{
}

/// Only the primary display (index 0) shows the clock.
pub fn shows_clock(display: usize) -> (b: bool)
    ensures
        b == (display == 0),
{
    display == 0
}

/// Number of digit positions of "HH:MM:SS".
pub const GLITCH_SLOT_COUNT: usize = 6;

/// Number of half-width katakana glyphs.
pub const KATAKANA_COUNT: usize = 58;

/// The position in "HH:MM:SS" of the `k`-th digit (0, 1, 3, 4, 6, 7).
pub open spec fn glitch_slot(k: int) -> int {
    if k < 2 {
        k
    } else if k < 4 {
        k + 1
    } else {
        k + 2
    }
}

/// The code points of the clock text after its `slot`-th digit became the `kana`-th
/// half-width katakana glyph.
pub open spec fn glitched_codes(text: Seq<char>, slot: int, kana: int) -> Seq<u32> {
    codes_of(text).update(glitch_slot(slot), katakana_codes()[kana])
}

fn glitch_slot_position(k: usize) -> (p: usize)
    requires
        k < GLITCH_SLOT_COUNT,
    ensures
        p == glitch_slot(k as int),
{
    if k < 2 {
        k
    } else if k < 4 {
        k + 1
    } else {
        k + 2
    }
}

/// The clock text "HH:MM:SS" (as characters) with the `slot`-th digit replaced by the
/// `kana`-th half-width katakana glyph.
pub fn glitch_text(text: Vec<char>, slot: usize, kana: usize) -> (glitched: Vec<char>)
    requires
        text@.len() >= 8,
        slot < GLITCH_SLOT_COUNT,
        kana < KATAKANA_COUNT,
    ensures
        codes_of(glitched@) == glitched_codes(text@, slot as int, kana as int),
{
    let glyphs = charset_chars(&Charset::Katakana);
    assert(katakana_codes().len() == KATAKANA_COUNT);
    assert(codes_of(glyphs@).len() == glyphs@.len());
    assert(codes_of(glyphs@)[kana as int] == glyphs@[kana as int] as u32);
    let pos = glitch_slot_position(slot);
    let mut chars = text;
    let ghost before = chars@;
    chars.set(pos, glyphs[kana]);
    assert(codes_of(chars@) =~= glitched_codes(before, slot as int, kana as int));
    chars
}

/// A glitch frame's text: one digit of the clock text, chosen at random, replaced by a
/// random half-width katakana glyph. Which digit and which glyph is chance.
pub fn random_glitch_text(text: Vec<char>) -> (glitched: Vec<char>)
    requires
        text@.len() >= 8,
    ensures
        exists|slot: int, kana: int|
            0 <= slot < GLITCH_SLOT_COUNT && 0 <= kana < KATAKANA_COUNT && codes_of(glitched@)
                == glitched_codes(text@, slot, kana),
{
    let slot = random_range(0, GLITCH_SLOT_COUNT);
    let kana = random_range(0, KATAKANA_COUNT);
    let ghost clock_text = text@;
    let g = glitch_text(text, slot, kana);
    assert(codes_of(g@) == glitched_codes(clock_text, slot as int, kana as int));
    g
}

/// The glitch slots are exactly the six digit positions of "HH:MM:SS", in order, and
/// the glyph put there is U+FF66 plus the glyph's index.
pub proof fn lemma_glitch_slots(text: Seq<char>, slot: int, kana: int)
    requires
        text.len() >= 8,
        0 <= slot < GLITCH_SLOT_COUNT,
        0 <= kana < KATAKANA_COUNT,
    ensures
        glitch_slot(0) == 0 && glitch_slot(1) == 1 && glitch_slot(2) == 3,
        glitch_slot(3) == 4 && glitch_slot(4) == 6 && glitch_slot(5) == 7,
        glitched_codes(text, slot, kana)[glitch_slot(slot)] == 0xFF66 + kana,
{
}

/// A glitch touches one digit only: the text keeps its length, both colons and every
/// other position, and the digit it replaces becomes a half-width katakana glyph.
pub proof fn lemma_glitch_touches_one_digit(text: Seq<char>, slot: int, kana: int)
    requires
        text.len() >= 8,
        0 <= slot < GLITCH_SLOT_COUNT,
        0 <= kana < KATAKANA_COUNT,
    ensures
        glitched_codes(text, slot, kana).len() == text.len(),
        glitched_codes(text, slot, kana)[2] == text[2] as u32,
        glitched_codes(text, slot, kana)[5] == text[5] as u32,
        forall|i: int|
            0 <= i < text.len() && i != glitch_slot(slot) ==> #[trigger] glitched_codes(text, slot, kana)[i]
                == text[i] as u32,
        0xFF66 <= glitched_codes(text, slot, kana)[glitch_slot(slot)] <= 0xFF9F,
{
}

/// Where the clock is drawn: the main (green) copy, the red ghost 3 pixels to its left,
/// the blue ghost 3 pixels to its right, all at height `y`.
#[derive(Debug, Clone, Copy, PartialEq, Eq, Structural)]
pub struct ClockPlacement {
    pub main_x: i32,
    pub red_x: i32,
    pub blue_x: i32,
    pub y: i32,
}

/// Half of `outer - inner`, rounded toward zero: the offset that centres an item of
/// size `inner` in a space of size `outer`.
pub open spec fn centered(outer: int, inner: int) -> int {
    let d = outer - inner;
    if d >= 0 {
        d / 2
    } else {
        -((-d) / 2)
    }
}

/// Centring leaves equal margins, up to one pixel: twice the offset plus the inner size
/// is the outer size, or one less (one more when the item is larger than the space, as
/// the halving rounds toward zero).
pub proof fn lemma_centered_margins(outer: int, inner: int)
    ensures
        outer >= inner ==> outer - 1 <= 2 * centered(outer, inner) + inner <= outer,
        outer < inner ==> outer <= 2 * centered(outer, inner) + inner <= outer + 1,
{
}

fn centered_offset(outer: u32, inner: u32) -> (off: i32)
    requires
        outer <= i32::MAX,
        inner <= i32::MAX,
    ensures
        off == centered(outer as int, inner as int),
{
    let d = outer as i32 - inner as i32;
    if d >= 0 {
        d / 2
    } else {
        -((-d) / 2)
    }
}

/// The placement of a clock texture of `tex_w` x `tex_h` pixels centred on a screen of
/// `screen_w` x `screen_h` pixels. Sizes come from SDL as non-negative `int`s.
pub fn clock_placement(screen_w: u32, screen_h: u32, tex_w: u32, tex_h: u32) -> (p: ClockPlacement)
    requires
        screen_w <= i32::MAX,
        screen_h <= i32::MAX,
        tex_w <= i32::MAX,
        tex_h <= i32::MAX,
    ensures
        p.main_x == centered(screen_w as int, tex_w as int),
        p.red_x == p.main_x - 3,
        p.blue_x == p.main_x + 3,
        p.y == centered(screen_h as int, tex_h as int),
{
    let x = centered_offset(screen_w, tex_w);
    let y = centered_offset(screen_h, tex_h);
    ClockPlacement { main_x: x, red_x: x - 3, blue_x: x + 3, y }
}

} // verus!
