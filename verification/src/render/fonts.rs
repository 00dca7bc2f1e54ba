use vstd::prelude::*;

verus! {

/// Number of font files searched for.
pub const FONT_CANDIDATE_COUNT: usize = 8;

/// The font files searched for, in order of preference: Noto Sans CJK (where the
/// monospace face is face 5 of the collection) in three distribution layouts, then
/// DejaVu Sans Mono, Liberation Mono and Ubuntu Mono.
pub open spec fn candidate_path(i: int) -> Seq<char> {
    if i == 0 {
        "/usr/share/fonts/opentype/noto/NotoSansCJK-Regular.ttc"@
    } else if i == 1 {
        "/usr/share/fonts/noto-cjk/NotoSansCJK-Regular.ttc"@
    } else if i == 2 {
        "/usr/share/fonts/google-noto-cjk/NotoSansCJK-Regular.ttc"@
    } else if i == 3 {
        "/usr/share/fonts/truetype/dejavu/DejaVuSansMono.ttf"@
    } else if i == 4 {
        "/usr/share/fonts/TTF/DejaVuSansMono.ttf"@
    } else if i == 5 {
        "/usr/share/fonts/truetype/liberation/LiberationMono-Regular.ttf"@
    } else if i == 6 {
        "/usr/share/fonts/liberation-mono/LiberationMono-Regular.ttf"@
    } else {
        "/usr/share/fonts/truetype/ubuntu/UbuntuMono-R.ttf"@
    }
}

/// The face to load from candidate `i`: 5 in the Noto collections, 0 otherwise.
pub open spec fn candidate_face(i: int) -> u32 {
    if i < 3 {
        5
    } else {
        0
    }
}

/// The candidate font files with the face to load from each, in order of preference.
pub fn font_candidates() -> (c: Vec<(&'static str, u32)>)
    ensures
        c@.len() == FONT_CANDIDATE_COUNT,
        forall|i: int|
            0 <= i < FONT_CANDIDATE_COUNT ==> (#[trigger] c@[i]).0@ == candidate_path(i)
                && c@[i].1 == candidate_face(i),
{
    let mut c: Vec<(&'static str, u32)> = Vec::new();
    c.push(("/usr/share/fonts/opentype/noto/NotoSansCJK-Regular.ttc", 5));
    c.push(("/usr/share/fonts/noto-cjk/NotoSansCJK-Regular.ttc", 5));
    c.push(("/usr/share/fonts/google-noto-cjk/NotoSansCJK-Regular.ttc", 5));
    c.push(("/usr/share/fonts/truetype/dejavu/DejaVuSansMono.ttf", 0));
    c.push(("/usr/share/fonts/TTF/DejaVuSansMono.ttf", 0));
    c.push(("/usr/share/fonts/truetype/liberation/LiberationMono-Regular.ttf", 0));
    c.push(("/usr/share/fonts/liberation-mono/LiberationMono-Regular.ttf", 0));
    c.push(("/usr/share/fonts/truetype/ubuntu/UbuntuMono-R.ttf", 0));
    c
}

/// Why no font could be chosen.
#[derive(Debug, Clone, Copy, PartialEq, Eq, Structural)]
pub enum FontError {
    /// None of the candidate files exists.
    NotFound,
}

/// The position of the first `true` in `s`.
pub open spec fn first_true(s: Seq<bool>) -> Option<int>
    decreases s.len(),
{
    if s.len() == 0 {
        None
    } else if s[0] {
        Some(0)
    } else {
        match first_true(s.drop_first()) {
            Some(i) => Some(i + 1),
            None => None,
        }
    }
}

proof fn lemma_first_true_sound(s: Seq<bool>)
    ensures
        first_true(s) matches Some(i) ==> 0 <= i < s.len() && s[i] && forall|j: int| 0 <= j < i ==> !s[j],
    decreases s.len(),
{
    if s.len() > 0 && !s[0] {
        lemma_first_true_sound(s.drop_first());
        if first_true(s) is Some {
            let i = first_true(s)->0;
            assert(s[i] == s.drop_first()[i - 1]);
            assert forall|j: int| 0 <= j < i implies !s[j] by {
                if j > 0 {
                    assert(s[j] == s.drop_first()[j - 1]);
                }
            }
        }
    }
}

proof fn lemma_first_true_some(s: Seq<bool>, j: int)
    requires
        0 <= j < s.len(),
        s[j],
    ensures
        first_true(s) is Some,
    decreases j,
{
    if j > 0 && !s[0] {
        lemma_first_true_some(s.drop_first(), j - 1);
    }
}

/// `first_true` finds the first `true`: it is `Some(i)` exactly when `s[i]` holds and
/// no earlier entry does, and `None` exactly when no entry holds.
pub proof fn lemma_first_true_is_first(s: Seq<bool>, i: int)
    ensures
        first_true(s) == Some(i) <==> (0 <= i < s.len() && s[i] && forall|j: int| 0 <= j < i ==> !s[j]),
        first_true(s) is None <==> forall|j: int| 0 <= j < s.len() ==> !s[j],
{
    lemma_first_true_sound(s);
    if 0 <= i < s.len() && s[i] && forall|j: int| 0 <= j < i ==> !s[j] {
        lemma_first_true(s, i);
    }
    if !(forall|j: int| 0 <= j < s.len() ==> !s[j]) {
        let j = choose|j: int| 0 <= j < s.len() && s[j];
        lemma_first_true_some(s, j);
    } else {
        lemma_first_true(s, s.len() as int);
    }
}

proof fn lemma_first_true(s: Seq<bool>, i: int)
    requires
        0 <= i <= s.len(),
        forall|j: int| 0 <= j < i ==> !s[j],
    ensures
        i < s.len() && s[i] ==> first_true(s) == Some(i),
        i == s.len() ==> first_true(s) is None,
    decreases i,
{
    if i > 0 {
        lemma_first_true(s.drop_first(), i - 1);
    }
}

/// The font to load, given whether each candidate file exists (`present[i]` for
/// candidate `i`): the first candidate that exists, with its face; `NotFound` when
/// none does.
pub fn find_monospace_font(present: &[bool]) -> (found: Result<(&'static str, u32), FontError>)
    requires
        present@.len() == FONT_CANDIDATE_COUNT,
    ensures
        match first_true(present@) {
            Some(i) => found matches Ok((path, face)) && path@ == candidate_path(i) && face
                == candidate_face(i),
            None => found == Err::<(&'static str, u32), FontError>(FontError::NotFound),
        },
{
    let candidates = font_candidates();
    let mut i: usize = 0;
    while i < FONT_CANDIDATE_COUNT
        invariant
            i <= FONT_CANDIDATE_COUNT,
            present@.len() == FONT_CANDIDATE_COUNT,
            candidates@.len() == FONT_CANDIDATE_COUNT,
            forall|k: int|
                0 <= k < FONT_CANDIDATE_COUNT ==> (#[trigger] candidates@[k]).0@ == candidate_path(k)
                    && candidates@[k].1 == candidate_face(k),
            forall|j: int| 0 <= j < i ==> !present@[j],
        decreases FONT_CANDIDATE_COUNT - i,
    {
        if present[i] {
            proof {
                lemma_first_true(present@, i as int);
            }
            return Ok(candidates[i]);
        }
        i = i + 1;
    }
    proof {
        lemma_first_true(present@, i as int);
    }
    Err(FontError::NotFound)
}

} // verus!
