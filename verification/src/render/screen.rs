use vstd::prelude::*;

verus! {

/// Width of a glyph cell in pixels.
pub const CELL_W: i32 = 14;

/// Height of a glyph cell in pixels.
pub const CELL_H: i32 = 18;

/// The number of whole glyph columns across a width in pixels. Display sizes come from
/// SDL as non-negative `int`s, hence the bound.
pub fn grid_columns(width: u32) -> (cols: i32)
    requires
        width <= i32::MAX,
    ensures
        cols == width / 14,
{
    (width as i32) / CELL_W
}

/// The number of whole glyph rows down a height in pixels.
pub fn grid_rows(height: u32) -> (rows: i32)
    requires
        height <= i32::MAX,
    ensures
        rows == height / 18,
{
    (height as i32) / CELL_H
}

/// The top-left pixel of the cell in column `col` and row `row`.
pub fn cell_origin(col: i32, row: i32) -> (origin: (i32, i32))
    requires
        i32::MIN <= col * 14 <= i32::MAX,
        i32::MIN <= row * 18 <= i32::MAX,
    ensures
        origin == ((col * 14) as i32, (row * 18) as i32),
{
    (col * CELL_W, row * CELL_H)
}

/// The cells of a trail among the first `n` distances from its head that fall on one
/// of the `rows` rows of the screen, as (distance from head, row), nearest first. The
/// cell at distance `d` is `d` rows above the head.
pub open spec fn visible_trail_upto(head_row: int, n: nat, rows: int) -> Seq<(usize, i32)>
    decreases n,
{
    if n == 0 {
        Seq::empty()
    } else {
        let d = n - 1;
        let earlier = visible_trail_upto(head_row, d as nat, rows);
        let row = head_row - d;
        if 0 <= row < rows {
            earlier.push((d as usize, row as i32))
        } else {
            earlier
        }
    }
}

/// The on-screen cells of a trail of `trail_len` cells behind its head (distances
/// 0 ..= `trail_len`), nearest first, with the row of each.
pub fn visible_trail(head_row: i32, trail_len: usize, rows: i32) -> (cells: Vec<(usize, i32)>)
    requires
        trail_len < i32::MAX,
        head_row - trail_len >= i32::MIN,
    ensures
        cells@ == visible_trail_upto(head_row as int, (trail_len + 1) as nat, rows as int),
{
    let mut cells: Vec<(usize, i32)> = Vec::new();
    let mut d: usize = 0;
    while d <= trail_len
        invariant
            d <= trail_len + 1,
            trail_len < i32::MAX,
            head_row - trail_len >= i32::MIN,
            cells@ == visible_trail_upto(head_row as int, d as nat, rows as int),
        decreases trail_len + 1 - d,
    {
        let row = head_row - d as i32;
        if 0 <= row && row < rows {
            cells.push((d, row));
        }
        d = d + 1;
    }
    cells
}

/// Every cell `visible_trail` lists is on screen and at most `trail_len` rows from the
/// head, at the row its distance puts it on.
pub proof fn lemma_visible_trail_on_screen(head_row: int, n: nat, rows: int)
    requires
        rows <= i32::MAX,
        n <= usize::MAX,
    ensures
        forall|i: int|
            0 <= i < visible_trail_upto(head_row, n, rows).len() ==> {
                let (d, row) = #[trigger] visible_trail_upto(head_row, n, rows)[i];
                &&& 0 <= row < rows
                &&& d < n
                &&& row == head_row - d
            },
    decreases n,
{
    if n > 0 {
        lemma_visible_trail_on_screen(head_row, (n - 1) as nat, rows);
        let earlier = visible_trail_upto(head_row, (n - 1) as nat, rows);
        let all = visible_trail_upto(head_row, n, rows);
        assert forall|i: int| 0 <= i < all.len() implies {
            let (d, row) = #[trigger] all[i];
            &&& 0 <= row < rows
            &&& d < n
            &&& row == head_row - d
        } by {
            if i < earlier.len() {
                assert(all[i] == earlier[i]);
            }
        }
    }
}

/// The cell `d` rows above the head, as (distance, row).
pub open spec fn trail_cell(head_row: int, d: int) -> (usize, i32) {
    (d as usize, (head_row - d) as i32)
}

/// Nothing on screen is left out: every distance `d < n` whose row `head_row - d` is one
/// of the `rows` screen rows is listed, with that row; and the cells come nearest first,
/// each distance once.
pub proof fn lemma_visible_trail_complete(head_row: int, n: nat, rows: int)
    requires
        rows <= i32::MAX,
        n <= usize::MAX,
    ensures
        forall|d: int|
            0 <= d < n && 0 <= head_row - d < rows ==> visible_trail_upto(head_row, n, rows).contains(
                #[trigger] trail_cell(head_row, d),
            ),
        forall|i: int, j: int|
            0 <= i < j < visible_trail_upto(head_row, n, rows).len() ==> (#[trigger] visible_trail_upto(
                head_row,
                n,
                rows,
            )[i]).0 < (#[trigger] visible_trail_upto(head_row, n, rows)[j]).0,
    decreases n,
{
    if n > 0 {
        lemma_visible_trail_complete(head_row, (n - 1) as nat, rows);
        lemma_visible_trail_on_screen(head_row, (n - 1) as nat, rows);
        let earlier = visible_trail_upto(head_row, (n - 1) as nat, rows);
        let all = visible_trail_upto(head_row, n, rows);
        assert forall|d: int| 0 <= d < n && 0 <= head_row - d < rows implies all.contains(
            #[trigger] trail_cell(head_row, d),
        ) by {
            if d < n - 1 {
                assert(earlier.contains(trail_cell(head_row, d)));
                let k = choose|k: int| 0 <= k < earlier.len() && earlier[k] == trail_cell(head_row, d);
                assert(all[k] == earlier[k]);
            } else {
                assert(all[all.len() - 1] == trail_cell(head_row, d));
            }
        }
        assert forall|i: int, j: int| 0 <= i < j < all.len() implies (#[trigger] all[i]).0 < (
        #[trigger] all[j]).0 by {
            if j < earlier.len() {
                assert(all[i] == earlier[i] && all[j] == earlier[j]);
            } else {
                assert(all[i] == earlier[i]);
                let (di, ri) = earlier[i];
                assert(di < n - 1);
            }
        }
    }
}

/// What the user did, as far as leaving the screensaver is concerned.
#[derive(Debug, Clone, Copy, PartialEq, Eq, Structural)]
pub enum InputKind {
    Quit,
    KeyDown,
    MouseButtonDown,
    MouseMotion,
    Other,
}

/// Mouse motion in the first half second is ignored (the pointer settles as the
/// windows appear), in nanoseconds.
pub const MOTION_GRACE_NS: u64 = 500_000_000;

/// How long the rain runs fast after an exit was requested before the screensaver
/// closes, in nanoseconds.
pub const EXIT_FADE_NS: u64 = 600_000_000;

/// When an exit was requested (time since start, in nanoseconds) after one more input
/// at time `now_ns`: the first key press, mouse click or quit request asks for an
/// exit, and so does mouse motion once the grace period is over. A later input never
/// moves the time of the request.
pub open spec fn input_step(requested: Option<u64>, input: InputKind, now_ns: u64) -> Option<u64> {
    match requested {
        Some(t) => Some(t),
        None => match input {
            InputKind::Quit | InputKind::KeyDown | InputKind::MouseButtonDown => Some(now_ns),
            InputKind::MouseMotion => if now_ns > MOTION_GRACE_NS {
                Some(now_ns)
            } else {
                None
            },
            InputKind::Other => None,
        },
    }
}

/// Whether the screensaver closes at time `now_ns`: more than the fade time has passed
/// since the exit request (the elapsed time counts as 0 if `now_ns` is earlier).
pub open spec fn stop_due(requested: Option<u64>, now_ns: u64) -> bool {
    match requested {
        Some(t) => now_ns > t && now_ns - t > EXIT_FADE_NS,
        None => false,
    }
}

/// The exit sequence of a screensaver run. Times are nanoseconds since the start of
/// the run.
pub struct ExitTimer {
    pub requested_at_ns: Option<u64>,
}

impl ExitTimer {
    /// No exit requested yet.
    pub fn new() -> (t: ExitTimer)
        ensures
            t.requested_at_ns is None,
    {
        ExitTimer { requested_at_ns: None }
    }

    /// Records one input event that arrived at `now_ns`.
    pub fn on_input(&mut self, input: InputKind, now_ns: u64)
        ensures
            final(self).requested_at_ns == input_step(old(self).requested_at_ns, input, now_ns),
    {
        if self.requested_at_ns.is_none() {
            match input {
                InputKind::Quit | InputKind::KeyDown | InputKind::MouseButtonDown => {
                    self.requested_at_ns = Some(now_ns);
                },
                InputKind::MouseMotion => {
                    if now_ns > MOTION_GRACE_NS {
                        self.requested_at_ns = Some(now_ns);
                    }
                },
                InputKind::Other => {},
            }
        }
    }

    /// Whether an exit was requested; the rain then falls five times as fast.
    pub fn is_exiting(&self) -> (b: bool)
        ensures
            b == self.requested_at_ns is Some,
    {
        self.requested_at_ns.is_some()
    }

    /// Whether the screensaver closes at `now_ns`.
    pub fn should_stop(&self, now_ns: u64) -> (b: bool)
        ensures
            b == stop_due(self.requested_at_ns, now_ns),
    {
        match self.requested_at_ns {
            Some(t) => now_ns > t && now_ns - t > EXIT_FADE_NS,
            None => false,
        }
    }
}

/// An exit request is stamped with the time of the input that made it: a quit request,
/// key press or mouse click at `now_ns` (and mouse motion after the grace period)
/// requests the exit at `now_ns`, and the screensaver closes exactly at the times more
/// than the fade time after that.
pub proof fn lemma_exit_request_time(input: InputKind, now_ns: u64, later: u64)
    ensures
        (input == InputKind::Quit || input == InputKind::KeyDown || input
            == InputKind::MouseButtonDown) ==> input_step(None, input, now_ns) == Some(now_ns),
        (input == InputKind::MouseMotion && now_ns > 500_000_000) ==> input_step(None, input, now_ns)
            == Some(now_ns),
        input == InputKind::Other ==> input_step(None, input, now_ns) is None,
        stop_due(Some(now_ns), later) <==> later as int > now_ns as int + 600_000_000,
        !stop_due(None, later),
{
}

/// The exit sequence's laws: a request, once made, is never moved by later input; the
/// screensaver only closes after a request; a key press, click or quit request always
/// makes one; mouse motion within the grace period never does; and once a request is
/// more than the fade time old the screensaver closes.
pub proof fn lemma_exit_sequence(requested: Option<u64>, input: InputKind, now_ns: u64)
    ensures
        requested is Some ==> input_step(requested, input, now_ns) == requested,
        stop_due(requested, now_ns) ==> requested is Some,
        (input == InputKind::Quit || input == InputKind::KeyDown || input
            == InputKind::MouseButtonDown) ==> input_step(requested, input, now_ns) is Some,
        (requested is None && input == InputKind::MouseMotion && now_ns <= MOTION_GRACE_NS)
            ==> input_step(requested, input, now_ns) is None,
        requested matches Some(t) && now_ns > t + EXIT_FADE_NS ==> stop_due(requested, now_ns),
{
}

} // verus!
