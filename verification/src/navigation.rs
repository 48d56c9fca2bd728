//! Directional navigation: pure geometric selection of the next window in a
//! direction from a set of placed rectangles, under two policies. The line
//! policy admits only windows whose span straddles the focused centre on the
//! perpendicular axis and picks the nearest along the travel axis; the
//! centre policy normalises every direction to a rightward comparison and
//! picks the candidate of smallest Manhattan distance within a 45-degree
//! cone. Both exclude the focused rectangle itself.

use vstd::prelude::*;

use crate::layout::MappedWindow;
use crate::viewport::Viewport;

verus! {

/// A direction of travel between windows.
#[derive(Debug, Clone, Copy, PartialEq, Eq, Structural)]
pub enum Direction {
    Up,
    Down,
    Left,
    Right,
}

/// Whether `w` qualifies as a line-policy candidate: it is not the focused
/// rectangle, its relevant edge lies on the correct side of the focused
/// centre, and its span on the perpendicular axis straddles that centre.
pub open spec fn line_candidate<T>(dir: Direction, focus: Viewport, w: MappedWindow<T>) -> bool {
    let cx = focus.x + focus.width / 2;
    let cy = focus.y + focus.height / 2;
    &&& w.vp != focus
    &&& match dir {
        Direction::Up => w.vp.y <= cy && w.vp.x <= cx && w.vp.x + w.vp.width >= cx,
        Direction::Down => w.vp.y >= cy && w.vp.x <= cx && w.vp.x + w.vp.width >= cx,
        Direction::Left => w.vp.x <= cx && w.vp.y <= cy && w.vp.y + w.vp.height >= cy,
        Direction::Right => w.vp.x >= cx && w.vp.y <= cy && w.vp.y + w.vp.height >= cy,
    }
}

/// The candidate's position along the travel axis.
pub open spec fn line_key<T>(dir: Direction, w: MappedWindow<T>) -> int {
    match dir {
        Direction::Up | Direction::Down => w.vp.y as int,
        Direction::Left | Direction::Right => w.vp.x as int,
    }
}

/// Whether the line policy strictly prefers `a` over `b`: the larger
/// position wins travelling up or left, the smaller wins travelling down or
/// right.
pub open spec fn line_prefers<T>(dir: Direction, a: MappedWindow<T>, b: MappedWindow<T>) -> bool {
    match dir {
        Direction::Up | Direction::Left => line_key(dir, a) > line_key(dir, b),
        Direction::Down | Direction::Right => line_key(dir, a) < line_key(dir, b),
    }
}

/// The index of the window the line policy selects: scanning left to right,
/// a candidate displaces the current best only when strictly preferred, so
/// the earliest among equally good candidates wins.
pub open spec fn line_best_idx<T>(dir: Direction, focus: Viewport, ws: Seq<MappedWindow<T>>) -> Option<int>
    decreases ws.len(),
{
    if ws.len() == 0 {
        None
    } else {
        let prev = line_best_idx(dir, focus, ws.drop_last());
        let k = ws.len() - 1;
        if !line_candidate(dir, focus, ws[k]) {
            prev
        } else {
            match prev {
                None => Some(k as int),
                Some(b) => if line_prefers(dir, ws[k], ws[b]) {
                    Some(k as int)
                } else {
                    Some(b)
                },
            }
        }
    }
}

/// The window the line policy selects, if any candidate qualifies.
pub open spec fn line_pick<T>(dir: Direction, focus: Viewport, ws: Seq<MappedWindow<T>>) -> Option<
    MappedWindow<T>,
> {
    match line_best_idx(dir, focus, ws) {
        Some(i) => Some(ws[i]),
        None => None,
    }
}

/// The centre-policy delta of `w` against the focused rectangle, normalised
/// so that every direction reads as travelling right: the primary component
/// first, the secondary second.
pub open spec fn center_delta<T>(dir: Direction, focus: Viewport, w: MappedWindow<T>) -> (
    int,
    int,
) {
    let fx = focus.x + focus.width / 2;
    let fy = focus.y + focus.height / 2;
    let x = w.vp.x + w.vp.width / 2;
    let y = w.vp.y + w.vp.height / 2;
    let dx = x - fx;
    let dy = y - fy;
    match dir {
        Direction::Right => (dx, dy),
        Direction::Left => (-dx, dy),
        Direction::Down => (dy, dx),
        Direction::Up => (-dy, -dx),
    }
}

/// Whether `w` qualifies as a centre-policy candidate: it is not the focused
/// rectangle, it lies strictly ahead after normalisation, and it falls
/// within the 45-degree cone.
pub open spec fn center_candidate<T>(dir: Direction, focus: Viewport, w: MappedWindow<T>) -> bool {
    let (dx, dy) = center_delta(dir, focus, w);
    w.vp != focus && dx > 0 && dy < dx && dy >= -dx
}

/// The absolute value.
pub open spec fn abs_of(x: int) -> int {
    if x >= 0 {
        x
    } else {
        -x
    }
}

/// Whether the centre policy strictly prefers `a` over `b`: smaller
/// Manhattan distance wins, and at equal distance the smaller primary delta
/// wins.
pub open spec fn center_better<T>(
    dir: Direction,
    focus: Viewport,
    a: MappedWindow<T>,
    b: MappedWindow<T>,
) -> bool {
    let (ax, ay) = center_delta(dir, focus, a);
    let (bx, by) = center_delta(dir, focus, b);
    let da = abs_of(ax) + abs_of(ay);
    let db = abs_of(bx) + abs_of(by);
    da < db || (da == db && ax < bx)
}

/// The index of the window the centre policy selects: scanning left to
/// right, a candidate displaces the current best only when strictly better,
/// so the earliest among equally ranked candidates wins.
pub open spec fn center_best_idx<T>(
    dir: Direction,
    focus: Viewport,
    ws: Seq<MappedWindow<T>>,
) -> Option<int>
    decreases ws.len(),
{
    if ws.len() == 0 {
        None
    } else {
        let prev = center_best_idx(dir, focus, ws.drop_last());
        let k = ws.len() - 1;
        if !center_candidate(dir, focus, ws[k]) {
            prev
        } else {
            match prev {
                None => Some(k as int),
                Some(b) => if center_better(dir, focus, ws[k], ws[b]) {
                    Some(k as int)
                } else {
                    Some(b)
                },
            }
        }
    }
}

/// The window the centre policy selects, if any candidate qualifies.
pub open spec fn center_pick<T>(dir: Direction, focus: Viewport, ws: Seq<MappedWindow<T>>) -> Option<
    MappedWindow<T>,
> {
    match center_best_idx(dir, focus, ws) {
        Some(i) => Some(ws[i]),
        None => None,
    }
}

/// The line selection policy.
pub struct Line();

/// The centre selection policy.
pub struct Center();

impl Line {
    /// Picks the best line-policy candidate: among the qualifying windows,
    /// the nearest along the travel axis, and among equally near ones the
    /// earliest in the list; `None` when no window qualifies.
    pub fn next_window<T: Copy>(
        &self,
        dir: &Direction,
        focus: &Viewport,
        windows: &Vec<MappedWindow<T>>,
    ) -> (r: Option<MappedWindow<T>>)
        ensures
            r == line_pick(*dir, *focus, windows@),
    {
        let mut best: Option<usize> = None;
        let mut i: usize = 0;
        while i < windows.len()
            invariant
                i <= windows@.len(),
                match best {
                    None => line_best_idx(*dir, *focus, windows@.take(i as int)) is None,
                    Some(b) => b < i && line_best_idx(*dir, *focus, windows@.take(i as int))
                        == Some(b as int),
                },
            decreases windows@.len() - i,
        {
            proof {
                assert(windows@.take(i + 1).drop_last() =~= windows@.take(i as int));
                assert(windows@.take(i + 1).last() == windows@[i as int]);
            }
            let w = windows[i];
            if Self::is_candidate(dir, focus, &w) {
                match best {
                    None => {
                        best = Some(i);
                    }
                    Some(b) => {
                        if Self::prefers(dir, &w, &windows[b]) {
                            best = Some(i);
                        }
                    }
                }
            }
            i = i + 1;
        }
        proof {
            assert(windows@.take(windows@.len() as int) =~= windows@);
        }
        match best {
            None => None,
            Some(b) => Some(windows[b]),
        }
    }

    /// Whether `w` qualifies for this direction and focus.
    fn is_candidate<T: Copy>(dir: &Direction, focus: &Viewport, w: &MappedWindow<T>) -> (b: bool)
        ensures
            b == line_candidate(*dir, *focus, *w),
    {
        let cx = focus.x as u64 + (focus.width / 2) as u64;
        let cy = focus.y as u64 + (focus.height / 2) as u64;
        let wx = w.vp.x as u64;
        let wy = w.vp.y as u64;
        let wr = w.vp.x as u64 + w.vp.width as u64;
        let wb = w.vp.y as u64 + w.vp.height as u64;
        let differs = w.vp.x != focus.x || w.vp.y != focus.y || w.vp.width != focus.width
            || w.vp.height != focus.height;
        differs && match dir {
            Direction::Up => wy <= cy && wx <= cx && wr >= cx,
            Direction::Down => wy >= cy && wx <= cx && wr >= cx,
            Direction::Left => wx <= cx && wy <= cy && wb >= cy,
            Direction::Right => wx >= cx && wy <= cy && wb >= cy,
        }
    }

    /// Whether the policy strictly prefers `a` over `b`.
    fn prefers<T: Copy>(dir: &Direction, a: &MappedWindow<T>, b: &MappedWindow<T>) -> (r: bool)
        ensures
            r == line_prefers(*dir, *a, *b),
    {
        match dir {
            Direction::Up => a.vp.y > b.vp.y,
            Direction::Down => a.vp.y < b.vp.y,
            Direction::Left => a.vp.x > b.vp.x,
            Direction::Right => a.vp.x < b.vp.x,
        }
    }
}

impl Center {
    /// Picks the best centre-policy candidate: among the windows strictly
    /// ahead within the cone, the one of smallest Manhattan distance, ties
    /// broken by the smaller primary delta and then by the earliest position
    /// in the list; `None` when no window qualifies.
    pub fn next_window<T: Copy>(
        &self,
        dir: &Direction,
        focus: &Viewport,
        windows: &Vec<MappedWindow<T>>,
    ) -> (r: Option<MappedWindow<T>>)
        ensures
            r == center_pick(*dir, *focus, windows@),
    {
        let mut best: Option<usize> = None;
        let mut i: usize = 0;
        while i < windows.len()
            invariant
                i <= windows@.len(),
                match best {
                    None => center_best_idx(*dir, *focus, windows@.take(i as int)) is None,
                    Some(b) => b < i && center_best_idx(*dir, *focus, windows@.take(i as int))
                        == Some(b as int),
                },
            decreases windows@.len() - i,
        {
            proof {
                assert(windows@.take(i + 1).drop_last() =~= windows@.take(i as int));
                assert(windows@.take(i + 1).last() == windows@[i as int]);
            }
            let w = windows[i];
            if Self::is_candidate(dir, focus, &w) {
                match best {
                    None => {
                        best = Some(i);
                    }
                    Some(b) => {
                        if Self::better(dir, focus, &w, &windows[b]) {
                            best = Some(i);
                        }
                    }
                }
            }
            i = i + 1;
        }
        proof {
            assert(windows@.take(windows@.len() as int) =~= windows@);
        }
        match best {
            None => None,
            Some(b) => Some(windows[b]),
        }
    }

    /// The normalised delta of `w`, computed exactly.
    fn delta<T: Copy>(dir: &Direction, focus: &Viewport, w: &MappedWindow<T>) -> (r: (i64, i64))
        ensures
            (r.0 as int, r.1 as int) == center_delta(*dir, *focus, *w),
    {
        let fx = focus.x as i64 + (focus.width / 2) as i64;
        let fy = focus.y as i64 + (focus.height / 2) as i64;
        let x = w.vp.x as i64 + (w.vp.width / 2) as i64;
        let y = w.vp.y as i64 + (w.vp.height / 2) as i64;
        let dx = x - fx;
        let dy = y - fy;
        match dir {
            Direction::Right => (dx, dy),
            Direction::Left => (-dx, dy),
            Direction::Down => (dy, dx),
            Direction::Up => (-dy, -dx),
        }
    }

    /// Whether `w` qualifies for this direction and focus.
    fn is_candidate<T: Copy>(dir: &Direction, focus: &Viewport, w: &MappedWindow<T>) -> (b: bool)
        ensures
            b == center_candidate(*dir, *focus, *w),
    {
        let (dx, dy) = Self::delta(dir, focus, w);
        let differs = w.vp.x != focus.x || w.vp.y != focus.y || w.vp.width != focus.width
            || w.vp.height != focus.height;
        differs && dx > 0 && dy < dx && dy >= -dx
    }

    /// Whether the policy strictly prefers `a` over `b`.
    fn better<T: Copy>(
        dir: &Direction,
        focus: &Viewport,
        a: &MappedWindow<T>,
        b: &MappedWindow<T>,
    ) -> (r: bool)
        ensures
            r == center_better(*dir, *focus, *a, *b),
    {
        let (ax, ay) = Self::delta(dir, focus, a);
        let (bx, by) = Self::delta(dir, focus, b);
        let aax = if ax >= 0 {
            ax
        } else {
            -ax
        };
        let aay = if ay >= 0 {
            ay
        } else {
            -ay
        };
        let bax = if bx >= 0 {
            bx
        } else {
            -bx
        };
        let bay = if by >= 0 {
            by
        } else {
            -by
        };
        let da = aax + aay;
        let db = bax + bay;
        da < db || (da == db && ax < bx)
    }
}

/// What the line policy's choice satisfies: when it picks a window, that
/// window is a candidate, no candidate in the list is strictly preferred
/// over it, and every candidate before it in the list is strictly worse;
/// when it picks none, no window qualifies.
pub proof fn lemma_line_pick_properties<T>(dir: Direction, focus: Viewport, ws: Seq<MappedWindow<T>>)
    ensures
        match line_best_idx(dir, focus, ws) {
            None => forall|i: int|
                0 <= i < ws.len() ==> !line_candidate(dir, focus, #[trigger] ws[i]),
            Some(b) => 0 <= b < ws.len() && line_candidate(dir, focus, ws[b]) && (forall|j: int|
                0 <= j < ws.len() && line_candidate(dir, focus, #[trigger] ws[j])
                    ==> !line_prefers(dir, ws[j], ws[b])) && (forall|j: int|
                0 <= j < b && line_candidate(dir, focus, #[trigger] ws[j]) ==> line_prefers(
                    dir,
                    ws[b],
                    ws[j],
                )),
        },
    decreases ws.len(),
{
    if ws.len() > 0 {
        lemma_line_pick_properties(dir, focus, ws.drop_last());
        assert forall|j: int| 0 <= j < ws.len() - 1 implies ws.drop_last()[j] == ws[j] by {}
    }
}

/// What the centre policy's choice satisfies: when it picks a window, that
/// window is a candidate, no candidate in the list is strictly better, and
/// every candidate before it in the list is strictly worse; when it picks
/// none, no window qualifies.
pub proof fn lemma_center_pick_properties<T>(
    dir: Direction,
    focus: Viewport,
    ws: Seq<MappedWindow<T>>,
)
    ensures
        match center_best_idx(dir, focus, ws) {
            None => forall|i: int|
                0 <= i < ws.len() ==> !center_candidate(dir, focus, #[trigger] ws[i]),
            Some(b) => 0 <= b < ws.len() && center_candidate(dir, focus, ws[b]) && (forall|j: int|
                0 <= j < ws.len() && center_candidate(dir, focus, #[trigger] ws[j])
                    ==> !center_better(dir, focus, ws[j], ws[b])) && (forall|j: int|
                0 <= j < b && center_candidate(dir, focus, #[trigger] ws[j]) ==> center_better(
                    dir,
                    focus,
                    ws[b],
                    ws[j],
                )),
        },
    decreases ws.len(),
{
    if ws.len() > 0 {
        lemma_center_pick_properties(dir, focus, ws.drop_last());
        assert forall|j: int| 0 <= j < ws.len() - 1 implies ws.drop_last()[j] == ws[j] by {}
    }
}

} // verus!
