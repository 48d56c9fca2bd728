//! Viewports and struts: the rectangle type used throughout, the
//! reserved-margin hint published by dock windows, and the subtraction that
//! shrinks a rectangle by such a margin.

use vstd::prelude::*;

use crate::model::CrtcInfo;

verus! {

/// Reserved margins at the four screen edges, each with the coordinate range
/// along the perpendicular axis within which it applies.
#[derive(Clone, Copy, Debug)]
pub struct Strut {
    pub left: u32,
    pub right: u32,
    pub top: u32,
    pub bottom: u32,
    pub left_start_y: u32,
    pub left_end_y: u32,
    pub right_start_y: u32,
    pub right_end_y: u32,
    pub top_start_x: u32,
    pub top_end_x: u32,
    pub bottom_start_x: u32,
    pub bottom_end_x: u32,
}

/// A pixel rectangle; a value type with no identity.
#[derive(Clone, Copy, Debug, Hash, Eq, PartialEq, Structural)]
pub struct Viewport {
    pub x: u32,
    pub y: u32,
    pub width: u32,
    pub height: u32,
}

/// The four edges of `vp` after one strut has been applied, as mathematical
/// integers: left, right, top, bottom. A margin applies only when it is
/// positive and its perpendicular range lies within the viewport's span on
/// that axis; the left and right margins are judged against the untouched
/// vertical span, while the top and bottom margins are judged against the
/// horizontal span that the left and right margins have already produced.
pub open spec fn strut_edges(vp: Viewport, sw: int, sh: int, s: Strut) -> (int, int, int, int) {
    let l0 = vp.x as int;
    let r0 = vp.x + vp.width;
    let t0 = vp.y as int;
    let b0 = vp.y + vp.height;
    let l = if s.left > 0 && s.left_start_y >= t0 && s.left_end_y <= b0 {
        if s.left as int >= l0 {
            s.left as int
        } else {
            l0
        }
    } else {
        l0
    };
    let r = if s.right > 0 && s.right_start_y >= t0 && s.right_end_y <= b0 {
        if sw - s.right <= r0 {
            sw - s.right
        } else {
            r0
        }
    } else {
        r0
    };
    let t = if s.top > 0 && s.top_start_x >= l && s.top_end_x <= r {
        if s.top as int >= t0 {
            s.top as int
        } else {
            t0
        }
    } else {
        t0
    };
    let b = if s.bottom > 0 && s.bottom_start_x >= l && s.bottom_end_x <= r {
        if sh - s.bottom <= b0 {
            sh - s.bottom
        } else {
            b0
        }
    } else {
        b0
    };
    (l, r, t, b)
}

/// Applying `s` to `vp` stays within machine arithmetic and does not invert
/// the rectangle: the viewport's own extents fit, a margin that applies never
/// exceeds the screen dimension it is subtracted from, and the clamped edges
/// remain ordered.
pub open spec fn strut_ok(vp: Viewport, sw: int, sh: int, s: Strut) -> bool {
    let t0 = vp.y as int;
    let b0 = vp.y + vp.height;
    let (l, r, t, b) = strut_edges(vp, sw, sh, s);
    &&& vp.x + vp.width <= u32::MAX
    &&& vp.y + vp.height <= u32::MAX
    &&& (s.right > 0 && s.right_start_y >= t0 && s.right_end_y <= b0) ==> s.right <= sw
    &&& (s.bottom > 0 && s.bottom_start_x >= l && s.bottom_end_x <= r) ==> s.bottom <= sh
    &&& l <= r
    &&& t <= b
}

/// The viewport that remains of `vp` once `s` has been applied.
pub open spec fn apply_strut(vp: Viewport, sw: int, sh: int, s: Strut) -> Viewport {
    let (l, r, t, b) = strut_edges(vp, sw, sh, s);
    Viewport { x: l as u32, y: t as u32, width: (r - l) as u32, height: (b - t) as u32 }
}

impl Viewport {
    /// The rectangle of an output's geometry report. Coordinates are carried
    /// over bit-for-bit into the wider unsigned fields.
    pub fn clone_from_crtc_info(c: &CrtcInfo) -> (r: Viewport)
        ensures
            r.x == c.x as u32,
            r.y == c.y as u32,
            r.width == c.width as u32,
            r.height == c.height as u32,
    {
        Viewport {
            x: #[verifier::truncate] (c.x as u32),
            y: #[verifier::truncate] (c.y as u32),
            width: c.width as u32,
            height: c.height as u32,
        }
    }

    /// Shrinks this viewport by one dock's reserved margins, given the
    /// bounding screen dimensions. Each margin applies only where the dock's
    /// perpendicular extent overlaps the viewport's span; an applying margin
    /// clamps the corresponding edge inward, never outward.
    pub fn without_strut(&self, screen_width: u32, screen_height: u32, strut: &Strut) -> (r:
        Viewport)
        requires
            strut_ok(*self, screen_width as int, screen_height as int, *strut),
        ensures
            r == apply_strut(*self, screen_width as int, screen_height as int, *strut),
    {
        let mut left = self.x;
        let mut right = self.x + self.width;
        let mut top = self.y;
        let mut bottom = self.y + self.height;
        if strut.left > 0 && strut.left_start_y >= top && strut.left_end_y <= bottom {
            if strut.left > left {
                left = strut.left;
            }
        }
        if strut.right > 0 && strut.right_start_y >= top && strut.right_end_y <= bottom {
            let limit = screen_width - strut.right;
            if limit < right {
                right = limit;
            }
        }
        if strut.top > 0 && strut.top_start_x >= left && strut.top_end_x <= right {
            if strut.top > top {
                top = strut.top;
            }
        }
        if strut.bottom > 0 && strut.bottom_start_x >= left && strut.bottom_end_x <= right {
            let limit = screen_height - strut.bottom;
            if limit < bottom {
                bottom = limit;
            }
        }
        Viewport { x: left, y: top, width: right - left, height: bottom - top }
    }
}

} // verus!
