//! The dock registry: the live set of windows that reserve screen-edge
//! space, and the reduction of a set of output rectangles by every dock's
//! strut.

use vstd::prelude::*;

use crate::model::WindowId;
use crate::viewport::{apply_strut, strut_ok, Strut, Viewport};

verus! {

/// A window that reserves screen-edge space, together with the margin hint
/// it published, if any. A dock with no hint contributes nothing to the
/// geometry.
#[derive(Clone, Copy, Debug)]
pub struct Dock {
    pub window_id: WindowId,
    pub strut: Option<Strut>,
}

/// The live set of docks.
#[derive(Clone, Debug)]
pub struct Screen {
    docks: Vec<Dock>,
}

/// The registry without any dock of the given window; the others keep
/// their order.
pub open spec fn docks_without(docks: Seq<Dock>, window_id: WindowId) -> Seq<Dock> {
    docks.filter(|d: Dock| d.window_id != window_id)
}

/// The struts of the docks that published one, in registration order.
pub open spec fn struts_of(docks: Seq<Dock>) -> Seq<Strut>
    decreases docks.len(),
{
    if docks.len() == 0 {
        Seq::empty()
    } else {
        let rest = struts_of(docks.drop_last());
        match docks.last().strut {
            Some(s) => rest.push(s),
            None => rest,
        }
    }
}

/// The largest right edge among the given rectangles, and zero when there
/// are none: the width of the whole screen that the outputs together span.
pub open spec fn bounding_width(ports: Seq<Viewport>) -> int
    decreases ports.len(),
{
    if ports.len() == 0 {
        0
    } else {
        let rest = bounding_width(ports.drop_last());
        let edge = ports.last().x + ports.last().width;
        if edge >= rest {
            edge
        } else {
            rest
        }
    }
}

/// The largest bottom edge among the given rectangles, and zero when there
/// are none.
pub open spec fn bounding_height(ports: Seq<Viewport>) -> int
    decreases ports.len(),
{
    if ports.len() == 0 {
        0
    } else {
        let rest = bounding_height(ports.drop_last());
        let edge = ports.last().y + ports.last().height;
        if edge >= rest {
            edge
        } else {
            rest
        }
    }
}

/// Every strut in the sequence can be applied in turn to `vp` within machine
/// arithmetic and without inverting the rectangle.
pub open spec fn fold_ok(vp: Viewport, struts: Seq<Strut>, sw: int, sh: int) -> bool
    decreases struts.len(),
{
    if struts.len() == 0 {
        vp.x + vp.width <= u32::MAX && vp.y + vp.height <= u32::MAX
    } else {
        strut_ok(vp, sw, sh, struts.first()) && fold_ok(
            apply_strut(vp, sw, sh, struts.first()),
            struts.drop_first(),
            sw,
            sh,
        )
    }
}

/// The rectangle left of `vp` after every strut has been applied in turn.
pub open spec fn fold_struts(vp: Viewport, struts: Seq<Strut>, sw: int, sh: int) -> Viewport
    decreases struts.len(),
{
    if struts.len() == 0 {
        vp
    } else {
        fold_struts(apply_strut(vp, sw, sh, struts.first()), struts.drop_first(), sw, sh)
    }
}

/// All candidate rectangles can take every dock's strut: the condition under
/// which `Screen::viewports` is defined.
pub open spec fn viewports_ok(docks: Seq<Dock>, ports: Seq<Viewport>) -> bool {
    forall|i: int|
        0 <= i < ports.len() ==> fold_ok(
            #[trigger] ports[i],
            struts_of(docks),
            bounding_width(ports),
            bounding_height(ports),
        )
}

impl Screen {
    /// The registered docks, in registration order.
    pub closed spec fn docks_spec(&self) -> Seq<Dock> {
        self.docks@
    }

    /// An empty registry.
    pub fn new() -> (s: Screen)
        ensures
            s.docks_spec() == Seq::<Dock>::empty(),
    {
        Screen { docks: Vec::new() }
    }

    /// Registers a dock.
    pub fn add(&mut self, dock: Dock)
        ensures
            final(self).docks_spec() == old(self).docks_spec().push(dock),
    {
        self.docks.push(dock);
    }

    /// Removes every dock of the given window; other docks keep their order.
    pub fn remove_dock(&mut self, window_id: WindowId)
        ensures
            final(self).docks_spec() == docks_without(old(self).docks_spec(), window_id),
    {
        let mut kept: Vec<Dock> = Vec::new();
        let mut i: usize = 0;
        proof {
            reveal_with_fuel(Seq::<Dock>::filter, 2);
            assert(self.docks@.take(0int).filter(|d: Dock| d.window_id != window_id)
                =~= Seq::<Dock>::empty());
        }
        while i < self.docks.len()
            invariant
                i <= self.docks@.len(),
                kept@ == self.docks@.take(i as int).filter(|d: Dock| d.window_id != window_id),
            decreases self.docks@.len() - i,
        {
            let d = self.docks[i];
            proof {
                reveal_with_fuel(Seq::<Dock>::filter, 2);
                assert(self.docks@.take(i + 1).drop_last() =~= self.docks@.take(i as int));
                assert(self.docks@.take(i + 1).last() == d);
            }
            if d.window_id.0 != window_id.0 {
                kept.push(d);
            }
            i = i + 1;
        }
        proof {
            reveal_with_fuel(Seq::<Dock>::filter, 2);
            assert(self.docks@.take(self.docks@.len() as int) =~= self.docks@);
        }
        self.docks = kept;
    }

    /// Checks that every candidate rectangle can take every registered strut:
    /// exactly the condition `viewports` asks of its caller.
    pub fn can_apply(&self, ports: &Vec<Viewport>) -> (b: bool)
        ensures
            b == viewports_ok(self.docks_spec(), ports@),
    {
        let mut i: usize = 0;
        while i < ports.len()
            invariant
                i <= ports@.len(),
                forall|j: int|
                    0 <= j < i ==> (#[trigger] ports@[j]).x + ports@[j].width <= u32::MAX
                        && ports@[j].y + ports@[j].height <= u32::MAX,
            decreases ports@.len() - i,
        {
            let vp = ports[i];
            if vp.x > u32::MAX - vp.width || vp.y > u32::MAX - vp.height {
                proof {
                    assert(!fold_ok(
                        ports@[i as int],
                        struts_of(self.docks_spec()),
                        bounding_width(ports@),
                        bounding_height(ports@),
                    ));
                }
                return false;
            }
            i = i + 1;
        }
        let struts = self.collect_struts();
        let width = Self::bound_width(ports);
        let height = Self::bound_height(ports);
        let mut i: usize = 0;
        while i < ports.len()
            invariant
                i <= ports@.len(),
                struts@ == struts_of(self.docks_spec()),
                width == bounding_width(ports@),
                height == bounding_height(ports@),
                forall|j: int|
                    0 <= j < i ==> fold_ok(#[trigger] ports@[j], struts@, width as int, height as int),
            decreases ports@.len() - i,
        {
            if !Self::fold_ok_exec(ports[i], &struts, width, height) {
                return false;
            }
            i = i + 1;
        }
        true
    }

    /// Figures out the usable area of the screen: the bounding extent of all
    /// candidate rectangles gives the screen dimensions, and every dock's
    /// strut is applied in turn to every rectangle. Order of the candidates
    /// is preserved.
    pub fn viewports(&self, ports: Vec<Viewport>) -> (r: Vec<Viewport>)
        requires
            viewports_ok(self.docks_spec(), ports@),
        ensures
            r@.len() == ports@.len(),
            forall|i: int|
                0 <= i < ports@.len() ==> r@[i] == fold_struts(
                    #[trigger] ports@[i],
                    struts_of(self.docks_spec()),
                    bounding_width(ports@),
                    bounding_height(ports@),
                ),
    {
        proof {
            assert forall|i: int| 0 <= i < ports@.len() implies (#[trigger] ports@[i]).x
                + ports@[i].width <= u32::MAX && ports@[i].y + ports@[i].height <= u32::MAX by {
                assert(fold_ok(
                    ports@[i],
                    struts_of(self.docks_spec()),
                    bounding_width(ports@),
                    bounding_height(ports@),
                ));
            }
        }
        let struts = self.collect_struts();
        let width = Self::bound_width(&ports);
        let height = Self::bound_height(&ports);
        let mut out: Vec<Viewport> = Vec::new();
        let mut i: usize = 0;
        while i < ports.len()
            invariant
                i <= ports@.len(),
                struts@ == struts_of(self.docks_spec()),
                width == bounding_width(ports@),
                height == bounding_height(ports@),
                viewports_ok(self.docks_spec(), ports@),
                out@.len() == i,
                forall|j: int|
                    0 <= j < i ==> out@[j] == fold_struts(
                        #[trigger] ports@[j],
                        struts@,
                        width as int,
                        height as int,
                    ),
            decreases ports@.len() - i,
        {
            let folded = Self::fold_struts_exec(ports[i], &struts, width, height);
            out.push(folded);
            i = i + 1;
        }
        out
    }

    /// The registered struts in order.
    fn collect_struts(&self) -> (r: Vec<Strut>)
        ensures
            r@ == struts_of(self.docks_spec()),
    {
        let mut r: Vec<Strut> = Vec::new();
        let mut i: usize = 0;
        while i < self.docks.len()
            invariant
                i <= self.docks@.len(),
                r@ == struts_of(self.docks@.take(i as int)),
            decreases self.docks@.len() - i,
        {
            proof {
                assert(self.docks@.take(i + 1).drop_last() =~= self.docks@.take(i as int));
                assert(self.docks@.take(i + 1).last() == self.docks@[i as int]);
            }
            match &self.docks[i].strut {
                Some(s) => {
                    r.push(*s);
                }
                None => {}
            }
            i = i + 1;
        }
        proof {
            assert(self.docks@.take(self.docks@.len() as int) =~= self.docks@);
        }
        r
    }

    /// The bounding width of the candidate rectangles.
    fn bound_width(ports: &Vec<Viewport>) -> (w: u32)
        requires
            forall|i: int|
                0 <= i < ports@.len() ==> (#[trigger] ports@[i]).x + ports@[i].width <= u32::MAX,
        ensures
            w == bounding_width(ports@),
    {
        let mut w: u32 = 0;
        let mut i: usize = 0;
        while i < ports.len()
            invariant
                i <= ports@.len(),
                forall|k: int|
                    0 <= k < ports@.len() ==> (#[trigger] ports@[k]).x + ports@[k].width
                        <= u32::MAX,
                w == bounding_width(ports@.take(i as int)),
            decreases ports@.len() - i,
        {
            proof {
                assert(ports@.take(i + 1).drop_last() =~= ports@.take(i as int));
                assert(ports@.take(i + 1).last() == ports@[i as int]);
            }
            let vp = ports[i];
            let edge = vp.x + vp.width;
            if edge > w {
                w = edge;
            }
            i = i + 1;
        }
        proof {
            assert(ports@.take(ports@.len() as int) =~= ports@);
        }
        w
    }

    /// The bounding height of the candidate rectangles.
    fn bound_height(ports: &Vec<Viewport>) -> (h: u32)
        requires
            forall|i: int|
                0 <= i < ports@.len() ==> (#[trigger] ports@[i]).y + ports@[i].height <= u32::MAX,
        ensures
            h == bounding_height(ports@),
    {
        let mut h: u32 = 0;
        let mut i: usize = 0;
        while i < ports.len()
            invariant
                i <= ports@.len(),
                forall|k: int|
                    0 <= k < ports@.len() ==> (#[trigger] ports@[k]).y + ports@[k].height
                        <= u32::MAX,
                h == bounding_height(ports@.take(i as int)),
            decreases ports@.len() - i,
        {
            proof {
                assert(ports@.take(i + 1).drop_last() =~= ports@.take(i as int));
                assert(ports@.take(i + 1).last() == ports@[i as int]);
            }
            let vp = ports[i];
            let edge = vp.y + vp.height;
            if edge > h {
                h = edge;
            }
            i = i + 1;
        }
        proof {
            assert(ports@.take(ports@.len() as int) =~= ports@);
        }
        h
    }

    /// Whether every strut can be applied in turn to `vp`.
    fn fold_ok_exec(vp: Viewport, struts: &Vec<Strut>, sw: u32, sh: u32) -> (b: bool)
        ensures
            b == fold_ok(vp, struts@, sw as int, sh as int),
    {
        let mut cur = vp;
        let mut i: usize = 0;
        proof {
            assert(struts@.skip(0int) =~= struts@);
        }
        while i < struts.len()
            invariant
                i <= struts@.len(),
                fold_ok(vp, struts@, sw as int, sh as int) == fold_ok(
                    cur,
                    struts@.skip(i as int),
                    sw as int,
                    sh as int,
                ),
            decreases struts@.len() - i,
        {
            proof {
                assert(struts@.skip(i as int).first() == struts@[i as int]);
                assert(struts@.skip(i as int).drop_first() =~= struts@.skip(i + 1));
            }
            if !Self::strut_ok_exec(cur, sw, sh, &struts[i]) {
                return false;
            }
            cur = cur.without_strut(sw, sh, &struts[i]);
            i = i + 1;
        }
        proof {
            assert(struts@.skip(struts@.len() as int) =~= Seq::<Strut>::empty());
        }
        cur.x <= u32::MAX - cur.width && cur.y <= u32::MAX - cur.height
    }

    /// Applies every strut in turn to `vp`.
    fn fold_struts_exec(vp: Viewport, struts: &Vec<Strut>, sw: u32, sh: u32) -> (r: Viewport)
        requires
            fold_ok(vp, struts@, sw as int, sh as int),
        ensures
            r == fold_struts(vp, struts@, sw as int, sh as int),
    {
        let mut cur = vp;
        let mut i: usize = 0;
        proof {
            assert(struts@.skip(0int) =~= struts@);
        }
        while i < struts.len()
            invariant
                i <= struts@.len(),
                fold_ok(cur, struts@.skip(i as int), sw as int, sh as int),
                fold_struts(vp, struts@, sw as int, sh as int) == fold_struts(
                    cur,
                    struts@.skip(i as int),
                    sw as int,
                    sh as int,
                ),
            decreases struts@.len() - i,
        {
            proof {
                assert(struts@.skip(i as int).first() == struts@[i as int]);
                assert(struts@.skip(i as int).drop_first() =~= struts@.skip(i + 1));
            }
            cur = cur.without_strut(sw, sh, &struts[i]);
            i = i + 1;
        }
        proof {
            assert(struts@.skip(struts@.len() as int) =~= Seq::<Strut>::empty());
        }
        cur
    }

    /// Whether one strut can be applied to `vp`.
    fn strut_ok_exec(vp: Viewport, sw: u32, sh: u32, s: &Strut) -> (b: bool)
        ensures
            b == strut_ok(vp, sw as int, sh as int, *s),
    {
        if vp.x > u32::MAX - vp.width || vp.y > u32::MAX - vp.height {
            return false;
        }
        let t0 = vp.y;
        let b0 = vp.y + vp.height;
        let mut left = vp.x;
        let mut right = vp.x + vp.width;
        if s.left > 0 && s.left_start_y >= t0 && s.left_end_y <= b0 {
            if s.left > left {
                left = s.left;
            }
        }
        if s.right > 0 && s.right_start_y >= t0 && s.right_end_y <= b0 {
            if s.right > sw {
                return false;
            }
            let limit = sw - s.right;
            if limit < right {
                right = limit;
            }
        }
        if left > right {
            return false;
        }
        let mut top = t0;
        let mut bottom = b0;
        if s.top > 0 && s.top_start_x >= left && s.top_end_x <= right {
            if s.top > top {
                top = s.top;
            }
        }
        if s.bottom > 0 && s.bottom_start_x >= left && s.bottom_end_x <= right {
            if s.bottom > sh {
                return false;
            }
            let limit = sh - s.bottom;
            if limit < bottom {
                bottom = limit;
            }
        }
        top <= bottom
    }
}

} // verus!
