//! The layout engine: each variant turns a viewport and an ordered stack of
//! windows into a set of placements. All variants are deterministic pure
//! functions of the viewport, the ordered window identifiers and the focus
//! position; they never mutate their input.

use vstd::arithmetic::div_mod::{lemma_fundamental_div_mod, lemma_mod_bound};
use vstd::arithmetic::mul::{
    lemma_mul_inequality, lemma_mul_is_commutative, lemma_mul_is_distributive_add,
    lemma_mul_is_distributive_add_other_way, lemma_mul_is_distributive_sub, lemma_mul_upper_bound,
};
use vstd::prelude::*;

use crate::stack::Stack;
use crate::viewport::Viewport;

verus! {

/// A window together with the rectangle assigned to it.
#[derive(Clone, Copy, Debug, Hash, PartialEq, Eq, Structural)]
pub struct MappedWindow<T> {
    pub id: T,
    pub vp: Viewport,
}

/// The single-window layout can be computed without arithmetic overflow or
/// inverted rectangles: the padded origin stays in range and the padding
/// fits twice into either extent.
pub open spec fn stack_fits(pad: u32, vp: Viewport) -> bool {
    &&& vp.x + pad <= u32::MAX
    &&& vp.y + pad <= u32::MAX
    &&& 2 * pad <= vp.width
    &&& 2 * pad <= vp.height
}

/// What the single-window layout emits: one placement for the focused
/// window, the full viewport inset by the padding on all sides, and nothing
/// when there is no focused window.
pub open spec fn stack_layout_spec<T>(
    pad: u32,
    vp: Viewport,
    elems: Seq<T>,
    focus: int,
) -> Seq<MappedWindow<T>> {
    if 0 <= focus < elems.len() {
        seq![
            MappedWindow {
                id: elems[focus],
                vp: Viewport {
                    x: (vp.x + pad) as u32,
                    y: (vp.y + pad) as u32,
                    width: (vp.width - 2 * pad) as u32,
                    height: (vp.height - 2 * pad) as u32,
                },
            },
        ]
    } else {
        Seq::empty()
    }
}

/// The width of one column when the viewport is split into `n` equal
/// columns, each preceded by the padding and the whole followed by one more
/// padding.
pub open spec fn tiled_tile_width(pad: u32, vp: Viewport, n: int) -> int {
    (vp.width - pad) / n - pad
}

/// The equal-column layout on `n` windows can be computed without overflow:
/// the viewport extents fit, the count fits the arithmetic width, and one
/// column is at least as wide as the padding.
pub open spec fn tiled_fits(pad: u32, vp: Viewport, n: int) -> bool {
    &&& vp.x + vp.width <= u32::MAX
    &&& vp.y + vp.height <= u32::MAX
    &&& n <= u32::MAX
    &&& pad <= vp.width
    &&& 2 * pad <= vp.height
    &&& n > 0 ==> pad <= (vp.width - pad) / n
}

/// What the equal-column layout emits: one equally wide column per window in
/// stack order, all sharing the padded height.
pub open spec fn tiled_layout_spec<T>(pad: u32, vp: Viewport, elems: Seq<T>) -> Seq<
    MappedWindow<T>,
> {
    let n = elems.len() as int;
    if n == 0 {
        Seq::empty()
    } else {
        let tw = tiled_tile_width(pad, vp, n);
        Seq::new(
            n as nat,
            |i: int|
                MappedWindow {
                    id: elems[i],
                    vp: Viewport {
                        x: (vp.x + pad + i * (tw + pad)) as u32,
                        y: (vp.y + pad) as u32,
                        width: tw as u32,
                        height: (vp.height - 2 * pad) as u32,
                    },
                },
        )
    }
}

/// The number of windows in the fullest column of the three-column layout on
/// `n` windows (meaningful for `n >= 3`): when `n` leaves remainder two the
/// first two columns grow by one, otherwise the middle column absorbs the
/// whole remainder.
pub open spec fn three_max_col(n: int) -> int {
    if n % 3 == 2 {
        n / 3 + 1
    } else {
        n / 3 + n % 3
    }
}

/// The three column sizes of the three-column layout on `n` windows, in
/// left-to-right order (meaningful for `n >= 3`).
pub open spec fn three_col_sizes(n: int) -> (int, int, int) {
    let w = n / 3;
    let rem = n % 3;
    if rem == 2 {
        (w + 1, w + 1, w)
    } else {
        (w, w + rem, w)
    }
}

/// The height of one window in a three-column column holding `m` windows:
/// the viewport height minus the paddings between rows, split evenly.
pub open spec fn three_tile_height(pad: u32, vp: Viewport, m: int) -> int {
    (vp.height - pad * (m - 1)) / m
}

/// The three-column layout on `n` windows can be computed without overflow:
/// the viewport extents fit; with two windows the padding fits the width;
/// with three or more the two inner paddings fit the width and the row
/// paddings of the fullest column fit the height.
pub open spec fn three_fits(pad: u32, vp: Viewport, n: int) -> bool {
    &&& vp.x + vp.width <= u32::MAX
    &&& vp.y + vp.height <= u32::MAX
    &&& n <= u32::MAX
    &&& n == 2 ==> pad <= vp.width
    &&& n >= 3 ==> 2 * pad <= vp.width && vp.height + pad <= u32::MAX && pad * (three_max_col(n)
        - 1) <= vp.height
}

/// One column of the three-column layout: the `m` windows starting at
/// `start`, stacked top to bottom in column `c`, every tile `tw` wide.
pub open spec fn three_col_seq<T>(
    pad: u32,
    vp: Viewport,
    elems: Seq<T>,
    start: int,
    m: int,
    c: int,
    tw: int,
) -> Seq<MappedWindow<T>> {
    let th = three_tile_height(pad, vp, m);
    Seq::new(
        m as nat,
        |r: int|
            MappedWindow {
                id: elems[start + r],
                vp: Viewport {
                    x: (vp.x + c * (tw + pad)) as u32,
                    y: (vp.y + r * (th + pad)) as u32,
                    width: tw as u32,
                    height: th as u32,
                },
            },
    )
}

/// What the three-column layout emits. No windows give no placements; a
/// single window takes the whole viewport; two windows split the width
/// roughly one to two; three or more are divided over three columns whose
/// sizes differ by at most one, the order of the stack read down the columns
/// from left to right.
pub open spec fn three_layout_spec<T>(pad: u32, vp: Viewport, elems: Seq<T>) -> Seq<
    MappedWindow<T>,
> {
    let n = elems.len() as int;
    if n == 0 {
        Seq::empty()
    } else if n == 1 {
        seq![MappedWindow { id: elems[0], vp }]
    } else if n == 2 {
        let lw = (vp.width - pad) / 3;
        let rw = 2 * lw + (vp.width - pad) % 3;
        seq![
            MappedWindow {
                id: elems[0],
                vp: Viewport { x: vp.x, y: vp.y, width: lw as u32, height: vp.height },
            },
            MappedWindow {
                id: elems[1],
                vp: Viewport {
                    x: (vp.x + pad + lw) as u32,
                    y: vp.y,
                    width: rw as u32,
                    height: vp.height,
                },
            },
        ]
    } else {
        let tw = (vp.width - 2 * pad) / 3;
        let (m0, m1, m2) = three_col_sizes(n);
        three_col_seq(pad, vp, elems, 0, m0, 0, tw) + three_col_seq(
            pad,
            vp,
            elems,
            m0,
            m1,
            1,
            tw,
        ) + three_col_seq(pad, vp, elems, m0 + m1, m2, 2, tw)
    }
}

/// The single-window layout: the focused window fills the viewport, inset by
/// a fixed padding; unfocused windows are hidden by being absent.
#[derive(Clone, Debug)]
pub struct StackLayout {
    name: String,
    padding: u32,
}

impl StackLayout {
    /// The layout's name, used to select it from configuration.
    pub closed spec fn name_spec(&self) -> Seq<char> {
        self.name@
    }

    /// The fixed padding.
    pub closed spec fn padding_spec(&self) -> u32 {
        self.padding
    }

    pub fn new(name: String, padding: u32) -> (r: StackLayout)
        ensures
            r.name_spec() == name@,
            r.padding_spec() == padding,
    {
        StackLayout { name, padding }
    }

    pub fn name(&self) -> (r: &String)
        ensures
            r@ == self.name_spec(),
    {
        &self.name
    }

    /// Emits one placement for the focused window only, or nothing when the
    /// stack is empty.
    pub fn layout<T: Copy>(&self, viewport: &Viewport, stack: &Stack<T>) -> (r: Vec<
        MappedWindow<T>,
    >)
        requires
            stack_fits(self.padding_spec(), *viewport),
        ensures
            r@ == stack_layout_spec(self.padding_spec(), *viewport, stack@, stack.focus()),
    {
        match stack.focused() {
            Some(id) => {
                let vp = Viewport {
                    x: viewport.x + self.padding,
                    y: viewport.y + self.padding,
                    width: viewport.width - self.padding * 2,
                    height: viewport.height - self.padding * 2,
                };
                let mut r: Vec<MappedWindow<T>> = Vec::new();
                r.push(MappedWindow { id: *id, vp });
                proof {
                    assert(r@ =~= stack_layout_spec(
                        self.padding_spec(),
                        *viewport,
                        stack@,
                        stack.focus(),
                    ));
                }
                r
            }
            None => {
                let r: Vec<MappedWindow<T>> = Vec::new();
                proof {
                    assert(r@ =~= stack_layout_spec(
                        self.padding_spec(),
                        *viewport,
                        stack@,
                        stack.focus(),
                    ));
                }
                r
            }
        }
    }
}

/// The equal-column layout: the viewport width is divided into as many equal
/// columns as there are windows, each inset by a fixed padding.
#[derive(Clone, Debug)]
pub struct TiledLayout {
    name: String,
    padding: u32,
}

impl TiledLayout {
    /// The layout's name, used to select it from configuration.
    pub closed spec fn name_spec(&self) -> Seq<char> {
        self.name@
    }

    /// The fixed padding.
    pub closed spec fn padding_spec(&self) -> u32 {
        self.padding
    }

    pub fn new(name: String, padding: u32) -> (r: TiledLayout)
        ensures
            r.name_spec() == name@,
            r.padding_spec() == padding,
    {
        TiledLayout { name, padding }
    }

    pub fn name(&self) -> (r: &String)
        ensures
            r@ == self.name_spec(),
    {
        &self.name
    }

    /// Emits one equally wide column per window, in stack order from left to
    /// right, all sharing the full padded height.
    pub fn layout<T: Copy>(&self, viewport: &Viewport, stack: &Stack<T>) -> (r: Vec<
        MappedWindow<T>,
    >)
        requires
            tiled_fits(self.padding_spec(), *viewport, stack@.len() as int),
        ensures
            r@ == tiled_layout_spec(self.padding_spec(), *viewport, stack@),
    {
        let n = stack.len();
        let mut r: Vec<MappedWindow<T>> = Vec::new();
        if n == 0 {
            proof {
                assert(r@ =~= tiled_layout_spec(self.padding_spec(), *viewport, stack@));
            }
            return r;
        }
        let ghost gn = n as int;
        let tile_width = (viewport.width - self.padding) / (n as u32) - self.padding;
        proof {
            lemma_fundamental_div_mod(viewport.width - self.padding, gn);
            lemma_mod_bound(viewport.width - self.padding, gn);
            assert(tile_width == tiled_tile_width(self.padding_spec(), *viewport, gn));
        }
        let elems = stack.iter();
        let mut i: usize = 0;
        while i < n
            invariant
                i <= n,
                n == stack@.len(),
                elems@ == stack@,
                tiled_fits(self.padding_spec(), *viewport, n as int),
                tile_width == tiled_tile_width(self.padding_spec(), *viewport, n as int),
                r@.len() == i,
                forall|j: int|
                    0 <= j < i ==> r@[j] == tiled_layout_spec(
                        self.padding_spec(),
                        *viewport,
                        stack@,
                    )[j],
            decreases n - i,
        {
            proof {
                let q = (viewport.width - self.padding_spec()) / (n as int);
                lemma_fundamental_div_mod(viewport.width - self.padding, n as int);
                lemma_mod_bound(viewport.width - self.padding, n as int);
                lemma_mul_inequality(i as int, n as int, q);
                assert(tile_width + self.padding_spec() == q);
            }
            let x = viewport.x + self.padding + (i as u32) * (tile_width + self.padding);
            let vp = Viewport {
                x,
                y: viewport.y + self.padding,
                width: tile_width,
                height: viewport.height - self.padding * 2,
            };
            r.push(MappedWindow { id: elems[i], vp });
            i = i + 1;
        }
        proof {
            assert(r@ =~= tiled_layout_spec(self.padding_spec(), *viewport, stack@));
        }
        r
    }
}

/// The three-column layout: windows are divided over three columns whose
/// sizes are as equal as possible and stacked top to bottom within each
/// column; one or two windows get simpler full-height arrangements.
#[derive(Clone, Debug)]
pub struct ThreeColumn {
    name: String,
    inner_padding: u32,
}

impl ThreeColumn {
    /// The layout's name, used to select it from configuration.
    pub closed spec fn name_spec(&self) -> Seq<char> {
        self.name@
    }

    /// The fixed padding between columns and rows.
    pub closed spec fn padding_spec(&self) -> u32 {
        self.inner_padding
    }

    pub fn new(name: String, inner_padding: u32) -> (r: ThreeColumn)
        ensures
            r.name_spec() == name@,
            r.padding_spec() == inner_padding,
    {
        ThreeColumn { name, inner_padding }
    }

    pub fn name(&self) -> (r: &String)
        ensures
            r@ == self.name_spec(),
    {
        &self.name
    }

    /// Emits the three-column arrangement of the stack over the viewport.
    pub fn layout<T: Copy>(&self, viewport: &Viewport, stack: &Stack<T>) -> (r: Vec<
        MappedWindow<T>,
    >)
        requires
            three_fits(self.padding_spec(), *viewport, stack@.len() as int),
        ensures
            r@ == three_layout_spec(self.padding_spec(), *viewport, stack@),
    {
        let n = stack.len();
        let elems = stack.iter();
        let mut r: Vec<MappedWindow<T>> = Vec::new();
        if n == 0 {
            proof {
                assert(r@ =~= three_layout_spec(self.padding_spec(), *viewport, stack@));
            }
            return r;
        }
        if n == 1 {
            r.push(MappedWindow { id: elems[0], vp: *viewport });
            proof {
                assert(r@ =~= three_layout_spec(self.padding_spec(), *viewport, stack@));
            }
            return r;
        }
        if n == 2 {
            proof {
                lemma_fundamental_div_mod(viewport.width - self.inner_padding, 3);
                lemma_mod_bound(viewport.width - self.inner_padding, 3);
            }
            let left_width = (viewport.width - self.inner_padding) / 3;
            let right_width = 2 * left_width + (viewport.width - self.inner_padding) % 3;
            r.push(
                MappedWindow {
                    id: elems[0],
                    vp: Viewport {
                        x: viewport.x,
                        y: viewport.y,
                        width: left_width,
                        height: viewport.height,
                    },
                },
            );
            r.push(
                MappedWindow {
                    id: elems[1],
                    vp: Viewport {
                        x: viewport.x + self.inner_padding + left_width,
                        y: viewport.y,
                        width: right_width,
                        height: viewport.height,
                    },
                },
            );
            proof {
                assert(r@ =~= three_layout_spec(self.padding_spec(), *viewport, stack@));
            }
            return r;
        }
        proof {
            lemma_fundamental_div_mod(viewport.width - 2 * self.inner_padding, 3);
            lemma_mod_bound(viewport.width - 2 * self.inner_padding, 3);
            lemma_fundamental_div_mod(n as int, 3);
            lemma_mod_bound(n as int, 3);
        }
        let tile_width = (viewport.width - self.inner_padding * 2) / 3;
        let win_per_col = n / 3;
        let leftovers = n - 3 * win_per_col;
        let (m0, m1): (usize, usize) = if leftovers == 2 {
            (win_per_col + 1, win_per_col + 1)
        } else {
            (win_per_col, win_per_col + leftovers)
        };
        let m2 = win_per_col;
        proof {
            let pad = self.padding_spec() as int;
            let mmax = three_max_col(n as int);
            lemma_mul_inequality(m0 - 1, mmax - 1, pad);
            lemma_mul_inequality(m1 - 1, mmax - 1, pad);
            lemma_mul_inequality(m2 - 1, mmax - 1, pad);
            lemma_mul_is_commutative(m0 - 1, pad);
            lemma_mul_is_commutative(m1 - 1, pad);
            lemma_mul_is_commutative(m2 - 1, pad);
            lemma_mul_is_commutative(mmax - 1, pad);
        }
        self.fill_column(&mut r, elems, 0, m0, 0, tile_width, viewport);
        self.fill_column(&mut r, elems, m0, m1, 1, tile_width, viewport);
        self.fill_column(&mut r, elems, m0 + m1, m2, 2, tile_width, viewport);
        proof {
            assert(r@ =~= three_layout_spec(self.padding_spec(), *viewport, stack@));
        }
        r
    }

    /// Appends the placements of one column: `m` windows starting at
    /// `start`, stacked top to bottom in column `c`.
    fn fill_column<T: Copy>(
        &self,
        r: &mut Vec<MappedWindow<T>>,
        elems: &Vec<T>,
        start: usize,
        m: usize,
        c: u32,
        tile_width: u32,
        viewport: &Viewport,
    )
        requires
            start + m <= elems@.len(),
            1 <= m <= u32::MAX,
            c <= 2,
            viewport.x + viewport.width <= u32::MAX,
            viewport.y + viewport.height <= u32::MAX,
            viewport.height + self.padding_spec() <= u32::MAX,
            3 * tile_width + 2 * self.padding_spec() <= viewport.width,
            self.padding_spec() * (m - 1) <= viewport.height,
        ensures
            final(r)@ == old(r)@ + three_col_seq(
                self.padding_spec(),
                *viewport,
                elems@,
                start as int,
                m as int,
                c as int,
                tile_width as int,
            ),
    {
        proof {
            lemma_mul_inequality(c as int, 2, tile_width + self.padding_spec());
            lemma_fundamental_div_mod(
                viewport.height - self.padding_spec() * (m - 1),
                m as int,
            );
            lemma_mod_bound(viewport.height - self.padding_spec() * (m - 1), m as int);
        }
        let total = elems.len();
        let x = viewport.x + c * (tile_width + self.inner_padding);
        let pad_total = self.inner_padding * ((m - 1) as u32);
        let tile_height = (viewport.height - pad_total) / (m as u32);
        let ghost colspec = three_col_seq(
            self.padding_spec(),
            *viewport,
            elems@,
            start as int,
            m as int,
            c as int,
            tile_width as int,
        );
        let mut row: usize = 0;
        while row < m
            invariant
                row <= m,
                start + m <= elems@.len(),
                total == elems@.len(),
                1 <= m <= u32::MAX,
                viewport.y + viewport.height <= u32::MAX,
                viewport.height + self.padding_spec() <= u32::MAX,
                self.padding_spec() * (m - 1) <= viewport.height,
                x == viewport.x + c * (tile_width + self.padding_spec()),
                x + tile_width <= viewport.x + viewport.width,
                tile_height == three_tile_height(self.padding_spec(), *viewport, m as int),
                colspec == three_col_seq(
                    self.padding_spec(),
                    *viewport,
                    elems@,
                    start as int,
                    m as int,
                    c as int,
                    tile_width as int,
                ),
                r@.len() == old(r)@.len() + row,
                r@ == old(r)@ + colspec.take(row as int),
            decreases m - row,
        {
            proof {
                let pad = self.padding_spec() as int;
                let th = three_tile_height(self.padding_spec(), *viewport, m as int);
                let step = th + pad;
                lemma_fundamental_div_mod(viewport.height - pad * (m - 1), m as int);
                lemma_mod_bound(viewport.height - pad * (m - 1), m as int);
                lemma_mul_inequality(row as int, m - 1, step);
                lemma_mul_is_distributive_add_other_way(step, m - 1, 1);
                lemma_mul_is_distributive_add(m as int, th, pad);
                lemma_mul_is_distributive_sub(pad, m as int, 1);
                lemma_mul_is_commutative(m as int, pad);
                assert(row * step <= viewport.height - th);
            }
            let y = viewport.y + (row as u32) * (tile_height + self.inner_padding);
            r.push(
                MappedWindow {
                    id: elems[start + row],
                    vp: Viewport { x, y, width: tile_width, height: tile_height },
                },
            );
            proof {
                assert(r@ =~= old(r)@ + colspec.take(row + 1));
            }
            row = row + 1;
        }
        proof {
            assert(colspec.take(m as int) =~= colspec);
        }
    }
}

/// The closed set of layout variants, dispatched by a match; the orchestrator
/// keeps an ordered list of these.
#[derive(Clone, Debug)]
pub enum LayoutChoice {
    Stack(StackLayout),
    Tiled(TiledLayout),
    ThreeColumn(ThreeColumn),
}

impl LayoutChoice {
    /// The variant's name.
    pub open spec fn name_spec(&self) -> Seq<char> {
        match self {
            LayoutChoice::Stack(l) => l.name_spec(),
            LayoutChoice::Tiled(l) => l.name_spec(),
            LayoutChoice::ThreeColumn(l) => l.name_spec(),
        }
    }

    /// Whether the variant's arithmetic fits the viewport for `n` windows.
    pub open spec fn fits_spec(&self, vp: Viewport, n: int) -> bool {
        match self {
            LayoutChoice::Stack(l) => stack_fits(l.padding_spec(), vp),
            LayoutChoice::Tiled(l) => tiled_fits(l.padding_spec(), vp, n),
            LayoutChoice::ThreeColumn(l) => three_fits(l.padding_spec(), vp, n),
        }
    }

    /// The placements this variant computes; an unfit viewport yields none.
    pub open spec fn placements_spec<T>(
        &self,
        vp: Viewport,
        elems: Seq<T>,
        focus: int,
    ) -> Seq<MappedWindow<T>> {
        if self.fits_spec(vp, elems.len() as int) {
            match self {
                LayoutChoice::Stack(l) => stack_layout_spec(l.padding_spec(), vp, elems, focus),
                LayoutChoice::Tiled(l) => tiled_layout_spec(l.padding_spec(), vp, elems),
                LayoutChoice::ThreeColumn(l) => three_layout_spec(l.padding_spec(), vp, elems),
            }
        } else {
            Seq::empty()
        }
    }

    pub fn name(&self) -> (r: &String)
        ensures
            r@ == self.name_spec(),
    {
        match self {
            LayoutChoice::Stack(l) => l.name(),
            LayoutChoice::Tiled(l) => l.name(),
            LayoutChoice::ThreeColumn(l) => l.name(),
        }
    }

    /// Whether this variant's arithmetic fits the viewport for `n` windows.
    pub fn fits(&self, vp: &Viewport, n: usize) -> (b: bool)
        ensures
            b == self.fits_spec(*vp, n as int),
    {
        match self {
            LayoutChoice::Stack(l) => {
                vp.x <= u32::MAX - l.padding && vp.y <= u32::MAX - l.padding && 2 * (l.padding
                    as u64) <= vp.width as u64 && 2 * (l.padding as u64) <= vp.height as u64
            }
            LayoutChoice::Tiled(l) => {
                vp.x <= u32::MAX - vp.width && vp.y <= u32::MAX - vp.height && n <= u32::MAX
                    as usize && l.padding <= vp.width && 2 * (l.padding as u64) <= vp.height
                    as u64 && (n == 0 || l.padding <= (vp.width - l.padding) / (n as u32))
            }
            LayoutChoice::ThreeColumn(l) => {
                vp.x <= u32::MAX - vp.width && vp.y <= u32::MAX - vp.height && n <= u32::MAX
                    as usize && (n != 2 || l.inner_padding <= vp.width) && (n < 3 || (2
                    * (l.inner_padding as u64) <= vp.width as u64 && vp.height as u64
                    + l.inner_padding as u64 <= u32::MAX as u64 && self_three_rows_fit(
                    l.inner_padding,
                    vp,
                    n,
                )))
            }
        }
    }

    /// Computes the placements; an unfit viewport yields none rather than
    /// overflowing.
    pub fn layout<T: Copy>(&self, viewport: &Viewport, stack: &Stack<T>) -> (r: Vec<
        MappedWindow<T>,
    >)
        ensures
            r@ == self.placements_spec(*viewport, stack@, stack.focus()),
    {
        if !self.fits(viewport, stack.len()) {
            let r: Vec<MappedWindow<T>> = Vec::new();
            proof {
                assert(r@ =~= self.placements_spec(*viewport, stack@, stack.focus()));
            }
            return r;
        }
        match self {
            LayoutChoice::Stack(l) => l.layout(viewport, stack),
            LayoutChoice::Tiled(l) => l.layout(viewport, stack),
            LayoutChoice::ThreeColumn(l) => l.layout(viewport, stack),
        }
    }
}

/// Whether the row paddings of the fullest column fit the viewport height,
/// for three or more windows.
fn self_three_rows_fit(pad: u32, vp: &Viewport, n: usize) -> (b: bool)
    requires
        n >= 3,
        n <= u32::MAX,
    ensures
        b == (pad * (three_max_col(n as int) - 1) <= vp.height),
{
    let w = n / 3;
    let rem = n - 3 * w;
    proof {
        lemma_fundamental_div_mod(n as int, 3);
        lemma_mod_bound(n as int, 3);
    }
    let mmax = if rem == 2 {
        w + 1
    } else {
        w + rem
    };
    proof {
        lemma_mul_upper_bound(pad as int, u32::MAX as int, mmax - 1, u32::MAX as int);
    }
    (pad as u64) * ((mmax - 1) as u64) <= vp.height as u64
}

/// The equal-column layout emits one placement per window, all sharing one
/// height; and when the padded width divides evenly among the columns, the
/// column widths together with the paddings between and around them sum to
/// exactly the viewport width.
pub proof fn lemma_tiled_widths<T>(pad: u32, vp: Viewport, elems: Seq<T>)
    requires
        tiled_fits(pad, vp, elems.len() as int),
        elems.len() > 0,
        (vp.width - pad) % (elems.len() as int) == 0,
    ensures
        tiled_layout_spec(pad, vp, elems).len() == elems.len(),
        forall|i: int|
            0 <= i < elems.len() ==> (#[trigger] tiled_layout_spec(pad, vp, elems)[i]).vp.width
                == tiled_tile_width(pad, vp, elems.len() as int) as u32,
        forall|i: int|
            0 <= i < elems.len() ==> (#[trigger] tiled_layout_spec(pad, vp, elems)[i]).vp.height
                == (vp.height - 2 * pad) as u32,
        elems.len() * tiled_tile_width(pad, vp, elems.len() as int) + (elems.len() + 1) * pad
            == vp.width,
{
    let n = elems.len() as int;
    let q = (vp.width - pad) / n;
    let tw = tiled_tile_width(pad, vp, n);
    lemma_fundamental_div_mod(vp.width - pad, n);
    assert(n * q == vp.width - pad);
    lemma_mul_is_distributive_add(n, tw, pad as int);
    assert(n * (tw + pad) == n * tw + n * (pad as int));
    lemma_mul_is_distributive_add_other_way(pad as int, n, 1);
    lemma_mul_is_commutative(n, pad as int);
}

/// The three-column layout divides `n` windows (for `n` at least three)
/// into columns whose sizes sum to `n` and differ by at most one, the
/// remainder falling to the first two columns when it is two and to the
/// middle column otherwise.
pub proof fn lemma_three_col_sizes_sum(n: int)
    requires
        n >= 3,
    ensures
        ({
            let (m0, m1, m2) = three_col_sizes(n);
            &&& m0 + m1 + m2 == n
            &&& m0 >= 1 && m1 >= 1 && m2 >= 1
            &&& m0 <= three_max_col(n) && m1 <= three_max_col(n) && m2 <= three_max_col(n)
        }),
{
    lemma_fundamental_div_mod(n, 3);
    lemma_mod_bound(n, 3);
}

} // verus!
