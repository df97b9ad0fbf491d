use vstd::prelude::*;
use vstd::arithmetic::div_mod::{
    lemma_add_mod_noop_right,
    lemma_fundamental_div_mod_converse,
    lemma_mod_bound,
};

use crate::cell::{CellState, is_live, marked, resolved, cell_code};
use crate::push_constants::Size;

verus! {

/// `a` taken modulo `n`, in `[0, n)` for `n > 0`: coordinates wrap around.
pub open spec fn wrap(a: int, n: int) -> int {
    a % n
}

/// The index of cell `(x, y)` in a row-major buffer of width `w`.
pub open spec fn index_of(w: int, x: int, y: int) -> int {
    y * w + x
}

/// The cell at `(x, y)` of a toroidal `w` by `h` grid, both coordinates wrapped.
pub open spec fn cell_at(cells: Seq<CellState>, w: int, h: int, x: int, y: int) -> CellState {
    cells[index_of(w, wrap(x, w), wrap(y, h))]
}

/// 1 when the (wrapped) cell at `(x, y)` is alive, else 0.
pub open spec fn live_at(cells: Seq<CellState>, w: int, h: int, x: int, y: int) -> int {
    if is_live(cell_at(cells, w, h, x, y)) {
        1
    } else {
        0
    }
}

/// The number of live cells among the eight toroidal neighbours of `(x, y)`.
pub open spec fn live_neighbors(cells: Seq<CellState>, w: int, h: int, x: int, y: int) -> int {
    live_at(cells, w, h, x - 1, y - 1) + live_at(cells, w, h, x, y - 1) + live_at(
        cells,
        w,
        h,
        x + 1,
        y - 1,
    ) + live_at(cells, w, h, x - 1, y) + live_at(cells, w, h, x + 1, y) + live_at(
        cells,
        w,
        h,
        x - 1,
        y + 1,
    ) + live_at(cells, w, h, x, y + 1) + live_at(cells, w, h, x + 1, y + 1)
}

/// The resolve half-step: every pending transition settles.
pub open spec fn resolve_all(cells: Seq<CellState>) -> Seq<CellState> {
    Seq::new(cells.len(), |i: int| resolved(cells[i]))
}

/// The mark half-step: every cell takes the birth/death rule, its neighbours
/// counted on the grid as it stood before the half-step.
pub open spec fn mark_all(cells: Seq<CellState>, w: int, h: int) -> Seq<CellState> {
    Seq::new(cells.len(), |i: int| marked(cells[i], live_neighbors(cells, w, h, i % w, i / w)))
}

/// One half-step: resolve when `transition` is set, mark otherwise.
pub open spec fn half_step_model(cells: Seq<CellState>, w: int, h: int, transition: bool) -> Seq<
    CellState,
> {
    if transition {
        resolve_all(cells)
    } else {
        mark_all(cells, w, h)
    }
}

/// `k` half-steps in a row, the transition flag toggling after each.
pub open spec fn run_model(
    cells: Seq<CellState>,
    w: int,
    h: int,
    transition: bool,
    k: nat,
) -> Seq<CellState>
    decreases k,
{
    if k == 0 {
        cells
    } else {
        run_model(half_step_model(cells, w, h, transition), w, h, !transition, (k - 1) as nat)
    }
}

/// Running one more half-step after `k` of them: the flag has toggled `k`
/// times by then.
pub(crate) proof fn lemma_run_one_more(cells: Seq<CellState>, w: int, h: int, transition: bool, k: nat)
    ensures
        run_model(cells, w, h, transition, k + 1) == half_step_model(
            run_model(cells, w, h, transition, k),
            w,
            h,
            transition != (k % 2 == 1),
        ),
    decreases k,
{
    if k > 0 {
        let j = (k - 1) as nat;
        lemma_run_one_more(half_step_model(cells, w, h, transition), w, h, !transition, j);
        assert((j % 2 == 1) == (k % 2 == 0));
        assert(run_model(cells, w, h, transition, k + 1) == run_model(
            half_step_model(cells, w, h, transition),
            w,
            h,
            !transition,
            j + 1,
        ));
    } else {
        assert(run_model(cells, w, h, transition, 1) == run_model(
            half_step_model(cells, w, h, transition),
            w,
            h,
            !transition,
            0,
        ));
    }
}

/// The grid's bytes as a shader reads them: each cell a little-endian 32-bit
/// word holding its state's code.
pub open spec fn cell_bytes(cells: Seq<CellState>) -> Seq<u8> {
    Seq::new(
        4 * cells.len(),
        |k: int|
            if k % 4 == 0 {
                cell_code(cells[k / 4]) as u8
            } else {
                0u8
            },
    )
}

/// A fixed-size, row-major grid of cells. Coordinates wrap around both axes
/// when neighbourhoods are taken, so the grid has no edge.
pub struct Grid {
    pub size: Size,
    pub buffer: Vec<CellState>,
}

impl View for Grid {
    type V = Seq<CellState>;

    open spec fn view(&self) -> Seq<CellState> {
        self.buffer@
    }
}

proof fn lemma_index_in_bounds(w: int, h: int, x: int, y: int)
    requires
        0 <= x < w,
        0 <= y < h,
    ensures
        0 <= index_of(w, x, y) < w * h,
{
    assert(0 <= y * w) by (nonlinear_arith)
        requires
            0 <= y,
            0 <= w,
    ;
    assert(y * w + x < w * h) by (nonlinear_arith)
        requires
            0 <= x < w,
            0 <= y < h,
    ;
}

/// The neighbours one step either way of a coordinate in `[0, n)`: the
/// first coordinate's left neighbour is the last one, and the last
/// coordinate's right neighbour is the first.
pub proof fn lemma_wrap_step(a: int, n: int)
    requires
        0 <= a < n,
    ensures
        wrap(a, n) == a,
        wrap(a - 1, n) == if a == 0 {
            n - 1
        } else {
            a - 1
        },
        wrap(a + 1, n) == if a + 1 == n {
            0
        } else {
            a + 1
        },
{
    lemma_fundamental_div_mod_converse(a, n, 0, a);
    if a == 0 {
        lemma_fundamental_div_mod_converse(a - 1, n, -1, n - 1);
    } else {
        lemma_fundamental_div_mod_converse(a - 1, n, 0, a - 1);
    }
    if a + 1 == n {
        lemma_fundamental_div_mod_converse(a + 1, n, 1, 0);
    } else {
        lemma_fundamental_div_mod_converse(a + 1, n, 0, a + 1);
    }
}

/// `i == y * w + x` with `x < w` recovers `x` and `y` from `i`.
proof fn lemma_coords_of_index(w: int, x: int, y: int)
    requires
        0 <= x < w,
        0 <= y,
    ensures
        index_of(w, x, y) % w == x,
        index_of(w, x, y) / w == y,
{
    lemma_fundamental_div_mod_converse(index_of(w, x, y), w, y, x);
}

/// Every wrapped coordinate lands in the buffer.
proof fn lemma_cell_in_bounds(w: int, h: int, x: int, y: int)
    requires
        w > 0,
        h > 0,
    ensures
        0 <= index_of(w, wrap(x, w), wrap(y, h)) < w * h,
{
    lemma_mod_bound(x, w);
    lemma_mod_bound(y, h);
    lemma_index_in_bounds(w, h, wrap(x, w), wrap(y, h));
}

/// Two grids whose cells agree on being alive count the same live neighbours.
proof fn lemma_count_depends_on_liveness(
    a: Seq<CellState>,
    b: Seq<CellState>,
    w: int,
    h: int,
    x: int,
    y: int,
)
    requires
        w > 0,
        h > 0,
        a.len() == w * h,
        b.len() == w * h,
        forall|j: int| 0 <= j < w * h ==> is_live(#[trigger] a[j]) == is_live(b[j]),
    ensures
        live_neighbors(a, w, h, x, y) == live_neighbors(b, w, h, x, y),
{
    lemma_cell_in_bounds(w, h, x - 1, y - 1);
    lemma_cell_in_bounds(w, h, x, y - 1);
    lemma_cell_in_bounds(w, h, x + 1, y - 1);
    lemma_cell_in_bounds(w, h, x - 1, y);
    lemma_cell_in_bounds(w, h, x + 1, y);
    lemma_cell_in_bounds(w, h, x - 1, y + 1);
    lemma_cell_in_bounds(w, h, x, y + 1);
    lemma_cell_in_bounds(w, h, x + 1, y + 1);
}

/// The grid rotated by `(a, b)`: the cell at `(x, y)` moves to `(x + a, y + b)`,
/// wrapping around both axes.
pub open spec fn rotated(cells: Seq<CellState>, w: int, h: int, a: int, b: int) -> Seq<CellState> {
    Seq::new(cells.len(), |i: int| cell_at(cells, w, h, i % w - a, i / w - b))
}

proof fn lemma_rotated_live_at(
    cells: Seq<CellState>,
    w: int,
    h: int,
    a: int,
    b: int,
    x: int,
    y: int,
)
    requires
        w > 0,
        h > 0,
        cells.len() == w * h,
    ensures
        live_at(rotated(cells, w, h, a, b), w, h, x + a, y + b) == live_at(cells, w, h, x, y),
{
    let px = wrap(x + a, w);
    let py = wrap(y + b, h);
    lemma_cell_in_bounds(w, h, x + a, y + b);
    lemma_mod_bound(x + a, w);
    lemma_mod_bound(y + b, h);
    lemma_coords_of_index(w, px, py);
    lemma_add_mod_noop_right(-a, x + a, w);
    lemma_add_mod_noop_right(-b, y + b, h);
    assert(-a + px == px - a);
    assert(-a + (x + a) == x);
    assert(-b + py == py - b);
    assert(-b + (y + b) == y);
}

/// The grid has no edge: rotating it by any offset and counting the live
/// neighbours of the rotated cell gives the count of the unrotated cell, so a
/// cell on a border sees the opposite border as adjacent.
pub proof fn lemma_toroidal_neighbors(
    cells: Seq<CellState>,
    w: int,
    h: int,
    a: int,
    b: int,
    x: int,
    y: int,
)
    requires
        w > 0,
        h > 0,
        cells.len() == w * h,
    ensures
        live_neighbors(rotated(cells, w, h, a, b), w, h, x + a, y + b) == live_neighbors(
            cells,
            w,
            h,
            x,
            y,
        ),
{
    lemma_rotated_live_at(cells, w, h, a, b, x - 1, y - 1);
    lemma_rotated_live_at(cells, w, h, a, b, x, y - 1);
    lemma_rotated_live_at(cells, w, h, a, b, x + 1, y - 1);
    lemma_rotated_live_at(cells, w, h, a, b, x - 1, y);
    lemma_rotated_live_at(cells, w, h, a, b, x + 1, y);
    lemma_rotated_live_at(cells, w, h, a, b, x - 1, y + 1);
    lemma_rotated_live_at(cells, w, h, a, b, x, y + 1);
    lemma_rotated_live_at(cells, w, h, a, b, x + 1, y + 1);
    assert(x + a - 1 == (x - 1) + a);
    assert(x + a + 1 == (x + 1) + a);
    assert(y + b - 1 == (y - 1) + b);
    assert(y + b + 1 == (y + 1) + b);
}

/// A transient cell lives exactly one step: a `Spawning` cell stays
/// `Spawning` through a mark half-step and becomes `On` at the next resolve
/// half-step; a `Dying` cell likewise becomes `Off`. A cell becomes transient
/// only by the rule, from `Off` or `On`, and a resolve half-step leaves no
/// transient cell behind.
pub proof fn lemma_transient_round_trip(cells: Seq<CellState>, w: int, h: int, i: int)
    requires
        0 <= i < cells.len(),
    ensures
        cells[i] == CellState::Spawning ==> resolve_all(cells)[i] == CellState::On
            && mark_all(cells, w, h)[i] == CellState::Spawning,
        cells[i] == CellState::Dying ==> resolve_all(cells)[i] == CellState::Off
            && mark_all(cells, w, h)[i] == CellState::Dying,
        mark_all(cells, w, h)[i] == CellState::Spawning ==> cells[i] == CellState::Off
            || cells[i] == CellState::Spawning,
        mark_all(cells, w, h)[i] == CellState::Dying ==> cells[i] == CellState::On
            || cells[i] == CellState::Dying,
        resolve_all(cells)[i] != CellState::Spawning && resolve_all(cells)[i] != CellState::Dying,
{
}

impl Grid {
    /// The buffer holds exactly one cell per coordinate.
    pub open spec fn wf(&self) -> bool {
        self.buffer@.len() == self.size.width * self.size.height
    }

    pub open spec fn width(&self) -> int {
        self.size.width as int
    }

    pub open spec fn height(&self) -> int {
        self.size.height as int
    }

    /// A grid of the given size with every cell `Off`.
    pub fn new(size: Size) -> (r: Grid)
        requires
            size.width * size.height <= usize::MAX,
        ensures
            r.wf(),
            r.size == size,
            r@ == Seq::new((size.width * size.height) as nat, |i: int| CellState::Off),
    {
        let n: usize = (size.width as usize) * (size.height as usize);
        let mut buffer: Vec<CellState> = Vec::with_capacity(n);
        let mut i: usize = 0;
        while i < n
            invariant
                i <= n,
                n == size.width * size.height,
                buffer@ == Seq::new(i as nat, |k: int| CellState::Off),
            decreases n - i,
        {
            buffer.push(CellState::Off);
            i = i + 1;
        }
        Grid { size, buffer }
    }

    /// The buffer index of `(x, y)`.
    fn index(&self, x: u32, y: u32) -> (r: usize)
        requires
            self.wf(),
            x < self.size.width,
            y < self.size.height,
        ensures
            r == index_of(self.width(), x as int, y as int),
            r < self@.len(),
    {
        proof {
            // The buffer's length is a `usize`, so every index below it is one.
            assert(self.buffer.len() == self@.len());
            lemma_index_in_bounds(self.width(), self.height(), x as int, y as int);
            assert(y * self.width() <= index_of(self.width(), x as int, y as int));
        }
        y as usize * self.size.width as usize + x as usize
    }

    /// The cell at `(x, y)`.
    pub fn get(&self, x: u32, y: u32) -> (r: CellState)
        requires
            self.wf(),
            x < self.size.width,
            y < self.size.height,
        ensures
            r == self@[index_of(self.width(), x as int, y as int)],
    {
        let i = self.index(x, y);
        self.buffer[i]
    }

    /// Writes `value` at `(x, y)`.
    pub fn set(&mut self, x: u32, y: u32, value: CellState)
        requires
            old(self).wf(),
            x < old(self).size.width,
            y < old(self).size.height,
        ensures
            final(self).wf(),
            final(self).size == old(self).size,
            final(self)@ == old(self)@.update(index_of(old(self).width(), x as int, y as int), value),
    {
        let i = self.index(x, y);
        self.buffer.set(i, value);
    }

    /// Exchanges the cells at `a` and `b`.
    pub fn swap(&mut self, ax: u32, ay: u32, bx: u32, by: u32)
        requires
            old(self).wf(),
            ax < old(self).size.width,
            ay < old(self).size.height,
            bx < old(self).size.width,
            by < old(self).size.height,
        ensures
            final(self).wf(),
            final(self).size == old(self).size,
            final(self)@ == old(self)@.update(
                index_of(old(self).width(), ax as int, ay as int),
                old(self)@[index_of(old(self).width(), bx as int, by as int)],
            ).update(
                index_of(old(self).width(), bx as int, by as int),
                old(self)@[index_of(old(self).width(), ax as int, ay as int)],
            ),
    {
        let tmp = self.get(ax, ay);
        let other = self.get(bx, by);
        self.set(ax, ay, other);
        self.set(bx, by, tmp);
    }
    /// 1 when the cell at `(cx, cy)`, which the coordinates `(sx, sy)` wrap to,
    /// is alive.
    fn live_value(&self, cx: u32, cy: u32, sx: Ghost<int>, sy: Ghost<int>) -> (r: u8)
        requires
            self.wf(),
            cx < self.size.width,
            cy < self.size.height,
            wrap(sx@, self.width()) == cx,
            wrap(sy@, self.height()) == cy,
        ensures
            r == live_at(self@, self.width(), self.height(), sx@, sy@),
            r <= 1,
    {
        if self.get(cx, cy).is_live() {
            1
        } else {
            0
        }
    }

    /// The number of live cells among the eight neighbours of `(x, y)`,
    /// the grid wrapping around at its edges.
    pub fn live_neighbor_count(&self, x: u32, y: u32) -> (r: u8)
        requires
            self.wf(),
            x < self.size.width,
            y < self.size.height,
        ensures
            r == live_neighbors(self@, self.width(), self.height(), x as int, y as int),
    {
        let w = self.size.width;
        let h = self.size.height;
        let xm = if x == 0 { w - 1 } else { x - 1 };
        let xp = if x + 1 == w { 0 } else { x + 1 };
        let ym = if y == 0 { h - 1 } else { y - 1 };
        let yp = if y + 1 == h { 0 } else { y + 1 };
        proof {
            lemma_wrap_step(x as int, w as int);
            lemma_wrap_step(y as int, h as int);
        }
        let a = self.live_value(xm, ym, Ghost(x - 1), Ghost(y - 1));
        let b = self.live_value(x, ym, Ghost(x as int), Ghost(y - 1));
        let c = self.live_value(xp, ym, Ghost(x + 1), Ghost(y - 1));
        let d = self.live_value(xm, y, Ghost(x - 1), Ghost(y as int));
        let e = self.live_value(xp, y, Ghost(x + 1), Ghost(y as int));
        let f = self.live_value(xm, yp, Ghost(x - 1), Ghost(y + 1));
        let g = self.live_value(x, yp, Ghost(x as int), Ghost(y + 1));
        let k = self.live_value(xp, yp, Ghost(x + 1), Ghost(y + 1));
        a + b + c + d + e + f + g + k
    }

    /// One half-step of the automaton: with `transition` set every pending
    /// `Dying` or `Spawning` cell settles; otherwise every cell takes the
    /// birth/death rule, its neighbours counted on the grid as it stood
    /// before the half-step.
    pub fn half_step(&mut self, transition: bool)
        requires
            old(self).wf(),
        ensures
            final(self).wf(),
            final(self).size == old(self).size,
            final(self)@ == half_step_model(old(self)@, old(self).width(), old(self).height(), transition),
    {
        let ghost before = self@;
        let n = self.buffer.len();
        if transition {
            let mut i: usize = 0;
            while i < n
                invariant
                    i <= n,
                    n == self@.len(),
                    n == before.len(),
                    self.size == old(self).size,
                    forall|j: int| 0 <= j < i ==> self@[j] == resolved(before[j]),
                    forall|j: int| i <= j < n ==> self@[j] == before[j],
                decreases n - i,
            {
                let c = self.buffer[i].resolve();
                self.buffer.set(i, c);
                i = i + 1;
            }
            assert(self@ =~= resolve_all(before));
        } else {
            let w = self.size.width;
            let ghost wi = w as int;
            let ghost hi = self.size.height as int;
            let mut x: u32 = 0;
            let mut y: u32 = 0;
            let mut i: usize = 0;
            proof {
                if n > 0 {
                    assert(wi > 0 && hi > 0) by (nonlinear_arith)
                        requires
                            n == wi * hi,
                            n > 0,
                            wi >= 0,
                            hi >= 0,
                    ;
                }
            }
            while i < n
                invariant
                    n == self@.len(),
                    n == before.len(),
                    n == wi * hi,
                    wi == w,
                    self.size == old(self).size,
                    wi == self.width(),
                    hi == self.height(),
                    i <= n,
                    i == index_of(wi, x as int, y as int),
                    i < n ==> x < w && y < hi,
                    forall|j: int| 0 <= j < n ==> is_live(#[trigger] self@[j]) == is_live(before[j]),
                    forall|j: int| 0 <= j < i ==> self@[j] == mark_all(before, wi, hi)[j],
                    forall|j: int| i <= j < n ==> self@[j] == before[j],
                decreases n - i,
            {
                let count = self.live_neighbor_count(x, y);
                proof {
                    lemma_count_depends_on_liveness(self@, before, wi, hi, x as int, y as int);
                    lemma_coords_of_index(wi, x as int, y as int);
                }
                let c = self.buffer[i].mark(count);
                self.buffer.set(i, c);
                i = i + 1;
                if x + 1 == w {
                    proof {
                        let yi = y as int;
                        assert(i == index_of(wi, 0, yi + 1)) by (nonlinear_arith)
                            requires
                                i == yi * wi + (wi - 1) + 1,
                        ;
                        assert(i < n ==> yi + 1 < hi) by (nonlinear_arith)
                            requires
                                i == (yi + 1) * wi,
                                n == wi * hi,
                                wi > 0,
                        ;
                    }
                    x = 0;
                    y = y + 1;
                } else {
                    x = x + 1;
                }
            }
            assert(self@ =~= mark_all(before, wi, hi));
        }
    }
    /// The grid's contents as bytes for a storage buffer: four per cell.
    pub fn to_bytes(&self) -> (r: Vec<u8>)
        requires
            4 * self@.len() <= usize::MAX,
        ensures
            r@ == cell_bytes(self@),
    {
        let n = self.buffer.len();
        let mut out: Vec<u8> = Vec::with_capacity(4 * n);
        let mut i: usize = 0;
        while i < n
            invariant
                i <= n,
                n == self@.len(),
                4 * n <= usize::MAX,
                out@ == cell_bytes(self@.take(i as int)),
            decreases n - i,
        {
            let code = self.buffer[i].code();
            out.push(code as u8);
            out.push(0);
            out.push(0);
            out.push(0);
            proof {
                assert(out@ =~= cell_bytes(self@.take(i + 1)));
            }
            i = i + 1;
        }
        assert(self@.take(n as int) =~= self@);
        out
    }
}

} // verus!
