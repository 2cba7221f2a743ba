//! The board: a fixed-size toroidal grid of boolean cells, stored row-major,
//! with wrapped coordinate access and the neighbor count and transition rule
//! of Conway's Game of Life.

use vstd::arithmetic::div_mod::{
    lemma_fundamental_div_mod, lemma_fundamental_div_mod_converse,
    lemma_fundamental_div_mod_converse_mod, lemma_mod_add_multiples_vanish,
    lemma_mod_division_less_than_divisor, lemma_mod_self_0, lemma_mod_twice,
    lemma_add_mod_noop,
};
use vstd::arithmetic::mul::lemma_mul_inequality;
use vstd::pervasive::VecAdditionalExecFns;
use vstd::prelude::*;

verus! {

/// Errors raised when constructing a board or simulation.
#[derive(Debug, Clone, Copy, PartialEq, Eq, Structural)]
pub enum LifeError {
    /// A dimension of zero was supplied.
    InvalidDimension,
}

/// Mathematical model of a board: dimensions and a row-major sequence of
/// cell states, `cells[y * width + x]` being the cell at column `x`, row `y`.
#[verifier::ext_equal]
pub struct GridModel {
    pub width: int,
    pub height: int,
    pub cells: Seq<bool>,
}

/// Toroidal wrap of coordinate `c` into `[0, d)`, correct for negative `c`.
pub open spec fn wrap(c: int, d: int) -> int {
    ((c % d) + d) % d
}

/// 1 for a live cell, 0 for a dead one.
pub open spec fn b2i(b: bool) -> int {
    if b {
        1
    } else {
        0
    }
}

impl GridModel {
    /// Well-formedness: positive dimensions, cells of length width * height.
    pub open spec fn wf(self) -> bool {
        &&& 0 < self.width
        &&& 0 < self.height
        &&& self.cells.len() == self.width * self.height
    }

    /// The cell at `(x, y)`, both coordinates wrapped toroidally.
    pub open spec fn cell(self, x: int, y: int) -> bool {
        self.cells[wrap(y, self.height) * self.width + wrap(x, self.width)]
    }

    /// Number of live cells among the 8 toroidal neighbors of `(x, y)`.
    pub open spec fn live_neighbors(self, x: int, y: int) -> int {
        b2i(self.cell(x - 1, y - 1)) + b2i(self.cell(x, y - 1)) + b2i(self.cell(x + 1, y - 1))
            + b2i(self.cell(x - 1, y)) + b2i(self.cell(x + 1, y)) + b2i(self.cell(x - 1, y + 1))
            + b2i(self.cell(x, y + 1)) + b2i(self.cell(x + 1, y + 1))
    }
}

/// The classic B3/S23 transition rule: a live cell survives with 2 or 3 live
/// neighbors, a dead cell comes alive with exactly 3, all else is dead.
pub open spec fn next_state(alive: bool, count: int) -> bool {
    if alive {
        count == 2 || count == 3
    } else {
        count == 3
    }
}

/// The all-dead grid of the given dimensions.
pub open spec fn dead_grid(w: int, h: int) -> GridModel {
    GridModel { width: w, height: h, cells: Seq::new((w * h) as nat, |i: int| false) }
}

/// One full generation: every cell replaced by its transition-rule successor,
/// all neighbor counts taken against the old grid.
pub open spec fn next_gen(m: GridModel) -> GridModel {
    GridModel {
        width: m.width,
        height: m.height,
        cells: Seq::new(
            m.cells.len(),
            |i: int|
                next_state(
                    m.cell(i % m.width, i / m.width),
                    m.live_neighbors(i % m.width, i / m.width),
                ),
        ),
    }
}

/// `wrap` agrees with Euclidean remainder and lands in `[0, d)`.
pub proof fn lemma_wrap_eq_mod(c: int, d: int)
    requires
        0 < d,
    ensures
        wrap(c, d) == c % d,
        0 <= wrap(c, d) < d,
{
    lemma_mod_division_less_than_divisor(c, d);
    lemma_mod_add_multiples_vanish(c % d, d);
    lemma_mod_twice(c, d);
}

/// `wrap` on a coordinate at most one step outside `[0, d)`: `-1` wraps to
/// `d - 1`, `d` wraps to `0`, anything in range is unchanged.
pub proof fn lemma_wrap_near(c: int, d: int)
    requires
        0 < d,
        -1 <= c <= d,
    ensures
        wrap(c, d) == if c < 0 {
            d - 1
        } else if c == d {
            0
        } else {
            c
        },
{
    lemma_wrap_eq_mod(c, d);
    if c < 0 {
        lemma_fundamental_div_mod_converse_mod(c, d, -1, d - 1);
    } else if c == d {
        lemma_mod_self_0(d);
    } else {
        lemma_fundamental_div_mod_converse_mod(c, d, 0, c);
    }
}

/// Shifting after reducing modulo `d` wraps to the same place as shifting the
/// raw coordinate.
pub proof fn lemma_wrap_shift(x: int, delta: int, d: int)
    requires
        0 < d,
    ensures
        wrap(x % d + delta, d) == wrap(x + delta, d),
{
    lemma_add_mod_noop(x, delta, d);
    lemma_add_mod_noop(x % d, delta, d);
    lemma_mod_twice(x, d);
    lemma_wrap_eq_mod(x % d + delta, d);
    lemma_wrap_eq_mod(x + delta, d);
}

/// A row-major index built from in-range coordinates lies within the grid.
pub proof fn lemma_row_major_bound(x: int, y: int, w: int, h: int)
    requires
        0 <= x < w,
        0 <= y < h,
    ensures
        0 <= y * w + x < w * h,
{
    assert(0 <= y * w + x < w * h) by (nonlinear_arith)
        requires
            0 <= x < w,
            0 <= y < h,
    ;
}

/// Splitting a row-major index back into coordinates: for `i` in range,
/// `i % w` is the column, `i / w` the row, and they recompose to `i`.
pub proof fn lemma_row_major_split(i: int, w: int, h: int)
    requires
        0 < w,
        0 < h,
        0 <= i < w * h,
    ensures
        0 <= i % w < w,
        0 <= i / w < h,
        (i / w) * w + (i % w) == i,
{
    lemma_fundamental_div_mod(i, w);
    lemma_mod_division_less_than_divisor(i, w);
    let q = i / w;
    let r = i % w;
    assert(0 <= q < h && q * w + r == i) by (nonlinear_arith)
        requires
            0 < w,
            0 < h,
            0 <= i < w * h,
            i == w * q + r,
            0 <= r < w,
    ;
}

/// The B3/S23 transition rule as a pure runtime function, total over every
/// alive state and neighbor count.
pub fn transition(alive: bool, count: u8) -> (next: bool)
    ensures
        next == next_state(alive, count as int),
{
    if alive {
        count == 2 || count == 3
    } else {
        count == 3
    }
}

/// A fixed-size toroidal board of boolean cells, stored row-major.
#[derive(Debug)]
pub struct Board {
    width: usize,
    height: usize,
    cells: Vec<bool>,
}

impl View for Board {
    type V = GridModel;

    closed spec fn view(&self) -> GridModel {
        GridModel {
            width: self.width as int,
            height: self.height as int,
            cells: self.cells@,
        }
    }
}

impl Board {
    /// Well-formedness of the runtime board, in terms of its model.
    pub open spec fn wf(self) -> bool {
        self@.wf()
    }

    /// A board with every cell dead. Rejects a zero dimension; the product
    /// of the dimensions must fit the address space.
    pub fn new(width: usize, height: usize) -> (r: Result<Board, LifeError>)
        requires
            width * height <= usize::MAX,
        ensures
            match r {
                Ok(b) => {
                    &&& 0 < width
                    &&& 0 < height
                    &&& b.wf()
                    &&& b@ == dead_grid(width as int, height as int)
                },
                Err(e) => {
                    &&& e == LifeError::InvalidDimension
                    &&& (width == 0 || height == 0)
                },
            },
    {
        if width == 0 || height == 0 {
            return Err(LifeError::InvalidDimension);
        }
        let size: usize = width * height;
        let mut cells: Vec<bool> = Vec::new();
        let mut i: usize = 0;
        while i < size
            invariant
                i <= size,
                cells@.len() == i,
                forall|j: int| 0 <= j < i ==> !cells@[j],
            decreases size - i,
        {
            cells.push(false);
            i = i + 1;
        }
        let b = Board { width, height, cells };
        proof {
            assert(b@.cells =~= dead_grid(width as int, height as int).cells);
        }
        Ok(b)
    }

    /// The board's width.
    pub fn width(&self) -> (w: usize)
        ensures
            w as int == self@.width,
    {
        self.width
    }

    /// The board's height.
    pub fn height(&self) -> (h: usize)
        ensures
            h as int == self@.height,
    {
        self.height
    }

    /// Row-major index of the wrapped coordinates.
    fn get_index(&self, x: usize, y: usize) -> (idx: usize)
        requires
            self.wf(),
        ensures
            idx < self.cells@.len(),
            idx as int == wrap(y as int, self@.height) * self@.width + wrap(x as int, self@.width),
    {
        let wx: usize = x % self.width;
        let wy: usize = y % self.height;
        let n: usize = self.cells.len();
        proof {
            lemma_wrap_eq_mod(x as int, self@.width);
            lemma_wrap_eq_mod(y as int, self@.height);
            lemma_row_major_bound(wx as int, wy as int, self@.width, self@.height);
            assert((wy as int) * self@.width + (wx as int) < n as int);
        }
        wy * self.width + wx
    }

    /// The wrapped coordinate one step below `c`, `c` itself in `[0, d)`.
    fn wrap_dec(c: usize, d: usize) -> (r: usize)
        requires
            0 < d,
            c < d,
        ensures
            r < d,
            r as int == wrap(c as int - 1, d as int),
    {
        proof {
            lemma_wrap_near(c as int - 1, d as int);
        }
        if c == 0 {
            d - 1
        } else {
            c - 1
        }
    }

    /// The wrapped coordinate one step above `c`, `c` itself in `[0, d)`.
    fn wrap_inc(c: usize, d: usize) -> (r: usize)
        requires
            0 < d,
            c < d,
        ensures
            r < d,
            r as int == wrap(c as int + 1, d as int),
    {
        proof {
            lemma_wrap_near(c as int + 1, d as int);
        }
        if c + 1 == d {
            0
        } else {
            c + 1
        }
    }

    /// Number of live cells among the 8 toroidal neighbors of `(x, y)`;
    /// always between 0 and 8.
    pub fn count_live_neighbors(&self, x: usize, y: usize) -> (count: u8)
        requires
            self.wf(),
        ensures
            count as int == self@.live_neighbors(x as int, y as int),
            count <= 8,
    {
        let w: usize = self.width;
        let h: usize = self.height;
        let wx: usize = x % w;
        let wy: usize = y % h;
        let xm: usize = Self::wrap_dec(wx, w);
        let xp: usize = Self::wrap_inc(wx, w);
        let ym: usize = Self::wrap_dec(wy, h);
        let yp: usize = Self::wrap_inc(wy, h);
        proof {
            lemma_wrap_eq_mod(x as int, w as int);
            lemma_wrap_eq_mod(y as int, h as int);
            lemma_wrap_near(wx as int, w as int);
            lemma_wrap_near(wy as int, h as int);
            lemma_wrap_near(xm as int, w as int);
            lemma_wrap_near(xp as int, w as int);
            lemma_wrap_near(ym as int, h as int);
            lemma_wrap_near(yp as int, h as int);
            lemma_wrap_shift(x as int, -1, w as int);
            lemma_wrap_shift(x as int, 0, w as int);
            lemma_wrap_shift(x as int, 1, w as int);
            lemma_wrap_shift(y as int, -1, h as int);
            lemma_wrap_shift(y as int, 0, h as int);
            lemma_wrap_shift(y as int, 1, h as int);
        }
        let mut count: u8 = 0;
        if self.get(xm, ym) {
            count = count + 1;
        }
        if self.get(wx, ym) {
            count = count + 1;
        }
        if self.get(xp, ym) {
            count = count + 1;
        }
        if self.get(xm, wy) {
            count = count + 1;
        }
        if self.get(xp, wy) {
            count = count + 1;
        }
        if self.get(xm, yp) {
            count = count + 1;
        }
        if self.get(wx, yp) {
            count = count + 1;
        }
        if self.get(xp, yp) {
            count = count + 1;
        }
        count
    }

    /// State of the cell at `(x, y)`; coordinates wrap toroidally.
    pub fn get(&self, x: usize, y: usize) -> (alive: bool)
        requires
            self.wf(),
        ensures
            alive == self@.cell(x as int, y as int),
    {
        let idx: usize = self.get_index(x, y);
        self.cells[idx]
    }

    /// Next state of the cell at `(x, y)`: the transition rule applied to its
    /// current state and its live neighbor count.
    pub fn query_cell_fate(&self, x: usize, y: usize) -> (fate: bool)
        requires
            self.wf(),
        ensures
            fate == next_state(
                self@.cell(x as int, y as int),
                self@.live_neighbors(x as int, y as int),
            ),
    {
        let alive = self.get(x, y);
        let count = self.count_live_neighbors(x, y);
        transition(alive, count)
    }

    /// Set the cell at `(x, y)`; coordinates wrap toroidally. Every other
    /// cell and the dimensions are unchanged.
    pub fn set(&mut self, x: usize, y: usize, alive: bool)
        requires
            old(self).wf(),
        ensures
            final(self).wf(),
            final(self)@.width == old(self)@.width,
            final(self)@.height == old(self)@.height,
            final(self)@.cells == old(self)@.cells.update(
                wrap(y as int, old(self)@.height) * old(self)@.width
                    + wrap(x as int, old(self)@.width),
                alive,
            ),
            final(self)@.cell(x as int, y as int) == alive,
    {
        let idx: usize = self.get_index(x, y);
        self.cells.set(idx, alive);
    }
}

} // verus!
