//! The simulation driver: two boards, one holding the visible generation and
//! one spare, advanced by computing every cell's successor into the spare
//! buffer and then swapping the two, so no write of a step can influence a
//! neighbor count taken in the same step.

use crate::grid::{
    dead_grid, lemma_row_major_bound, lemma_wrap_near, next_gen, Board, GridModel, LifeError,
};
use vstd::arithmetic::div_mod::lemma_fundamental_div_mod_converse;
use vstd::prelude::*;

verus! {

/// A double-buffered Game of Life simulation.
#[derive(Debug)]
pub struct Simulation {
    current: Board,
    next: Board,
}

impl Simulation {
    /// Model of the visible (most recently computed) generation.
    pub closed spec fn grid_model(self) -> GridModel {
        self.current@
    }

    /// Model of the spare buffer; after a step it holds the previous
    /// generation.
    pub closed spec fn spare(self) -> GridModel {
        self.next@
    }

    /// Well-formedness: both boards well formed, with equal dimensions.
    pub closed spec fn wf(self) -> bool {
        &&& self.current.wf()
        &&& self.next.wf()
        &&& self.current@.width == self.next@.width
        &&& self.current@.height == self.next@.height
    }

    /// A well-formed simulation has well-formed buffer models of equal
    /// dimensions.
    pub proof fn lemma_wf_model(self)
        requires
            self.wf(),
        ensures
            self.grid_model().wf(),
            self.spare().wf(),
            self.grid_model().width == self.spare().width,
            self.grid_model().height == self.spare().height,
    {
    }

    /// A simulation of the given dimensions with every cell dead in both
    /// buffers. Rejects a zero dimension; the product of the dimensions must
    /// fit the address space.
    pub fn new(width: usize, height: usize) -> (r: Result<Simulation, LifeError>)
        requires
            width * height <= usize::MAX,
        ensures
            match r {
                Ok(s) => {
                    &&& 0 < width
                    &&& 0 < height
                    &&& s.wf()
                    &&& s.grid_model() == dead_grid(width as int, height as int)
                    &&& s.spare() == dead_grid(width as int, height as int)
                },
                Err(e) => {
                    &&& e == LifeError::InvalidDimension
                    &&& (width == 0 || height == 0)
                },
            },
    {
        let current = match Board::new(width, height) {
            Ok(b) => b,
            Err(e) => {
                return Err(e);
            },
        };
        let next = match Board::new(width, height) {
            Ok(b) => b,
            Err(e) => {
                return Err(e);
            },
        };
        Ok(Simulation { current, next })
    }

    /// The simulation's width.
    pub fn width(&self) -> (w: usize)
        ensures
            w as int == self.grid_model().width,
    {
        self.current.width()
    }

    /// The simulation's height.
    pub fn height(&self) -> (h: usize)
        ensures
            h as int == self.grid_model().height,
    {
        self.current.height()
    }

    /// Read-only view of the board holding the latest generation.
    pub fn current(&self) -> (b: &Board)
        ensures
            b@ == self.grid_model(),
            self.wf() ==> b.wf(),
    {
        &self.current
    }

    /// Write one cell of the visible generation (seeding); coordinates wrap
    /// toroidally. The spare buffer and the dimensions are unchanged.
    pub fn set_cell(&mut self, x: usize, y: usize, alive: bool)
        requires
            old(self).wf(),
        ensures
            final(self).wf(),
            final(self).spare() == old(self).spare(),
            final(self).grid_model().width == old(self).grid_model().width,
            final(self).grid_model().height == old(self).grid_model().height,
            final(self).grid_model().cells == old(self).grid_model().cells.update(
                crate::grid::wrap(y as int, old(self).grid_model().height)
                    * old(self).grid_model().width
                    + crate::grid::wrap(x as int, old(self).grid_model().width),
                alive,
            ),
            final(self).grid_model().cell(x as int, y as int) == alive,
    {
        self.current.set(x, y, alive)
    }

    /// Advance one generation: every cell of the spare buffer is written with
    /// the transition-rule successor computed against the visible generation,
    /// then the two buffers swap roles. The spare buffer afterwards holds the
    /// generation that was visible before the call, which shows the step
    /// swapped buffers rather than mutating the visible one in place.
    pub fn step(&mut self)
        requires
            old(self).wf(),
        ensures
            final(self).wf(),
            final(self).grid_model() == next_gen(old(self).grid_model()),
            final(self).spare() == old(self).grid_model(),
    {
        let ghost cur0 = self.current@;
        let ghost target = next_gen(self.current@);
        let w: usize = self.current.width();
        let h: usize = self.current.height();
        let mut y: usize = 0;
        while y < h
            invariant
                y <= h,
                self.current@ == cur0,
                cur0.wf(),
                w as int == cur0.width,
                h as int == cur0.height,
                target == next_gen(cur0),
                self.current.wf(),
                self.next.wf(),
                self.next@.width == cur0.width,
                self.next@.height == cur0.height,
                forall|i: int|
                    0 <= i < y as int * cur0.width ==> self.next@.cells[i] == target.cells[i],
            decreases h - y,
        {
            let mut x: usize = 0;
            while x < w
                invariant
                    x <= w,
                    y < h,
                    self.current@ == cur0,
                    cur0.wf(),
                    w as int == cur0.width,
                    h as int == cur0.height,
                    target == next_gen(cur0),
                    self.current.wf(),
                    self.next.wf(),
                    self.next@.width == cur0.width,
                    self.next@.height == cur0.height,
                    forall|i: int|
                        0 <= i < y as int * cur0.width + x as int ==> self.next@.cells[i]
                            == target.cells[i],
                decreases w - x,
            {
                let fate = self.current.query_cell_fate(x, y);
                self.next.set(x, y, fate);
                proof {
                    let wi = cur0.width;
                    let hi = cur0.height;
                    let xi = x as int;
                    let yi = y as int;
                    lemma_wrap_near(xi, wi);
                    lemma_wrap_near(yi, hi);
                    lemma_row_major_bound(xi, yi, wi, hi);
                    lemma_fundamental_div_mod_converse(yi * wi + xi, wi, yi, xi);
                    assert(target.cells[yi * wi + xi] == next_state_of(cur0, xi, yi));
                }
                x = x + 1;
            }
            proof {
                assert((y as int + 1) * cur0.width == y as int * cur0.width + cur0.width)
                    by (nonlinear_arith);
            }
            y = y + 1;
        }
        proof {
            assert(self.next@.cells =~= target.cells);
            assert(self.next@ =~= target);
        }
        core::mem::swap(&mut self.current, &mut self.next);
    }
}

/// The transition-rule successor of one cell of a grid.
pub open spec fn next_state_of(m: GridModel, x: int, y: int) -> bool {
    crate::grid::next_state(m.cell(x, y), m.live_neighbors(x, y))
}

} // verus!
