//! General properties of the Game of Life core, stated and proved once over
//! the grid model: bounds on neighbor counts, totality of the transition
//! rule, stability of the 2x2 block still life, and determinism of evolution.

use crate::grid::{
    lemma_row_major_bound, lemma_row_major_split, lemma_wrap_eq_mod, lemma_wrap_near, next_gen,
    next_state, GridModel,
};
use vstd::arithmetic::div_mod::lemma_fundamental_div_mod_converse;
use vstd::prelude::*;

verus! {

/// A live neighbor count is never negative and never exceeds 8, for any grid
/// and any coordinates.
pub proof fn lemma_neighbor_count_bounds(m: GridModel, x: int, y: int)
    ensures
        0 <= m.live_neighbors(x, y) <= 8,
{
}

/// The transition rule is total over every alive state crossed with every
/// neighbor count 0 through 8, and matches the classic table exactly: a live
/// cell survives with 2 or 3 live neighbors, a dead cell comes alive with
/// exactly 3, and every other combination is dead.
pub proof fn lemma_transition_rule_total()
    ensures
        next_state(true, 2),
        next_state(true, 3),
        next_state(false, 3),
        forall|c: int| 0 <= c <= 8 && c != 2 && c != 3 ==> !next_state(true, c),
        forall|c: int| 0 <= c <= 8 && c != 3 ==> !next_state(false, c),
{
}

/// The grid after `n` generations.
pub open spec fn advance(m: GridModel, n: nat) -> GridModel
    decreases n,
{
    if n == 0 {
        m
    } else {
        next_gen(advance(m, (n - 1) as nat))
    }
}

/// Determinism: equal grids evolve identically for any number of
/// generations.
pub proof fn lemma_deterministic(a: GridModel, b: GridModel, n: nat)
    requires
        a == b,
    ensures
        advance(a, n) == advance(b, n),
{
}

/// A grid fixed by one generation is fixed by any number of generations.
pub proof fn lemma_still_life_forever(m: GridModel, n: nat)
    requires
        next_gen(m) == m,
    ensures
        advance(m, n) == m,
    decreases n,
{
    if n > 0 {
        lemma_still_life_forever(m, (n - 1) as nat);
    }
}

/// A grid whose live cells are exactly the 2x2 block with corners `(0, 0)`
/// and `(1, 1)`.
pub open spec fn block_grid(w: int, h: int) -> GridModel {
    GridModel {
        width: w,
        height: h,
        cells: Seq::new((w * h) as nat, |i: int| i % w <= 1 && i / w <= 1),
    }
}

/// A cell of the block grid is live exactly when both wrapped coordinates
/// are 0 or 1.
proof fn lemma_block_cell_char(w: int, h: int, a: int, b: int)
    requires
        0 < w,
        0 < h,
    ensures
        block_grid(w, h).cell(a, b) == (crate::grid::wrap(a, w) <= 1 && crate::grid::wrap(b, h)
            <= 1),
{
    let xw = crate::grid::wrap(a, w);
    let yw = crate::grid::wrap(b, h);
    lemma_wrap_eq_mod(a, w);
    lemma_wrap_eq_mod(b, h);
    lemma_row_major_bound(xw, yw, w, h);
    lemma_fundamental_div_mod_converse(yw * w + xw, w, yw, xw);
}

/// One generation leaves each cell of the block grid unchanged.
proof fn lemma_block_cell(w: int, h: int, x: int, y: int)
    requires
        w >= 4,
        h >= 4,
        0 <= x < w,
        0 <= y < h,
    ensures
        next_state(
            block_grid(w, h).cell(x, y),
            block_grid(w, h).live_neighbors(x, y),
        ) == block_grid(w, h).cell(x, y),
{
    lemma_wrap_near(x - 1, w);
    lemma_wrap_near(x, w);
    lemma_wrap_near(x + 1, w);
    lemma_wrap_near(y - 1, h);
    lemma_wrap_near(y, h);
    lemma_wrap_near(y + 1, h);
    lemma_block_cell_char(w, h, x - 1, y - 1);
    lemma_block_cell_char(w, h, x, y - 1);
    lemma_block_cell_char(w, h, x + 1, y - 1);
    lemma_block_cell_char(w, h, x - 1, y);
    lemma_block_cell_char(w, h, x, y);
    lemma_block_cell_char(w, h, x + 1, y);
    lemma_block_cell_char(w, h, x - 1, y + 1);
    lemma_block_cell_char(w, h, x, y + 1);
    lemma_block_cell_char(w, h, x + 1, y + 1);
}

/// Still life: on any grid with both dimensions at least 4, the 2x2 block of
/// live cells is left exactly in place by one generation.
pub proof fn lemma_block_still_life(w: int, h: int)
    requires
        w >= 4,
        h >= 4,
    ensures
        next_gen(block_grid(w, h)) == block_grid(w, h),
{
    let g = block_grid(w, h);
    let ng = next_gen(g);
    assert(w * h >= 16) by (nonlinear_arith)
        requires
            w >= 4,
            h >= 4,
    ;
    assert forall|i: int| 0 <= i < ng.cells.len() implies ng.cells[i] == g.cells[i] by {
        lemma_row_major_split(i, w, h);
        let x = i % w;
        let y = i / w;
        lemma_block_cell(w, h, x, y);
        lemma_wrap_near(x, w);
        lemma_wrap_near(y, h);
    };
    assert(ng.cells =~= g.cells);
    assert(ng =~= g);
}

/// Still life, indefinitely: the block grid is unchanged by any number of
/// generations.
pub proof fn lemma_block_still_life_forever(w: int, h: int, n: nat)
    requires
        w >= 4,
        h >= 4,
    ensures
        advance(block_grid(w, h), n) == block_grid(w, h),
{
    lemma_block_still_life(w, h);
    lemma_still_life_forever(block_grid(w, h), n);
}

} // verus!

