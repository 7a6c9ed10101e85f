use vstd::prelude::*;
use vstd::arithmetic::div_mod::lemma_div_multiples_vanish;

use crate::config::{FINE_ANCHORS, HALF_MODEL, NUM_ANCHORS, ONE};

verus! {

/// Center offset of an anchor from the middle of the model input, in
/// fixed-point units.
#[derive(Clone, Copy, Debug, PartialEq, Eq, Structural)]
pub struct Anchor {
    pub dx: i64,
    pub dy: i64,
}

/// Offset of cell `coord` on a grid of `rows` cells of `cell_width` pixels,
/// measured from the grid's middle: `cell_width * (coord - (rows - 1) / 2)`.
pub open spec fn cell_offset(coord: int, rows: int, cell_width: int) -> int {
    cell_width * ONE * (2 * coord - (rows - 1)) / 2
}

/// Anchor `j` of a square sub-grid of `rows * rows` cells with `repeats`
/// anchors per cell, cells in row-major order.
pub open spec fn grid_anchor(j: int, rows: int, repeats: int, cell_width: int) -> Anchor {
    Anchor {
        dx: cell_offset((j / repeats) % rows, rows, cell_width) as i64,
        dy: cell_offset((j / repeats) / rows, rows, cell_width) as i64,
    }
}

/// Anchor `k` of the detector: the 24x24 grid with 2 anchors per 8-pixel
/// cell, followed by the 12x12 grid with 6 anchors per 16-pixel cell.
pub open spec fn anchor_at(k: int) -> Anchor {
    if k < FINE_ANCHORS {
        grid_anchor(k, 24, 2, 8)
    } else {
        grid_anchor(k - FINE_ANCHORS, 12, 6, 16)
    }
}

proof fn lemma_half_even(c: int, m: int)
    requires
        c % 2 == 0,
    ensures
        c * m / 2 == (c / 2) * m,
{
    let k = c / 2;
    assert(c == 2 * k);
    assert(c * m == 2 * (k * m)) by (nonlinear_arith)
        requires
            c == 2 * k,
    ;
    lemma_div_multiples_vanish(k * m, 2);
}

/// The anchor lies within the model input around its middle.
pub open spec fn anchor_inside(a: Anchor) -> bool {
    -HALF_MODEL <= a.dx <= HALF_MODEL && -HALF_MODEL <= a.dy <= HALF_MODEL
}

/// Appends the anchors of one sub-grid.
fn add_grid(anchors: &mut Vec<Anchor>, rows: usize, repeats: usize, cell_width: usize)
    requires
        1 <= rows <= 24,
        1 <= repeats <= 6,
        2 <= cell_width <= 16,
        cell_width % 2 == 0,
        cell_width * (rows - 1) <= 192,
        old(anchors).len() + repeats * rows * rows <= usize::MAX,
    ensures
        forall|j: int|
            0 <= j < repeats * rows * rows ==> anchor_inside(
                #[trigger] final(anchors)[old(anchors).len() + j],
            ),
        final(anchors).len() == old(anchors).len() + repeats * rows * rows,
        forall|k: int| 0 <= k < old(anchors).len() ==> final(anchors)[k] == old(anchors)[k],
        forall|j: int|
            0 <= j < repeats * rows * rows ==> final(anchors)[old(anchors).len() + j]
                == grid_anchor(j, rows as int, repeats as int, cell_width as int),
{
    proof {
        assert(repeats * rows <= 144 && repeats * rows * rows <= 3456) by (nonlinear_arith)
            requires
                1 <= rows <= 24,
                1 <= repeats <= 6,
        ;
    }
    let total: usize = repeats * rows * rows;
    let half: i64 = (cell_width as i64) * ONE / 2;
    let start: usize = anchors.len();
    proof {
        assert((cell_width * ONE) % 2 == 0) by (nonlinear_arith)
            requires
                cell_width % 2 == 0,
        ;
    }
    let mut j: usize = 0;
    while j < total
        invariant
            total == repeats * rows * rows,
            start == old(anchors).len(),
            start + total <= usize::MAX,
            1 <= rows <= 24,
            1 <= repeats <= 6,
            2 <= cell_width <= 16,
            cell_width * (rows - 1) <= 192,
            (cell_width * ONE) % 2 == 0,
            half == (cell_width * ONE) / 2,
            j <= total,
            anchors.len() == start + j,
            forall|k: int| 0 <= k < start ==> anchors[k] == old(anchors)[k],
            forall|i: int|
                0 <= i < j ==> anchors[start + i] == grid_anchor(
                    i,
                    rows as int,
                    repeats as int,
                    cell_width as int,
                ),
            forall|i: int| 0 <= i < j ==> anchor_inside(#[trigger] anchors[start + i]),
        decreases total - j,
    {
        let cell: usize = j / repeats;
        let col: usize = cell % rows;
        let row: usize = cell / rows;
        proof {
            assert(cell < rows * rows) by (nonlinear_arith)
                requires
                    cell == j / repeats,
                    j < repeats * rows * rows,
                    repeats >= 1,
            ;
            assert(row < rows) by (nonlinear_arith)
                requires
                    row == cell / rows,
                    cell < rows * rows,
                    rows >= 1,
            ;
            lemma_half_even(cell_width * ONE, 2 * col - (rows - 1));
            lemma_half_even(cell_width * ONE, 2 * row - (rows - 1));
            assert(half * (rows - 1) <= 96000) by (nonlinear_arith)
                requires
                    half == cell_width * 1000 / 2,
                    cell_width * (rows - 1) <= 192,
                    rows >= 1,
            ;
            assert(-96000 <= half * (2 * col - (rows - 1)) <= 96000) by (nonlinear_arith)
                requires
                    0 <= half,
                    half * (rows - 1) <= 96000,
                    0 <= col < rows,
            ;
            assert(-96000 <= half * (2 * row - (rows - 1)) <= 96000) by (nonlinear_arith)
                requires
                    0 <= half,
                    half * (rows - 1) <= 96000,
                    0 <= row < rows,
            ;
        }
        let dx: i64 = half * (2 * (col as i64) - (rows as i64 - 1));
        let dy: i64 = half * (2 * (row as i64) - (rows as i64 - 1));
        anchors.push(Anchor { dx, dy });
        j = j + 1;
    }
}

/// The detector's anchors, in the order of its output rows.
pub fn build_anchor_grid() -> (r: Vec<Anchor>)
    ensures
        r.len() == NUM_ANCHORS,
        forall|k: int| 0 <= k < NUM_ANCHORS ==> r[k] == anchor_at(k),
        forall|k: int| 0 <= k < NUM_ANCHORS ==> anchor_inside(#[trigger] r[k]),
        forall|k: int| 0 <= k < FINE_ANCHORS ==> r[k] == grid_anchor(k, 24, 2, 8),
        forall|k: int|
            FINE_ANCHORS <= k < NUM_ANCHORS ==> r[k] == grid_anchor(k - FINE_ANCHORS, 12, 6, 16),
{
    let mut anchors: Vec<Anchor> = Vec::new();
    add_grid(&mut anchors, 24, 2, 8);
    add_grid(&mut anchors, 12, 6, 16);
    assert forall|k: int| FINE_ANCHORS <= k < NUM_ANCHORS implies anchors[k] == grid_anchor(
        k - FINE_ANCHORS,
        12,
        6,
        16,
    ) by {
        assert(anchors[FINE_ANCHORS + (k - FINE_ANCHORS)] == grid_anchor(k - FINE_ANCHORS, 12, 6, 16));
    }
    assert forall|k: int| 0 <= k < NUM_ANCHORS implies anchor_inside(#[trigger] anchors[k]) by {
        if k >= FINE_ANCHORS {
            assert(anchor_inside(anchors[FINE_ANCHORS + (k - FINE_ANCHORS)]));
        } else {
            assert(anchor_inside(anchors[0 + k]));
        }
    }
    anchors
}

} // verus!
