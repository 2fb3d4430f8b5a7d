//! Laws of the grid engine, proved once and for all: determinism of the
//! generation advance, the per-cell transition rules, wraparound at the
//! edges, the self-inverse toggle, and the canonical still-life and
//! oscillator patterns.

use vstd::prelude::*;

use crate::grid::{lemma_index_bound, lemma_row_col_of_index, Universe};
use crate::rule::{as_count, next_cell};
use vstd::arithmetic::div_mod::{
    lemma_div_pos_is_pos, lemma_fundamental_div_mod, lemma_mod_bound, lemma_multiply_divide_lt,
};

verus! {

/// Every flat index within a `width * height` grid decodes to a row below
/// `height` and a column below `width`, and recombines to itself.
proof fn lemma_flat_index_decomposition(idx: int, width: int, height: int)
    requires
        0 < width,
        0 <= idx < width * height,
    ensures
        0 <= idx / width < height,
        0 <= idx % width < width,
        idx == (idx / width) * width + idx % width,
{
    lemma_div_pos_is_pos(idx, width);
    lemma_multiply_divide_lt(idx, width, height);
    lemma_mod_bound(idx, width);
    lemma_fundamental_div_mod(idx, width);
    assert(width * (idx / width) == (idx / width) * width) by (nonlinear_arith);
}

/// Reading one cell of the next generation: the entry at the flat index of
/// `(row, column)` is the Life rule applied to that cell's current state
/// and its toroidal neighbor count.
pub proof fn lemma_next_gen_cell(u: Universe, row: u32, column: u32)
    requires
        u.wf(),
        row < u.spec_height(),
        column < u.spec_width(),
    ensures
        0 <= u.cell_index(row, column) < u.next_gen().len(),
        u.next_gen()[u.cell_index(row, column)] == next_cell(
            u.cell(row, column),
            u.live_neighbors(row, column),
        ),
{
    lemma_index_bound(row as int, column as int, u.spec_width() as int, u.spec_height() as int);
    lemma_row_col_of_index(row as int, column as int, u.spec_width() as int);
}

/// Determinism: two grids with the same dimensions and the same cell
/// configuration have the same next generation, so advancing twice from
/// one fixed snapshot yields identical results both times. No randomness
/// enters the generation advance.
pub proof fn lemma_tick_deterministic(a: Universe, b: Universe)
    requires
        a.spec_width() == b.spec_width(),
        a.spec_height() == b.spec_height(),
        a.cell_seq() == b.cell_seq(),
    ensures
        a.next_gen() == b.next_gen(),
{
    assert forall|idx: int| 0 <= idx < a.cell_seq().len() implies a.next_gen()[idx]
        == b.next_gen()[idx] by {
        assert(a.live_neighbors(a.row_of(idx), a.col_of(idx)) == b.live_neighbors(
            b.row_of(idx),
            b.col_of(idx),
        ));
    }
    assert(a.next_gen() =~= b.next_gen());
}

/// The per-cell transition rules, read off the next generation: a live
/// cell dies of underpopulation below 2 live neighbors and of
/// overpopulation above 3, and survives with 2 or 3; a dead cell is born
/// with exactly 3 live neighbors and stays dead with any other count.
pub proof fn lemma_transition_rule(u: Universe, row: u32, column: u32)
    requires
        u.wf(),
        row < u.spec_height(),
        column < u.spec_width(),
    ensures
        u.cell(row, column) && u.live_neighbors(row, column) < 2 ==> !u.next_gen()[u.cell_index(
            row,
            column,
        )],
        u.cell(row, column) && u.live_neighbors(row, column) > 3 ==> !u.next_gen()[u.cell_index(
            row,
            column,
        )],
        u.cell(row, column) ==> (u.next_gen()[u.cell_index(row, column)] <==> (u.live_neighbors(
            row,
            column,
        ) == 2 || u.live_neighbors(row, column) == 3)),
        !u.cell(row, column) ==> (u.next_gen()[u.cell_index(row, column)] <==> u.live_neighbors(
            row,
            column,
        ) == 3),
{
    lemma_next_gen_cell(u, row, column);
}

/// Wraparound at the corner: on a grid at least 3 wide and 3 high, the
/// neighbor count of cell `(0, 0)` is taken at the wrapped coordinates,
/// among them `(height-1, width-1)` across the diagonal and
/// `(0, width-1)` and `(height-1, 0)` across the edges.
pub proof fn lemma_corner_wraparound(u: Universe)
    requires
        u.wf(),
        u.spec_width() >= 3,
        u.spec_height() >= 3,
    ensures
        u.live_neighbors(0, 0) == as_count(
            u.cell((u.spec_height() - 1) as u32, (u.spec_width() - 1) as u32),
        ) + as_count(u.cell((u.spec_height() - 1) as u32, 0)) + as_count(
            u.cell((u.spec_height() - 1) as u32, 1),
        ) + as_count(u.cell(0, (u.spec_width() - 1) as u32)) + as_count(u.cell(0, 1)) + as_count(
            u.cell(1, (u.spec_width() - 1) as u32),
        ) + as_count(u.cell(1, 0)) + as_count(u.cell(1, 1)),
{
}

/// Toggling one position of a cell configuration twice restores the
/// original configuration exactly: the flip is its own inverse, and no
/// other position is touched either time. With `toggle_cell`'s contract
/// this makes two toggles of one cell, with no tick between them, a
/// no-op on the whole grid.
pub proof fn lemma_toggle_self_inverse(s: Seq<bool>, idx: int)
    requires
        0 <= idx < s.len(),
    ensures
        s.update(idx, !s[idx]).update(idx, !s.update(idx, !s[idx])[idx]) == s,
{
    assert(s.update(idx, !s[idx]).update(idx, !s.update(idx, !s[idx])[idx]) =~= s);
}

/// Whether `(row, column)` lies in the 2-by-2 block of cells whose
/// upper-left corner is `(r0, c0)`.
pub open spec fn in_block(r0: int, c0: int, row: int, column: int) -> bool {
    r0 <= row <= r0 + 1 && c0 <= column <= c0 + 1
}

/// Still-life invariance of the block: on a grid at least 4 by 4 whose
/// only live cells are a 2-by-2 block (every cell around it dead), one
/// generation advance changes nothing. Each live cell has exactly 3 live
/// neighbors and survives; every dead cell has at most 2 and stays dead.
#[verifier::rlimit(100)]
pub proof fn lemma_block_still_life(u: Universe, r0: u32, c0: u32)
    requires
        u.wf(),
        u.spec_width() >= 4,
        u.spec_height() >= 4,
        r0 + 1 < u.spec_height(),
        c0 + 1 < u.spec_width(),
        forall|r: u32, c: u32|
            r < u.spec_height() && c < u.spec_width() ==> (#[trigger] u.cell(r, c) <==> in_block(
                r0 as int,
                c0 as int,
                r as int,
                c as int,
            )),
    ensures
        u.next_gen() == u.cell_seq(),
{
    assert forall|idx: int| 0 <= idx < u.cell_seq().len() implies u.next_gen()[idx]
        == u.cell_seq()[idx] by {
        lemma_flat_index_decomposition(idx, u.spec_width() as int, u.spec_height() as int);
        let row = u.row_of(idx);
        let col = u.col_of(idx);
        lemma_next_gen_cell(u, row, col);
    }
    assert(u.next_gen() =~= u.cell_seq());
}

/// Whether `(row, column)` lies on the horizontal 3-cell blinker centered
/// at `(rb, cb)`.
pub open spec fn horizontal_blinker(rb: int, cb: int, row: int, column: int) -> bool {
    row == rb && cb - 1 <= column <= cb + 1
}

/// Whether `(row, column)` lies on the vertical 3-cell blinker centered
/// at `(rb, cb)`.
pub open spec fn vertical_blinker(rb: int, cb: int, row: int, column: int) -> bool {
    column == cb && rb - 1 <= row <= rb + 1
}

/// Half of the blinker's period-2 oscillation: on a grid at least 5 by 5
/// whose only live cells are a horizontal blinker centered at `(rb, cb)`,
/// kept 2 cells clear of every edge so no wraparound interferes, one
/// generation advance yields exactly the vertical blinker with the same
/// center.
#[verifier::rlimit(100)]
pub proof fn lemma_blinker_turns_vertical(u: Universe, rb: u32, cb: u32)
    requires
        u.wf(),
        u.spec_width() >= 5,
        u.spec_height() >= 5,
        2 <= rb,
        rb + 2 < u.spec_height(),
        2 <= cb,
        cb + 2 < u.spec_width(),
        forall|r: u32, c: u32|
            r < u.spec_height() && c < u.spec_width() ==> (#[trigger] u.cell(r, c)
                <==> horizontal_blinker(rb as int, cb as int, r as int, c as int)),
    ensures
        forall|r: u32, c: u32|
            r < u.spec_height() && c < u.spec_width() ==> (#[trigger] u.next_gen()[u.cell_index(
                r,
                c,
            )] <==> vertical_blinker(rb as int, cb as int, r as int, c as int)),
{
    assert forall|r: u32, c: u32|
        r < u.spec_height() && c < u.spec_width() implies (#[trigger] u.next_gen()[u.cell_index(
        r,
        c,
    )] <==> vertical_blinker(rb as int, cb as int, r as int, c as int)) by {
        lemma_next_gen_cell(u, r, c);
    }
}

/// The other half of the oscillation: from the vertical blinker, one
/// generation advance yields exactly the horizontal blinker with the same
/// center.
#[verifier::rlimit(100)]
pub proof fn lemma_blinker_turns_horizontal(u: Universe, rb: u32, cb: u32)
    requires
        u.wf(),
        u.spec_width() >= 5,
        u.spec_height() >= 5,
        2 <= rb,
        rb + 2 < u.spec_height(),
        2 <= cb,
        cb + 2 < u.spec_width(),
        forall|r: u32, c: u32|
            r < u.spec_height() && c < u.spec_width() ==> (#[trigger] u.cell(r, c)
                <==> vertical_blinker(rb as int, cb as int, r as int, c as int)),
    ensures
        forall|r: u32, c: u32|
            r < u.spec_height() && c < u.spec_width() ==> (#[trigger] u.next_gen()[u.cell_index(
                r,
                c,
            )] <==> horizontal_blinker(rb as int, cb as int, r as int, c as int)),
{
    assert forall|r: u32, c: u32|
        r < u.spec_height() && c < u.spec_width() implies (#[trigger] u.next_gen()[u.cell_index(
        r,
        c,
    )] <==> horizontal_blinker(rb as int, cb as int, r as int, c as int)) by {
        lemma_next_gen_cell(u, r, c);
    }
}

/// Blinker oscillation, whole: if `v` is the grid one generation after a
/// horizontal blinker `u` (as `tick` produces it), then one more
/// generation restores the original content exactly: the blinker has
/// period 2.
pub proof fn lemma_blinker_period_two(u: Universe, v: Universe, rb: u32, cb: u32)
    requires
        u.wf(),
        v.wf(),
        u.spec_width() == v.spec_width(),
        u.spec_height() == v.spec_height(),
        v.cell_seq() == u.next_gen(),
        u.spec_width() >= 5,
        u.spec_height() >= 5,
        2 <= rb,
        rb + 2 < u.spec_height(),
        2 <= cb,
        cb + 2 < u.spec_width(),
        forall|r: u32, c: u32|
            r < u.spec_height() && c < u.spec_width() ==> (#[trigger] u.cell(r, c)
                <==> horizontal_blinker(rb as int, cb as int, r as int, c as int)),
    ensures
        v.next_gen() == u.cell_seq(),
{
    lemma_blinker_turns_vertical(u, rb, cb);
    assert forall|r: u32, c: u32| r < v.spec_height() && c < v.spec_width() implies (
    #[trigger] v.cell(r, c) <==> vertical_blinker(rb as int, cb as int, r as int, c as int)) by {
        assert(v.cell_index(r, c) == u.cell_index(r, c));
        assert(u.next_gen()[u.cell_index(r, c)] <==> vertical_blinker(
            rb as int,
            cb as int,
            r as int,
            c as int,
        ));
    }
    lemma_blinker_turns_horizontal(v, rb, cb);
    assert forall|idx: int| 0 <= idx < v.cell_seq().len() implies v.next_gen()[idx]
        == u.cell_seq()[idx] by {
        lemma_flat_index_decomposition(idx, v.spec_width() as int, v.spec_height() as int);
        let row = v.row_of(idx);
        let col = v.col_of(idx);
        assert(v.next_gen()[v.cell_index(row, col)] <==> horizontal_blinker(
            rb as int,
            cb as int,
            row as int,
            col as int,
        ));
        assert(u.cell(row, col) <==> horizontal_blinker(
            rb as int,
            cb as int,
            row as int,
            col as int,
        ));
    }
    assert(v.next_gen() =~= u.cell_seq());
}

} // verus!
