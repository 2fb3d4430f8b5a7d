//! The grid engine: a fixed-size toroidal array of boolean cells with
//! query, mutation, and generation-advance operations.

use vstd::prelude::*;
use vstd::string::StringExecFns;

use crate::bitset::{bits_clear, bits_clone, bits_get, bits_new, bits_of, bits_set, bits_toggle};
use crate::rule::{as_count, next_cell, wrap_dec, wrap_inc};
use vstd::arithmetic::div_mod::{
    lemma_fundamental_div_mod_converse_div, lemma_fundamental_div_mod_converse_mod,
};

verus! {

/// A cell's flat index is within the grid whenever its row and column are.
pub proof fn lemma_index_bound(row: int, column: int, width: int, height: int)
    requires
        0 <= row < height,
        0 <= column < width,
    ensures
        0 <= row * width + column < width * height,
{
    assert(0 <= row * width + column < width * height) by (nonlinear_arith)
        requires
            0 <= row < height,
            0 <= column < width,
    ;
}

/// Flattening `(row, column)` to `row * width + column` is inverted by
/// division and remainder by `width`.
pub proof fn lemma_row_col_of_index(row: int, column: int, width: int)
    requires
        0 <= row,
        0 <= column < width,
    ensures
        (row * width + column) / width == row,
        (row * width + column) % width == column,
{
    lemma_fundamental_div_mod_converse_div(row * width + column, width, row, column);
    lemma_fundamental_div_mod_converse_mod(row * width + column, width, row, column);
}

/// The flat index that a `(row, column)` pair names on a grid of the given
/// width.
pub open spec fn pair_flat_index(p: (u32, u32), width: u32) -> int {
    p.0 * width + p.1
}

/// Whether one of the first `k` pairs names flat index `idx`.
pub open spec fn names_index_before(pairs: Seq<(u32, u32)>, width: u32, idx: int, k: int) -> bool {
    exists|j: int| 0 <= j < k && idx == pair_flat_index(pairs[j], width)
}

/// Whether some pair in the list names flat index `idx`.
pub open spec fn names_index(pairs: Seq<(u32, u32)>, width: u32, idx: int) -> bool {
    names_index_before(pairs, width, idx, pairs.len() as int)
}

/// The glyph that renders one cell.
pub open spec fn glyph(alive: bool) -> char {
    if alive {
        '\u{25fc}'
    } else {
        '\u{25fb}'
    }
}

/// A toroidal Life grid: `width * height` boolean cells, row-major, packed
/// one bit per cell. Cell `(row, column)` lives at flat index
/// `row * width + column`.
pub struct Universe {
    width: u32,
    height: u32,
    cells: fixedbitset::FixedBitSet,
}

impl Universe {
    /// The grid's width, as the contracts speak of it.
    pub closed spec fn spec_width(self) -> u32 {
        self.width
    }

    /// The grid's height, as the contracts speak of it.
    pub closed spec fn spec_height(self) -> u32 {
        self.height
    }

    /// The cell states, flat and row-major: `true` is alive.
    pub closed spec fn cell_seq(self) -> Seq<bool> {
        bits_of(self.cells)
    }

    /// The number of cells.
    pub open spec fn size(self) -> int {
        self.spec_width() * self.spec_height()
    }

    /// Well-formedness: the store holds exactly one bit per cell, and the
    /// cell count fits the 32-bit index arithmetic.
    pub open spec fn wf(self) -> bool {
        &&& self.size() <= u32::MAX
        &&& self.cell_seq().len() == self.size()
    }

    /// The flat index of cell `(row, column)`.
    pub open spec fn cell_index(self, row: u32, column: u32) -> int {
        row * self.spec_width() + column
    }

    /// Whether cell `(row, column)` is alive.
    pub open spec fn cell(self, row: u32, column: u32) -> bool {
        self.cell_seq()[self.cell_index(row, column)]
    }

    /// How many of the 8 toroidal neighbors of `(row, column)` are alive.
    /// On an axis of extent 1 a cell wraps to itself, so the same position
    /// can be counted more than once; that degenerate behavior is accepted.
    pub open spec fn live_neighbors(self, row: u32, column: u32) -> int {
        let north = wrap_dec(row, self.spec_height());
        let south = wrap_inc(row, self.spec_height());
        let west = wrap_dec(column, self.spec_width());
        let east = wrap_inc(column, self.spec_width());
        as_count(self.cell(north, west)) + as_count(self.cell(north, column)) + as_count(
            self.cell(north, east),
        ) + as_count(self.cell(row, west)) + as_count(self.cell(row, east)) + as_count(
            self.cell(south, west),
        ) + as_count(self.cell(south, column)) + as_count(self.cell(south, east))
    }

    /// The row of the cell at flat index `idx`.
    pub open spec fn row_of(self, idx: int) -> u32 {
        (idx / (self.spec_width() as int)) as u32
    }

    /// The column of the cell at flat index `idx`.
    pub open spec fn col_of(self, idx: int) -> u32 {
        (idx % (self.spec_width() as int)) as u32
    }

    /// The next generation: every cell's state under the Life rule, each
    /// neighbor count taken against the current generation.
    pub open spec fn next_gen(self) -> Seq<bool> {
        Seq::new(
            self.cell_seq().len(),
            |idx: int| next_cell(self.cell_seq()[idx], self.live_neighbors(self.row_of(idx), self.col_of(idx))),
        )
    }

    /// A fresh grid with every cell dead. The host owns the random source:
    /// it seeds initial content through `set_cells` (each cell alive with
    /// probability 0.5 in the reference driver).
    pub fn new(width: u32, height: u32) -> (r: Universe)
        requires
            width * height <= u32::MAX,
        ensures
            r.wf(),
            r.spec_width() == width,
            r.spec_height() == height,
            forall|idx: int| 0 <= idx < r.cell_seq().len() ==> !r.cell_seq()[idx],
    {
        let cells = bits_new((width * height) as usize);
        Universe { width, height, cells }
    }

    /// The flat index of cell `(row, column)`.
    fn get_index(&self, row: u32, column: u32) -> (r: usize)
        requires
            self.wf(),
            row < self.spec_height(),
            column < self.spec_width(),
        ensures
            r == self.cell_index(row, column),
            r < self.cell_seq().len(),
    {
        proof {
            lemma_index_bound(
                row as int,
                column as int,
                self.spec_width() as int,
                self.spec_height() as int,
            );
        }
        (row * self.width + column) as usize
    }

    /// How many of the 8 toroidal neighbors of `(row, column)` are alive:
    /// north of row 0 is the last row, south of the last row is row 0, and
    /// likewise west and east across the columns.
    fn live_neighbor_count(&self, row: u32, column: u32) -> (count: u8)
        requires
            self.wf(),
            row < self.spec_height(),
            column < self.spec_width(),
        ensures
            count == self.live_neighbors(row, column),
    {
        let mut count: u8 = 0;

        let north = if row == 0 {
            self.height - 1
        } else {
            row - 1
        };

        let south = if row == self.height - 1 {
            0
        } else {
            row + 1
        };

        let west = if column == 0 {
            self.width - 1
        } else {
            column - 1
        };

        let east = if column == self.width - 1 {
            0
        } else {
            column + 1
        };

        let nw = self.get_index(north, west);
        if bits_get(&self.cells, nw) {
            count += 1;
        }

        let n = self.get_index(north, column);
        if bits_get(&self.cells, n) {
            count += 1;
        }

        let ne = self.get_index(north, east);
        if bits_get(&self.cells, ne) {
            count += 1;
        }

        let w = self.get_index(row, west);
        if bits_get(&self.cells, w) {
            count += 1;
        }

        let e = self.get_index(row, east);
        if bits_get(&self.cells, e) {
            count += 1;
        }

        let sw = self.get_index(south, west);
        if bits_get(&self.cells, sw) {
            count += 1;
        }

        let s = self.get_index(south, column);
        if bits_get(&self.cells, s) {
            count += 1;
        }

        let se = self.get_index(south, east);
        if bits_get(&self.cells, se) {
            count += 1;
        }

        count
    }

    /// Advance the grid by exactly one generation. Every cell's next state
    /// is decided by the Life rule against a snapshot of the prior
    /// generation, so the update is simultaneous: no partially advanced
    /// state is ever observable.
    pub fn tick(&mut self)
        requires
            old(self).wf(),
        ensures
            final(self).wf(),
            final(self).spec_width() == old(self).spec_width(),
            final(self).spec_height() == old(self).spec_height(),
            final(self).cell_seq() == old(self).next_gen(),
    {
        let mut next = bits_clone(&self.cells);

        let mut row: u32 = 0;
        while row < self.height
            invariant
                self.wf(),
                *self == *old(self),
                row <= self.spec_height(),
                bits_of(next).len() == self.cell_seq().len(),
                forall|k: int|
                    0 <= k < row * self.spec_width() ==> bits_of(next)[k] == self.next_gen()[k],
            decreases self.spec_height() - row,
        {
            let mut col: u32 = 0;
            while col < self.width
                invariant
                    self.wf(),
                    *self == *old(self),
                    row < self.spec_height(),
                    col <= self.spec_width(),
                    bits_of(next).len() == self.cell_seq().len(),
                    forall|k: int|
                        0 <= k < row * self.spec_width() + col ==> bits_of(next)[k]
                            == self.next_gen()[k],
                decreases self.spec_width() - col,
            {
                let idx = self.get_index(row, col);
                let cell = bits_get(&self.cells, idx);
                let live_neighbors = self.live_neighbor_count(row, col);

                let state = match (cell, live_neighbors) {
                    (true, x) if x < 2 => false,
                    (true, 2) | (true, 3) => true,
                    (true, x) if x > 3 => false,
                    (false, 3) => true,
                    (otherwise, _) => otherwise,
                };

                proof {
                    lemma_row_col_of_index(row as int, col as int, self.spec_width() as int);
                    assert(state == self.next_gen()[idx as int]);
                }
                bits_set(&mut next, idx, state);

                col = col + 1;
            }
            row = row + 1;
            proof {
                assert(row * self.spec_width() == (row - 1) * self.spec_width()
                    + self.spec_width()) by (nonlinear_arith);
            }
        }

        proof {
            assert(self.spec_height() * self.spec_width() == self.spec_width()
                * self.spec_height()) by (nonlinear_arith);
            assert(bits_of(next) =~= old(self).next_gen());
        }
        self.cells = next;
    }

    /// Reset every cell to dead in place, keeping the dimensions and the
    /// store's identity. The host then seeds fresh random content through
    /// `set_cells`, exactly as at construction.
    pub fn restart(&mut self)
        requires
            old(self).wf(),
        ensures
            final(self).wf(),
            final(self).spec_width() == old(self).spec_width(),
            final(self).spec_height() == old(self).spec_height(),
            forall|idx: int|
                0 <= idx < final(self).cell_seq().len() ==> !final(self).cell_seq()[idx],
    {
        bits_clear(&mut self.cells);
    }

    /// Set the width, keeping the height; the cell store is reallocated
    /// with every cell dead, whatever it held before. There is no defined
    /// mapping from the old geometry to the new one, so no content is
    /// preserved.
    pub fn set_width(&mut self, width: u32)
        requires
            width * old(self).spec_height() <= u32::MAX,
        ensures
            final(self).wf(),
            final(self).spec_width() == width,
            final(self).spec_height() == old(self).spec_height(),
            forall|idx: int|
                0 <= idx < final(self).cell_seq().len() ==> !final(self).cell_seq()[idx],
    {
        self.width = width;
        let size = (width * self.height) as usize;
        self.cells = bits_new(size);
    }

    /// Set the height, keeping the width; the cell store is reallocated
    /// with every cell dead, whatever it held before.
    pub fn set_height(&mut self, height: u32)
        requires
            old(self).spec_width() * height <= u32::MAX,
        ensures
            final(self).wf(),
            final(self).spec_width() == old(self).spec_width(),
            final(self).spec_height() == height,
            forall|idx: int|
                0 <= idx < final(self).cell_seq().len() ==> !final(self).cell_seq()[idx],
    {
        self.height = height;
        proof {
            assert(height * self.spec_width() == self.spec_width() * height) by (nonlinear_arith);
        }
        let size = (height * self.width) as usize;
        self.cells = bits_new(size);
    }

    /// Flip one cell between alive and dead, leaving every other cell as
    /// it was.
    pub fn toggle_cell(&mut self, row: u32, column: u32)
        requires
            old(self).wf(),
            row < old(self).spec_height(),
            column < old(self).spec_width(),
        ensures
            final(self).wf(),
            final(self).spec_width() == old(self).spec_width(),
            final(self).spec_height() == old(self).spec_height(),
            final(self).cell_seq() == old(self).cell_seq().update(
                old(self).cell_index(row, column),
                !old(self).cell(row, column),
            ),
    {
        let idx = self.get_index(row, column);
        bits_toggle(&mut self.cells, idx);
    }

    /// Set each cell named by a `(row, column)` pair alive, leaving every
    /// cell not named exactly as it was.
    pub fn set_cells(&mut self, cells: &[(u32, u32)])
        requires
            old(self).wf(),
            forall|k: int|
                0 <= k < cells@.len() ==> cells@[k].0 < old(self).spec_height() && cells@[k].1
                    < old(self).spec_width(),
        ensures
            final(self).wf(),
            final(self).spec_width() == old(self).spec_width(),
            final(self).spec_height() == old(self).spec_height(),
            final(self).cell_seq().len() == old(self).cell_seq().len(),
            forall|idx: int|
                0 <= idx < final(self).cell_seq().len() ==> final(self).cell_seq()[idx] == (old(
                    self,
                ).cell_seq()[idx] || names_index(cells@, old(self).spec_width(), idx)),
    {
        let ghost orig = *old(self);
        let mut k: usize = 0;
        while k < cells.len()
            invariant
                self.wf(),
                orig.wf(),
                self.spec_width() == orig.spec_width(),
                self.spec_height() == orig.spec_height(),
                self.cell_seq().len() == orig.cell_seq().len(),
                k <= cells@.len(),
                forall|j: int|
                    0 <= j < cells@.len() ==> cells@[j].0 < orig.spec_height() && cells@[j].1
                        < orig.spec_width(),
                forall|idx: int|
                    0 <= idx < self.cell_seq().len() ==> #[trigger] self.cell_seq()[idx] == (
                    orig.cell_seq()[idx] || names_index_before(
                        cells@,
                        orig.spec_width(),
                        idx,
                        k as int,
                    )),
            decreases cells@.len() - k,
        {
            let (row, col) = cells[k];
            let idx = self.get_index(row, col);
            let ghost pre = *self;
            bits_set(&mut self.cells, idx, true);
            proof {
                assert(idx as int == pair_flat_index(cells@[k as int], orig.spec_width()));
                assert forall|i2: int|
                    0 <= i2 < self.cell_seq().len() implies #[trigger] self.cell_seq()[i2] == (
                orig.cell_seq()[i2] || names_index_before(
                    cells@,
                    orig.spec_width(),
                    i2,
                    k as int + 1,
                )) by {
                    assert(pre.cell_seq()[i2] == (orig.cell_seq()[i2] || names_index_before(
                        cells@,
                        orig.spec_width(),
                        i2,
                        k as int,
                    )));
                    if i2 == idx as int {
                        assert(names_index_before(cells@, orig.spec_width(), i2, k as int + 1));
                    } else {
                        if names_index_before(cells@, orig.spec_width(), i2, k as int + 1) {
                            let j = choose|j: int|
                                0 <= j < k as int + 1 && i2 == pair_flat_index(
                                    cells@[j],
                                    orig.spec_width(),
                                );
                            assert(j < k as int);
                            assert(names_index_before(cells@, orig.spec_width(), i2, k as int));
                        }
                        if names_index_before(cells@, orig.spec_width(), i2, k as int) {
                            let j = choose|j: int|
                                0 <= j < k as int && i2 == pair_flat_index(
                                    cells@[j],
                                    orig.spec_width(),
                                );
                            assert(0 <= j < k as int + 1 && i2 == pair_flat_index(
                                cells@[j],
                                orig.spec_width(),
                            ));
                            assert(names_index_before(cells@, orig.spec_width(), i2, k as int + 1));
                        }
                    }
                }
            }
            k = k + 1;
        }
    }

    /// The grid's width.
    pub fn width(&self) -> (r: u32)
        ensures
            r == self.spec_width(),
    {
        self.width
    }

    /// The grid's height.
    pub fn height(&self) -> (r: u32)
        ensures
            r == self.spec_height(),
    {
        self.height
    }

    /// A read-only snapshot of every cell, flat and row-major: `true` is
    /// alive.
    pub fn cells(&self) -> (r: Vec<bool>)
        requires
            self.wf(),
        ensures
            r@ == self.cell_seq(),
    {
        let mut v: Vec<bool> = Vec::new();
        let size = (self.width * self.height) as usize;
        let mut i: usize = 0;
        while i < size
            invariant
                self.wf(),
                size == self.size(),
                i <= size,
                v@.len() == i,
                forall|j: int| 0 <= j < i ==> v@[j] == self.cell_seq()[j],
            decreases size - i,
        {
            v.push(bits_get(&self.cells, i));
            i = i + 1;
        }
        proof {
            assert(v@ =~= self.cell_seq());
        }
        v
    }

    /// The dead and alive values of the entire grid, as the packed store
    /// itself. The reference is invalidated by any resize, which
    /// reallocates the store.
    pub fn get_cells(&self) -> (r: &fixedbitset::FixedBitSet)
        ensures
            bits_of(*r) == self.cell_seq(),
    {
        &self.cells
    }

    /// The textual rendering: each row as `width` glyphs followed by a
    /// newline, rows in order. A grid of width 0 renders as the empty
    /// string.
    pub open spec fn render_seq(self) -> Seq<char> {
        if self.spec_width() == 0 {
            Seq::empty()
        } else {
            Seq::new(
                (self.spec_height() * (self.spec_width() + 1)) as nat,
                |p: int|
                    if p % (self.spec_width() + 1) == self.spec_width() {
                        '\n'
                    } else {
                        glyph(
                            self.cell_seq()[(p / (self.spec_width() + 1)) * self.spec_width() + (p
                                % (self.spec_width() + 1))],
                        )
                    },
            )
        }
    }

    /// Render the grid as text, row-major and newline-delimited, one glyph
    /// per cell: a debugging aid for an external collaborator, not needed
    /// for grid correctness.
    pub fn render(&self) -> (r: String)
        requires
            self.wf(),
        ensures
            r@ == self.render_seq(),
    {
        let mut s = String::new();
        if self.width == 0 {
            proof {
                assert(s@ =~= self.render_seq());
            }
            return s;
        }

        let mut row: u32 = 0;
        while row < self.height
            invariant
                self.wf(),
                self.spec_width() > 0,
                row <= self.spec_height(),
                s@.len() == row * (self.spec_width() + 1),
                forall|p: int| 0 <= p < s@.len() ==> #[trigger] s@[p] == self.render_seq()[p],
            decreases self.spec_height() - row,
        {
            proof {
                assert(row * (self.spec_width() + 1) + (self.spec_width() + 1)
                    <= self.spec_height() * (self.spec_width() + 1)) by (nonlinear_arith)
                    requires
                        row < self.spec_height(),
                ;
            }
            let mut col: u32 = 0;
            while col < self.width
                invariant
                    self.wf(),
                    self.spec_width() > 0,
                    row < self.spec_height(),
                    col <= self.spec_width(),
                    s@.len() == row * (self.spec_width() + 1) + col,
                    s@.len() + (self.spec_width() + 1 - col) <= self.spec_height() * (
                    self.spec_width() + 1),
                    forall|p: int| 0 <= p < s@.len() ==> #[trigger] s@[p] == self.render_seq()[p],
                decreases self.spec_width() - col,
            {
                let idx = self.get_index(row, col);
                let alive = bits_get(&self.cells, idx);
                let ghost pre = s@;
                if alive {
                    s.append("\u{25fc}");
                } else {
                    s.append("\u{25fb}");
                }
                proof {
                    reveal_strlit("\u{25fc}");
                    reveal_strlit("\u{25fb}");
                    assert(s@ =~= pre.push(glyph(alive)));
                    lemma_row_col_of_index(row as int, col as int, (self.spec_width() + 1) as int);
                    assert(self.render_seq()[pre.len() as int] == glyph(alive));
                }
                col = col + 1;
            }
            let ghost pre = s@;
            s.append("\n");
            proof {
                reveal_strlit("\n");
                assert(s@ =~= pre.push('\n'));
                lemma_row_col_of_index(
                    row as int,
                    self.spec_width() as int,
                    (self.spec_width() + 1) as int,
                );
                assert(self.render_seq()[pre.len() as int] == '\n');
                assert((row + 1) * (self.spec_width() + 1) == row * (self.spec_width() + 1) + (
                self.spec_width() + 1)) by (nonlinear_arith);
            }
            row = row + 1;
        }
        proof {
            assert(s@ =~= self.render_seq());
        }
        s
    }
}

} // verus!
