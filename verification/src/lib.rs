//! A verified engine for Conway's Game of Life on a toroidal grid.
//!
//! The grid is a flat, row-major store of boolean cells kept in a
//! `fixedbitset::FixedBitSet`; neighbor lookup wraps around every edge, and
//! `tick` advances the whole grid one generation against a snapshot of the
//! previous one. Randomization of the initial content and all rendering
//! cadence belong to the host, which seeds the grid through `set_cells`.

mod bitset;
mod grid;
mod laws;
mod rule;

pub use bitset::bits_of;
pub use grid::glyph;
pub use grid::lemma_index_bound;
pub use grid::lemma_row_col_of_index;
pub use grid::names_index;
pub use grid::names_index_before;
pub use grid::pair_flat_index;
pub use grid::Universe;
pub use laws::horizontal_blinker;
pub use laws::in_block;
pub use laws::lemma_blinker_period_two;
pub use laws::lemma_blinker_turns_horizontal;
pub use laws::lemma_blinker_turns_vertical;
pub use laws::lemma_block_still_life;
pub use laws::lemma_corner_wraparound;
pub use laws::lemma_next_gen_cell;
pub use laws::lemma_tick_deterministic;
pub use laws::lemma_toggle_self_inverse;
pub use laws::lemma_transition_rule;
pub use laws::vertical_blinker;
pub use rule::as_count;
pub use rule::next_cell;
pub use rule::wrap_dec;
pub use rule::wrap_inc;
