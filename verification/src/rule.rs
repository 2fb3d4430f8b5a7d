//! The Life transition rule and the toroidal wraparound arithmetic, as pure
//! specification functions. These are the mathematical reference that the
//! executable grid engine is proved against.

use vstd::prelude::*;

verus! {

/// The standard Life rule, applied to one cell: a live cell survives with 2
/// or 3 live neighbors and otherwise dies (underpopulation below 2,
/// overpopulation above 3); a dead cell is born with exactly 3 live
/// neighbors and otherwise stays dead.
pub open spec fn next_cell(alive: bool, live_neighbors: int) -> bool {
    if alive {
        live_neighbors == 2 || live_neighbors == 3
    } else {
        live_neighbors == 3
    }
}

/// The coordinate one step up (toward smaller indices) on an axis of extent
/// `n`, wrapping from 0 to `n - 1`.
pub open spec fn wrap_dec(i: u32, n: u32) -> u32
    recommends
        0 < n,
        i < n,
{
    if i == 0 {
        (n - 1) as u32
    } else {
        (i - 1) as u32
    }
}

/// The coordinate one step down (toward larger indices) on an axis of extent
/// `n`, wrapping from `n - 1` to 0.
pub open spec fn wrap_inc(i: u32, n: u32) -> u32
    recommends
        0 < n,
        i < n,
{
    if i == n - 1 {
        0
    } else {
        (i + 1) as u32
    }
}

/// A cell's contribution to a neighbor count.
pub open spec fn as_count(alive: bool) -> int {
    if alive {
        1
    } else {
        0
    }
}

} // verus!
