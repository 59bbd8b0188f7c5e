//! The board itself and its deterministic session-start seeding.

use vstd::prelude::*;
use vstd::arithmetic::div_mod::lemma_add_mod_noop;
use crate::cell::GridCell;
use crate::cell::HalfHexSpec;
use crate::layout::GRID_LENGTH;

verus! {

pub type Grid = Vec<GridCell<HalfHexSpec>>;

pub open spec fn grid_wf(g: Seq<GridCell<HalfHexSpec>>) -> bool {
    g.len() == GRID_LENGTH
}

/// GRID_WIDTH * 24: the band parameter of the seeding pattern.
pub const SEED_BAND: usize = 960;

/// Whether the seeding pattern puts a piece at index `i`: everything except a
/// top band, a bottom band, and two columns at each side of every band-sized
/// stripe.
pub open spec fn seed_placed(i: int) -> bool {
    !(i < 960 || i > 1440 || i % 960 <= 1 || i % 960 >= 958)
}

/// How many pieces the pattern places below index `i`.
pub open spec fn seed_count(i: int) -> nat
    decreases i,
{
    if i <= 0 {
        0
    } else {
        seed_count(i - 1) + if seed_placed(i - 1) {
            1nat
        } else {
            0
        }
    }
}

/// The seeded content of cell `i`: appearance codes increase by one per
/// placed piece, wrapping as bytes.
pub open spec fn seeded_cell(i: int) -> GridCell<HalfHexSpec> {
    if seed_placed(i) {
        GridCell::Present((seed_count(i) % 256) as u8)
    } else {
        GridCell::Absent
    }
}

/// The procedurally seeded session-start board.
pub fn new_grid() -> (g: Grid)
    ensures
        grid_wf(g@),
        forall|i: int| 0 <= i < GRID_LENGTH ==> g@[i] == seeded_cell(i),
{
    let mut grid: Grid = Vec::new();
    let mut c: HalfHexSpec = 0;
    let mut i: usize = 0;
    while i < GRID_LENGTH
        invariant
            grid@.len() == i <= GRID_LENGTH,
            c as int == seed_count(i as int) % 256,
            forall|j: int| 0 <= j < i ==> grid@[j] == seeded_cell(j),
        decreases GRID_LENGTH - i,
    {
        if i < SEED_BAND || i > GRID_LENGTH - SEED_BAND || i % SEED_BAND <= 1 || i % SEED_BAND
            >= SEED_BAND - 2 {
            grid.push(GridCell::Absent);
            assert(!seed_placed(i as int));
        } else {
            grid.push(GridCell::Present(c));
            assert(seed_placed(i as int));
            proof {
                lemma_add_mod_noop(seed_count(i as int) as int, 1, 256);
            }
            c = c.wrapping_add(1);
        }
        i = i + 1;
    }
    grid
}

} // verus!
