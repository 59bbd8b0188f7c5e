//! The gravity resolver: one relaxation pass per frame that slides settled
//! pieces toward the board's center when free space permits.
//!
//! For every `Present` cell (skipping a small fixed set of center cells that
//! are structurally exempt), the piece tries, in priority order, three
//! diagonal routes toward the center; the first whose gating cells are all
//! `Absent` moves the piece one diagonal step and requests a "thud" sound.
//! At most one move happens per cell per pass.

use vstd::prelude::*;
use crate::cell::GridCell;
use crate::grid::Grid;
use crate::grid::grid_wf;
use crate::layout::Dir;
use crate::layout::GRID_HEIGHT;
use crate::layout::GRID_LENGTH;
use crate::layout::GRID_WIDTH;
use crate::layout::get_hex_index;
use crate::layout::hex_neighbor;
use crate::layout::i_to_xy;
use crate::layout::opposite_dir;
use crate::platform::SFX;
use crate::platform::Speaker;

verus! {

/// Horizontal fall direction: toward the board's horizontal center.
pub open spec fn fall_dir_x(x: int) -> Dir {
    if x < 20 {
        Dir::Right
    } else {
        Dir::Left
    }
}

/// Vertical fall direction: toward the board's vertical center.
pub open spec fn fall_dir_y(y: int) -> Dir {
    if y < 30 {
        Dir::Down
    } else {
        Dir::Up
    }
}

/// The eight half-hexes in the very middle that gravity skips; moving them
/// back and forth would loop forever because the board has even dimensions.
pub open spec fn exempt_cell(x: int, y: int) -> bool {
    ||| ((x == 19 || x == 18) && y == 29)
    ||| ((x == 20 || x == 21) && y == 28)
    ||| ((x == 19 || x == 18) && y == 31)
    ||| ((x == 20 || x == 21) && y == 30)
}

/// The neighbor of a neighbor, when both moves stay on the board.
pub open spec fn step2(i: int, d1: Dir, d2: Dir) -> Option<int> {
    match hex_neighbor(i, d1) {
        Some(j) => hex_neighbor(j, d2),
        None => None,
    }
}

/// The cell one forward-x step from `i`.
pub open spec fn fwd_x_of(i: int) -> Option<int> {
    hex_neighbor(i, fall_dir_x(i % 40))
}

/// The cell one forward-y step from `i`.
pub open spec fn fwd_y_of(i: int) -> Option<int> {
    hex_neighbor(i, fall_dir_y(i / 40))
}

/// The diagonal destination: forward-x then forward-y.
pub open spec fn fwd_xy_of(i: int) -> Option<int> {
    step2(i, fall_dir_x(i % 40), fall_dir_y(i / 40))
}

/// The alternate gate: forward-y then backward-x.
pub open spec fn bwd_x_fwd_y_of(i: int) -> Option<int> {
    step2(i, fall_dir_y(i / 40), opposite_dir(fall_dir_x(i % 40)))
}

/// The alternate gate: forward-x then backward-y.
pub open spec fn fwd_x_bwd_y_of(i: int) -> Option<int> {
    step2(i, fall_dir_x(i % 40), opposite_dir(fall_dir_y(i / 40)))
}

/// The gating cell exists and is free.
pub open spec fn option_absent(g: Seq<GridCell<u8>>, o: Option<int>) -> bool {
    match o {
        Some(j) => g[j] is Absent,
        None => false,
    }
}

/// First route: forward-x, diagonal, and forward-y cells all free.
pub open spec fn route1_ok(g: Seq<GridCell<u8>>, i: int) -> bool {
    option_absent(g, fwd_x_of(i)) && option_absent(g, fwd_xy_of(i)) && option_absent(
        g,
        fwd_y_of(i),
    )
}

/// Second route: backward-x-then-forward-y, diagonal, and forward-y free.
pub open spec fn route2_ok(g: Seq<GridCell<u8>>, i: int) -> bool {
    option_absent(g, bwd_x_fwd_y_of(i)) && option_absent(g, fwd_xy_of(i)) && option_absent(
        g,
        fwd_y_of(i),
    )
}

/// Third route: forward-x-then-backward-y, diagonal, and forward-x free.
pub open spec fn route3_ok(g: Seq<GridCell<u8>>, i: int) -> bool {
    option_absent(g, fwd_x_bwd_y_of(i)) && option_absent(g, fwd_xy_of(i)) && option_absent(
        g,
        fwd_x_of(i),
    )
}

/// Whether the gravity pass moves the piece at `i`: it is a settled piece
/// outside the exempt center cells, and some route's gating cells are all
/// free.  A piece with no free route never moves.
pub open spec fn cell_moves(g: Seq<GridCell<u8>>, i: int) -> bool {
    &&& g[i] is Present
    &&& !exempt_cell(i % 40, i / 40)
    &&& (route1_ok(g, i) || route2_ok(g, i) || route3_ok(g, i))
}

/// The board after the pass has handled cell `i`: a moving piece relocates
/// to the diagonal destination, exactly once; everything else stays.
pub open spec fn gravity_cell_spec(g: Seq<GridCell<u8>>, i: int) -> Seq<GridCell<u8>> {
    if cell_moves(g, i) {
        g.update(fwd_xy_of(i)->0, g[i]).update(i, GridCell::Absent)
    } else {
        g
    }
}

/// The board and the sound queue after the pass has handled cells `[0, n)`
/// in order: each move appends exactly one "thud" request.
pub open spec fn gravity_pass_spec(g: Seq<GridCell<u8>>, sounds: Seq<SFX>, n: nat) -> (
    Seq<GridCell<u8>>,
    Seq<SFX>,
)
    decreases n,
{
    if n == 0 {
        (g, sounds)
    } else {
        let prev = gravity_pass_spec(g, sounds, (n - 1) as nat);
        (
            gravity_cell_spec(prev.0, n - 1),
            if cell_moves(prev.0, n - 1) {
                prev.1.push(SFX::Wud)
            } else {
                prev.1
            },
        )
    }
}

/// Handle one cell of the relaxation pass; `moved` says whether the piece
/// relocated (which also requests a "thud" sound).
pub fn gravity_for_cell(grid: &mut Grid, index: usize, speaker: &mut Speaker) -> (moved: bool)
    requires
        grid_wf(old(grid)@),
        index < GRID_LENGTH,
    ensures
        grid_wf(final(grid)@),
        final(grid)@ == gravity_cell_spec(old(grid)@, index as int),
        moved == cell_moves(old(grid)@, index as int),
        final(speaker).requests@ == if moved {
            old(speaker).requests@.push(SFX::Wud)
        } else {
            old(speaker).requests@
        },
{
    let half_hex = match grid[index] {
        GridCell::Present(h) => h,
        _ => {
            return false;
        },
    };
    let (x, y) = i_to_xy(index);

    if ((x == GRID_WIDTH / 2 - 1 || x == GRID_WIDTH / 2 - 2) && y == GRID_HEIGHT / 2 - 1) || ((x
        == GRID_WIDTH / 2 || x == GRID_WIDTH / 2 + 1) && y == GRID_HEIGHT / 2 - 2) || ((x
        == GRID_WIDTH / 2 - 1 || x == GRID_WIDTH / 2 - 2) && y == GRID_HEIGHT / 2 + 1) || ((x
        == GRID_WIDTH / 2 || x == GRID_WIDTH / 2 + 1) && y == GRID_HEIGHT / 2) {
        return false;
    }

    let should_fall_right = x < GRID_WIDTH / 2;
    let should_fall_down = y < GRID_HEIGHT / 2;

    let forward_x = if should_fall_right {
        Dir::Right
    } else {
        Dir::Left
    };
    let backward_x = if should_fall_right {
        Dir::Left
    } else {
        Dir::Right
    };
    let forward_y = if should_fall_down {
        Dir::Down
    } else {
        Dir::Up
    };
    let backward_y = if should_fall_down {
        Dir::Up
    } else {
        Dir::Down
    };

    let forward_x_index = get_hex_index(index, forward_x);
    let forward_xy_index = match forward_x_index {
        Some(j) => get_hex_index(j, forward_y),
        None => None,
    };
    let forward_y_index = get_hex_index(index, forward_y);

    proof {
        assert(forward_x == fall_dir_x(index as int % 40));
        assert(forward_y == fall_dir_y(index as int / 40));
    }

    if let (Some(a), Some(t), Some(b)) = (forward_x_index, forward_xy_index, forward_y_index) {
        if grid[a].is_absent() && grid[t].is_absent() && grid[b].is_absent() {
            assert(route1_ok(grid@, index as int));
            grid.set(t, GridCell::Present(half_hex));
            grid.set(index, GridCell::Absent);
            speaker.request_sfx(SFX::Wud);
            return true;
        }
    }

    let backward_x_forward_y_index = match forward_y_index {
        Some(j) => get_hex_index(j, backward_x),
        None => None,
    };

    if let (Some(a), Some(t), Some(b)) = (
        backward_x_forward_y_index,
        forward_xy_index,
        forward_y_index,
    ) {
        if grid[a].is_absent() && grid[t].is_absent() && grid[b].is_absent() {
            assert(route2_ok(grid@, index as int));
            grid.set(t, GridCell::Present(half_hex));
            grid.set(index, GridCell::Absent);
            speaker.request_sfx(SFX::Wud);
            return true;
        }
    }

    let forward_x_backward_y_index = match forward_x_index {
        Some(j) => get_hex_index(j, backward_y),
        None => None,
    };

    if let (Some(a), Some(t), Some(b)) = (
        forward_x_backward_y_index,
        forward_xy_index,
        forward_x_index,
    ) {
        if grid[a].is_absent() && grid[t].is_absent() && grid[b].is_absent() {
            assert(route3_ok(grid@, index as int));
            grid.set(t, GridCell::Present(half_hex));
            grid.set(index, GridCell::Absent);
            speaker.request_sfx(SFX::Wud);
            return true;
        }
    }

    assert(!cell_moves(grid@, index as int));
    false
}

/// One relaxation pass over the whole board, in index order, requesting one
/// "thud" per move.  Multi-step falls complete gradually across consecutive
/// passes by design.
pub fn apply_gravity_once(grid: &mut Grid, speaker: &mut Speaker)
    requires
        grid_wf(old(grid)@),
    ensures
        grid_wf(final(grid)@),
        final(grid)@ == gravity_pass_spec(old(grid)@, old(speaker).requests@, GRID_LENGTH as nat).0,
        final(speaker).requests@ == gravity_pass_spec(
            old(grid)@,
            old(speaker).requests@,
            GRID_LENGTH as nat,
        ).1,
{
    let mut index: usize = 0;
    while index < GRID_LENGTH
        invariant
            index <= GRID_LENGTH,
            grid_wf(grid@),
            grid@ == gravity_pass_spec(old(grid)@, old(speaker).requests@, index as nat).0,
            speaker.requests@ == gravity_pass_spec(
                old(grid)@,
                old(speaker).requests@,
                index as nat,
            ).1,
        decreases GRID_LENGTH - index,
    {
        let moved = gravity_for_cell(grid, index, speaker);
        index = index + 1;
    }
}

} // verus!
