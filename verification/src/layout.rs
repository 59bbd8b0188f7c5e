//! Coordinate math for the brick-offset hexagonal grid.
//!
//! The board is a `GRID_WIDTH` x `GRID_HEIGHT` array addressed by
//! `index = y * GRID_WIDTH + x`.  The staggered layout gives three distinct
//! row phase-types (`y % 3`) crossed with column parity (`x % 2`); a fixed
//! table of 24 signed offsets maps `(row type, parity, direction)` to the
//! linear index delta of a move.  A move is committed only when it does not
//! wrap around a row boundary.

use vstd::prelude::*;
use vstd::arithmetic::div_mod::lemma_fundamental_div_mod;
use vstd::arithmetic::div_mod::lemma_fundamental_div_mod_converse;

verus! {

pub const GRID_WIDTH: u8 = 40;

pub const GRID_HEIGHT: u8 = 60;

/// GRID_WIDTH * GRID_HEIGHT
pub const GRID_LENGTH: usize = 2400;

pub const ROW_TYPES: u8 = 3;

pub const HEX_WIDTH: u8 = 4;

pub const HEX_HEIGHT: u8 = 8;

/// HEX_HEIGHT / 2
pub const HALF_HEX_HEIGHT: u8 = 4;

pub const EDGE_OFFSET: u8 = 6;

#[derive(Clone, Copy, PartialEq, Eq, Structural, Debug)]
pub enum Dir {
    Up,
    Down,
    Left,
    Right,
}

pub open spec fn opposite_dir(d: Dir) -> Dir {
    match d {
        Dir::Up => Dir::Down,
        Dir::Down => Dir::Up,
        Dir::Left => Dir::Right,
        Dir::Right => Dir::Left,
    }
}

pub fn opposite(d: Dir) -> (r: Dir)
    ensures
        r == opposite_dir(d),
{
    match d {
        Dir::Up => Dir::Down,
        Dir::Down => Dir::Up,
        Dir::Left => Dir::Right,
        Dir::Right => Dir::Left,
    }
}

/// Column delta of one move, given the row type (`y % 3`) and column parity
/// (`x % 2`).  Every move shifts the column by exactly one.
pub open spec fn dir_dx(rt: int, par: int, d: Dir) -> int {
    if par == 0 {
        match d {
            Dir::Up => if rt == 0 { -1 } else { 1 },
            Dir::Down => if rt == 0 { -1 } else { 1 },
            Dir::Left => if rt == 2 { 1 } else { -1 },
            Dir::Right => 1,
        }
    } else {
        match d {
            Dir::Up => if rt == 2 { 1 } else { -1 },
            Dir::Down => if rt == 2 { 1 } else { -1 },
            Dir::Left => -1,
            Dir::Right => if rt == 0 { -1 } else { 1 },
        }
    }
}

/// Row delta of one move, given the row type and column parity.
pub open spec fn dir_dy(rt: int, par: int, d: Dir) -> int {
    if par == 0 {
        match d {
            Dir::Up => -1,
            Dir::Down => 2,
            Dir::Left => 1,
            Dir::Right => 0,
        }
    } else {
        match d {
            Dir::Up => -2,
            Dir::Down => 1,
            Dir::Left => 0,
            Dir::Right => -1,
        }
    }
}

/// The 24-entry offset table: linear index delta of one move.
pub open spec fn movement_offset_spec(rt: int, par: int, d: Dir) -> int {
    if par == 0 {
        match d {
            Dir::Up => if rt == 0 { -41 } else { -39 },
            Dir::Down => if rt == 0 { 79 } else { 81 },
            Dir::Left => if rt == 2 { 41 } else { 39 },
            Dir::Right => 1,
        }
    } else {
        match d {
            Dir::Up => if rt == 2 { -79 } else { -81 },
            Dir::Down => if rt == 2 { 41 } else { 39 },
            Dir::Left => -1,
            Dir::Right => if rt == 0 { -41 } else { -39 },
        }
    }
}

/// Each table entry is the linear form of a unit column step plus a bounded
/// row step.
proof fn lemma_offset_is_delta(rt: int, par: int, d: Dir)
    requires
        0 <= rt < 3,
        0 <= par < 2,
    ensures
        movement_offset_spec(rt, par, d) == 40 * dir_dy(rt, par, d) + dir_dx(rt, par, d),
        dir_dx(rt, par, d) == 1 || dir_dx(rt, par, d) == -1,
        -2 <= dir_dy(rt, par, d) <= 2,
{
}

pub fn i_to_xy(i: usize) -> (r: (u8, u8))
    requires
        i < GRID_LENGTH,
    ensures
        r.0 as int == i as int % 40,
        r.1 as int == i as int / 40,
{
    ((i % (GRID_WIDTH as usize)) as u8, (i / (GRID_WIDTH as usize)) as u8)
}

pub fn xy_to_i(x: u8, y: u8) -> (r: usize)
    ensures
        r as int == y as int * 40 + x as int,
{
    let w: usize = GRID_WIDTH as usize;
    assert(w == 40);
    y as usize * w + x as usize
}

pub fn get_movement_offset(x: u8, y: u8, dir: Dir) -> (r: i8)
    ensures
        r as int == movement_offset_spec(y as int % 3, x as int % 2, dir),
{
    let rt = y % ROW_TYPES;
    if x % 2 == 0 {
        match dir {
            Dir::Up => if rt == 0 { -41 } else { -39 },
            Dir::Down => if rt == 0 { 79 } else { 81 },
            Dir::Left => if rt == 2 { 41 } else { 39 },
            Dir::Right => 1,
        }
    } else {
        match dir {
            Dir::Up => if rt == 2 { -79 } else { -81 },
            Dir::Down => if rt == 2 { 41 } else { 39 },
            Dir::Left => -1,
            Dir::Right => if rt == 0 { -41 } else { -39 },
        }
    }
}

/// Whether `index` is accepted as the destination of a move that started in
/// column `x`: it must lie on the board, and the move must not jump between
/// column 0 and the last column (which would wrap around a row boundary).
pub fn is_index_next_to(x: u8, _y: u8, index: usize) -> (r: bool)
    ensures
        r == (index < GRID_LENGTH && !((x == 0 && index as int % 40 == 39) || (
        x == 39 && index as int % 40 == 0))),
{
    if index < GRID_LENGTH {
        let width = GRID_WIDTH as usize;
        let new_x = index % width;
        let looped = (x == 0 && new_x == width - 1) || (x as usize == width - 1 && new_x == 0);
        if !looped {
            return true;
        }
    }
    false
}

/// Top-left pixel position of the half-hexagon at grid cell `(x, y)`: the
/// row phase shifts each row sideways, and right halves sit two pixels left
/// of where a left half would.
pub fn p_xy(x: u8, y: u8) -> (r: (u8, u8))
    requires
        x < 40,
        y < 60,
    ensures
        r.0 as int == x as int * 6 + (y as int % 3) * 4 + (if x as int % 2 == 0 {
            6int
        } else {
            4int
        }),
        r.1 as int == y as int * 4 + 6,
        r.0 >= 4,
        r.1 >= 6,
{
    let rt = y % ROW_TYPES;
    assert(HEX_WIDTH == 4 && EDGE_OFFSET == 6 && HALF_HEX_HEIGHT == 4);
    let x_offset = rt * HEX_WIDTH;
    if x % 2 == 0 {
        (x * 6 + x_offset + EDGE_OFFSET, y * HALF_HEX_HEIGHT + EDGE_OFFSET)
    } else {
        (x * 6 + x_offset - 2 + EDGE_OFFSET, y * HALF_HEX_HEIGHT + EDGE_OFFSET)
    }
}

/// The neighbor of cell `i` in direction `d`: the coordinate move given by
/// the offset table, accepted only when it stays on the board.
pub open spec fn hex_neighbor(i: int, d: Dir) -> Option<int> {
    let x = i % 40;
    let y = i / 40;
    let dx = dir_dx(y % 3, x % 2, d);
    let dy = dir_dy(y % 3, x % 2, d);
    if 0 <= x + dx < 40 && 0 <= y + dy < 60 {
        Some((y + dy) * 40 + (x + dx))
    } else {
        None
    }
}

pub fn get_hex_index(index: usize, dir: Dir) -> (r: Option<usize>)
    requires
        index < GRID_LENGTH,
    ensures
        match r {
            Some(n) => hex_neighbor(index as int, dir) == Some(n as int) && n < GRID_LENGTH,
            None => hex_neighbor(index as int, dir) is None,
        },
{
    let (x, y) = i_to_xy(index);
    let offset = get_movement_offset(x, y, dir);
    proof {
        lemma_fundamental_div_mod(index as int, 40);
        lemma_offset_is_delta(y as int % 3, x as int % 2, dir);
    }
    let ghost dx = dir_dx(y as int % 3, x as int % 2, dir);
    let ghost dy = dir_dy(y as int % 3, x as int % 2, dir);
    let ghost u = x as int + dx;
    let ghost v = y as int + dy;
    let new_index: usize = if offset >= 0 {
        index + (offset as usize)
    } else {
        let mag = (-offset) as usize;
        if index >= mag {
            index - mag
        } else {
            proof {
                assert(40 * v + u < 0);
                if 0 <= u < 40 && 0 <= v < 60 {
                    assert(40 * v >= 0);
                }
            }
            return None;
        }
    };
    proof {
        assert(new_index as int == 40 * v + u);
        if 0 <= u < 40 {
            lemma_fundamental_div_mod_converse(new_index as int, 40, v, u);
            assert(new_index as int % 40 == u);
            assert(!((x == 0 && u == 39) || (x == 39 && u == 0)));
        } else if u == -1 {
            assert(x == 0);
            lemma_fundamental_div_mod_converse(new_index as int, 40, v - 1, 39);
            assert(new_index as int % 40 == 39);
        } else {
            assert(u == 40 && x == 39);
            lemma_fundamental_div_mod_converse(new_index as int, 40, v + 1, 0);
            assert(new_index as int % 40 == 0);
        }
    }
    if is_index_next_to(x, y, new_index) {
        Some(new_index)
    } else {
        None
    }
}

/// Adjacency is symmetric: whenever a move from `i` in direction `d` yields a
/// neighbor `j`, the move from `j` in the opposite direction yields `i` back.
pub proof fn lemma_adjacency_symmetric(i: int, d: Dir)
    requires
        0 <= i < 2400,
        hex_neighbor(i, d) is Some,
    ensures
        hex_neighbor(hex_neighbor(i, d)->0, opposite_dir(d)) == Some(i),
{
    let x = i % 40;
    let y = i / 40;
    let dx = dir_dx(y % 3, x % 2, d);
    let dy = dir_dy(y % 3, x % 2, d);
    let j = (y + dy) * 40 + (x + dx);
    lemma_fundamental_div_mod(i, 40);
    lemma_fundamental_div_mod_converse(j, 40, y + dy, x + dx);
    assert(j % 40 == x + dx && j / 40 == y + dy);
    lemma_fundamental_div_mod(x, 2);
    if x % 2 == 0 {
        if dx == 1 {
            lemma_fundamental_div_mod_converse(x + dx, 2, x / 2, 1);
        } else {
            lemma_fundamental_div_mod_converse(x + dx, 2, x / 2 - 1, 1);
        }
    } else {
        if dx == 1 {
            lemma_fundamental_div_mod_converse(x + dx, 2, x / 2 + 1, 0);
        } else {
            lemma_fundamental_div_mod_converse(x + dx, 2, x / 2, 0);
        }
    }
    assert((x + dx) % 2 == 1 - x % 2);
    lemma_fundamental_div_mod(y, 3);
    let r0 = y % 3 + dy;
    if 0 <= r0 < 3 {
        lemma_fundamental_div_mod_converse(y + dy, 3, y / 3, r0);
    } else if r0 < 0 {
        lemma_fundamental_div_mod_converse(y + dy, 3, y / 3 - 1, r0 + 3);
    } else {
        lemma_fundamental_div_mod_converse(y + dy, 3, y / 3 + 1, r0 - 3);
    }
    let rt2 = (y + dy) % 3;
    assert(dir_dx(rt2, (x + dx) % 2, opposite_dir(d)) == -dx && dir_dy(
        rt2,
        (x + dx) % 2,
        opposite_dir(d),
    ) == -dy);
    assert(hex_neighbor(j, opposite_dir(d)) == Some((y * 40 + x) as int));
}

/// Moving Left from column 0, or Right from the last column, never yields a
/// neighbor on the opposite edge.
pub proof fn lemma_no_wraparound(i: int)
    requires
        0 <= i < 2400,
    ensures
        i % 40 == 0 && hex_neighbor(i, Dir::Left) is Some ==> hex_neighbor(i, Dir::Left)->0 % 40
            != 39,
        i % 40 == 39 && hex_neighbor(i, Dir::Right) is Some ==> hex_neighbor(i, Dir::Right)->0 % 40
            != 0,
{
    let x = i % 40;
    let y = i / 40;
    if x == 0 && hex_neighbor(i, Dir::Left) is Some {
        let dx = dir_dx(y % 3, x % 2, Dir::Left);
        let dy = dir_dy(y % 3, x % 2, Dir::Left);
        let j = (y + dy) * 40 + (x + dx);
        lemma_fundamental_div_mod_converse(j, 40, y + dy, x + dx);
    }
    if x == 39 && hex_neighbor(i, Dir::Right) is Some {
        let dx = dir_dx(y % 3, x % 2, Dir::Right);
        let dy = dir_dy(y % 3, x % 2, Dir::Right);
        let j = (y + dy) * 40 + (x + dx);
        lemma_fundamental_div_mod_converse(j, 40, y + dy, x + dx);
    }
}

} // verus!
