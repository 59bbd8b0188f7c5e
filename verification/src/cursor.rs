//! The selection cursor: one highlighted cell, or an anchored pick plus a
//! moving second pick.

use vstd::prelude::*;
use crate::layout::Dir;
use crate::layout::GRID_LENGTH;
use crate::layout::get_hex_index;
use crate::layout::hex_neighbor;

verus! {

/// The cursor after one Move action in direction `d`: the active index
/// steps to its neighbor when that neighbor exists, else nothing happens.
pub open spec fn moved_cursor(cur: Cursor, d: Dir) -> Cursor {
    match hex_neighbor(cur.active_index(), d) {
        Some(n) => cur.replace_active(n as usize),
        None => cur,
    }
}

#[derive(Clone, Copy, PartialEq, Eq, Structural, Debug)]
pub enum Cursor {
    Unselected(usize),
    Selected(usize, usize),
}

impl Cursor {
    /// The index that Move actions displace: the single pick, or the second
    /// pick while an anchor is held.
    pub open spec fn active_index(self) -> int {
        match self {
            Cursor::Unselected(c) => c as int,
            Cursor::Selected(_, c2) => c2 as int,
        }
    }

    /// Every held index lies on the board.
    pub open spec fn wf(self) -> bool {
        match self {
            Cursor::Unselected(c) => c < GRID_LENGTH,
            Cursor::Selected(c1, c2) => c1 < GRID_LENGTH && c2 < GRID_LENGTH,
        }
    }

    /// The cursor with its active index replaced and its anchor (if any) kept.
    pub open spec fn replace_active(self, n: usize) -> Cursor {
        match self {
            Cursor::Unselected(_) => Cursor::Unselected(n),
            Cursor::Selected(c1, _) => Cursor::Selected(c1, n),
        }
    }

    /// Displace the active index by a raw offset, with wraparound.
    pub fn wrapping_add(self, other: usize) -> (r: Cursor)
        ensures
            self matches Cursor::Unselected(c) ==> r == Cursor::Unselected(c.wrapping_add(other)),
            self matches Cursor::Selected(c1, c2) ==> r == Cursor::Selected(
                c1,
                c2.wrapping_add(other),
            ),
    {
        match self {
            Cursor::Unselected(c) => Cursor::Unselected(c.wrapping_add(other)),
            Cursor::Selected(c1, c2) => Cursor::Selected(c1, c2.wrapping_add(other)),
        }
    }

    /// The active index as a plain value.
    pub fn num(self) -> (r: usize)
        ensures
            r as int == self.active_index(),
    {
        match self {
            Cursor::Unselected(c) => c,
            Cursor::Selected(_, c2) => c2,
        }
    }

    /// The highlighted indices, in order: one when unselected, two when an
    /// anchor is held.
    pub fn iter(&self) -> (r: Vec<usize>)
        ensures
            (*self) matches Cursor::Unselected(c) ==> r@ =~= seq![c],
            (*self) matches Cursor::Selected(c1, c2) ==> r@ =~= seq![c1, c2],
    {
        match *self {
            Cursor::Unselected(c) => {
                let mut v = Vec::new();
                v.push(c);
                v
            },
            Cursor::Selected(c1, c2) => {
                let mut v = Vec::new();
                v.push(c1);
                v.push(c2);
                v
            },
        }
    }

    /// One Move action: the active index steps to its neighbor in `dir` when
    /// that neighbor exists; an invalid move is ignored.  The active index
    /// therefore always stays on the board.
    pub fn move_active(self, dir: Dir) -> (r: Cursor)
        requires
            self.wf(),
        ensures
            r.wf(),
            r == moved_cursor(self, dir),
            hex_neighbor(self.active_index(), dir) matches Some(n) ==> r == self.replace_active(
                n as usize,
            ),
            hex_neighbor(self.active_index(), dir) is None ==> r == self,
            self matches Cursor::Selected(c1, _) ==> (r matches Cursor::Selected(d1, _) && c1
                == d1),
            self matches Cursor::Unselected(_) ==> r is Unselected,
    {
        match get_hex_index(self.num(), dir) {
            Some(n) => match self {
                Cursor::Unselected(_) => Cursor::Unselected(n),
                Cursor::Selected(c1, _) => Cursor::Selected(c1, n),
            },
            None => self,
        }
    }
}

} // verus!
