//! Grid cell states and half-hexagon appearance codes.

use vstd::prelude::*;
use crate::render::BLACK;
use crate::render::palette;
use crate::render::palette_spec;

verus! {

/// Appearance code of one half-hexagon: an inner colour index in the low
/// nibble and an outline colour index in the high nibble.  Colour lookups
/// mask the code so that the "black" sentinel palette entry is never used.
pub type HalfHexSpec = u8;

/// One board cell: empty, holding a settled half-hexagon, or temporarily
/// vacated because its former content is mid-flight in the animation set.
#[derive(Copy, Clone, PartialEq, Eq, Structural, Debug)]
pub enum GridCell<T> {
    Absent,
    Present(T),
    Animating,
}

impl<T> GridCell<T> {
    pub fn is_present(&self) -> (r: bool)
        ensures
            r == (self is Present),
    {
        match self {
            GridCell::Present(_) => true,
            _ => false,
        }
    }

    pub fn is_absent(&self) -> (r: bool)
        ensures
            r == (self is Absent),
    {
        match self {
            GridCell::Absent => true,
            _ => false,
        }
    }

    pub fn is_animating(&self) -> (r: bool)
        ensures
            r == (self is Animating),
    {
        match self {
            GridCell::Animating => true,
            _ => false,
        }
    }

    pub fn map<U, F: FnOnce(T) -> U>(self, f: F) -> (r: GridCell<U>)
        requires
            self matches GridCell::Present(x) ==> call_requires(f, (x,)),
        ensures
            self is Absent ==> r is Absent,
            self is Animating ==> r is Animating,
            self matches GridCell::Present(x) ==> (r matches GridCell::Present(y)
                && call_ensures(f, (x,), y)),
    {
        match self {
            GridCell::Present(x) => GridCell::Present(f(x)),
            GridCell::Absent => GridCell::Absent,
            GridCell::Animating => GridCell::Animating,
        }
    }

    pub fn and_then<U, F: FnOnce(T) -> GridCell<U>>(self, f: F) -> (r: GridCell<U>)
        requires
            self matches GridCell::Present(x) ==> call_requires(f, (x,)),
        ensures
            self is Absent ==> r is Absent,
            self is Animating ==> r is Animating,
            self matches GridCell::Present(x) ==> call_ensures(f, (x,), r),
    {
        match self {
            GridCell::Present(x) => f(x),
            GridCell::Absent => GridCell::Absent,
            GridCell::Animating => GridCell::Animating,
        }
    }
}

/// Inner palette index of an appearance code, after masking out the bit
/// pattern of the "black" sentinel.
pub open spec fn inner_colour_index(code: HalfHexSpec) -> u8 {
    (code & 0b0011_0011) & 0b111
}

/// Outline palette index of an appearance code, after the same masking.
pub open spec fn outline_colour_index(code: HalfHexSpec) -> u8 {
    (code & 0b0011_0011) >> 4
}

/// The (inner, outline) colour pair of an appearance code.
pub open spec fn colours_of(code: HalfHexSpec) -> (u32, u32) {
    (palette_spec(inner_colour_index(code) as int), palette_spec(outline_colour_index(code) as int))
}

/// The masked colour indices stay in the low quarter of the palette, so a
/// half-hexagon never resolves to the "black" sentinel entry.
pub proof fn lemma_colour_indices_small(code: HalfHexSpec)
    ensures
        inner_colour_index(code) <= 3,
        outline_colour_index(code) <= 3,
{
    assert((code & 0b0011_0011) & 0b111 <= 3 && (code & 0b0011_0011) >> 4 <= 3) by (bit_vector);
}

/// The (inner fill, outline) colours of a half-hexagon with the given
/// appearance code; the masking cuts out the "black" palette entry.
pub fn get_colours(code: HalfHexSpec) -> (r: (u32, u32))
    ensures
        r == colours_of(code),
        r.0 != BLACK && r.1 != BLACK,
{
    let masked = code & 0b0011_0011;
    proof {
        lemma_colour_indices_small(code);
    }
    (palette(masked & 0b111), palette(masked >> 4))
}

} // verus!
