//! Pixel-level drawing onto a fixed-size frame buffer.
//!
//! Colours are packed as `red | green << 8 | blue << 16 | alpha << 24`.
//! The sprite sheet and the font sheet are palette-index bitmaps held by the
//! frame buffer; the host loads their data at startup.

use vstd::prelude::*;
use vstd::math::min;

verus! {

pub const SCREEN_WIDTH: usize = 256;

pub const SCREEN_HEIGHT: usize = 256;

/// SCREEN_WIDTH * SCREEN_HEIGHT
pub const SCREEN_LENGTH: usize = 65536;

pub const BLUE: u32 = 0xFF_E1_52_33;

pub const GREEN: u32 = 0xFF_6E_B0_30;

pub const RED: u32 = 0xFF_49_49_DE;

pub const YELLOW: u32 = 0xFF_37_B9_FF;

pub const PURPLE: u32 = 0xFF_54_33_53;

pub const GREY: u32 = 0xFF_8B_7D_5A;

pub const WHITE: u32 = 0xFF_EE_EE_EE;

pub const BLACK: u32 = 0xFF_22_22_22;

/// The fixed eight-entry colour palette; entry 7 is the "black" sentinel.
pub open spec fn palette_spec(i: int) -> u32 {
    if i == 0 {
        BLUE
    } else if i == 1 {
        GREEN
    } else if i == 2 {
        RED
    } else if i == 3 {
        YELLOW
    } else if i == 4 {
        PURPLE
    } else if i == 5 {
        GREY
    } else if i == 6 {
        WHITE
    } else {
        BLACK
    }
}

pub fn palette(i: u8) -> (r: u32)
    ensures
        r == palette_spec(i as int),
{
    match i {
        0 => BLUE,
        1 => GREEN,
        2 => RED,
        3 => YELLOW,
        4 => PURPLE,
        5 => GREY,
        6 => WHITE,
        _ => BLACK,
    }
}

pub const GFX_WIDTH: u8 = 128;

pub const GFX_HEIGHT: u8 = 128;

/// GFX_WIDTH * GFX_HEIGHT
pub const GFX_LENGTH: usize = 16384;

pub const FONT_WIDTH: u8 = 128;

/// FONT_WIDTH * FONT_WIDTH
pub const FONT_LENGTH: usize = 16384;

pub const SPRITE_SIZE: u8 = 8;

/// GFX_WIDTH / SPRITE_SIZE
pub const SPRITES_PER_ROW: u8 = 16;

pub const FONT_SIZE: u8 = 8;

pub const FONT_ADVANCE: u8 = 4;

/// The render target plus the two palette-index sheets (sprites and font)
/// that blitting reads from.
pub struct Framebuffer {
    pub buffer: Vec<u32>,
    pub gfx: Vec<u8>,
    pub font: Vec<u8>,
}

/// Colour kind of one pixel of the hexagon stencil at `(hex_x, hex_y)`:
/// 1 inside, 2 on the outline, 0 outside.
pub open spec fn hexagon_shape_spec(hex_x: int, hex_y: int) -> u8 {
    if hex_y == 0 {
        if hex_x >= 4 {
            2
        } else {
            0
        }
    } else if hex_y == 1 {
        if hex_x == 3 || hex_x == 7 {
            2
        } else if hex_x > 3 {
            1
        } else {
            0
        }
    } else if hex_y == 2 {
        if hex_x == 2 || hex_x == 7 {
            2
        } else if hex_x > 2 {
            1
        } else {
            0
        }
    } else if hex_y == 3 {
        if hex_x == 1 || hex_x == 7 {
            2
        } else if hex_x > 1 {
            1
        } else {
            0
        }
    } else if hex_y == 4 {
        if hex_x == 0 || hex_x == 6 {
            2
        } else if hex_x < 6 {
            1
        } else {
            0
        }
    } else if hex_y == 5 {
        if hex_x == 0 || hex_x == 5 {
            2
        } else if hex_x < 5 {
            1
        } else {
            0
        }
    } else if hex_y == 6 {
        if hex_x == 0 || hex_x == 4 {
            2
        } else if hex_x < 4 {
            1
        } else {
            0
        }
    } else {
        if hex_x <= 3 {
            2
        } else {
            0
        }
    }
}

/// The hexagon stencil, row by row.
pub fn hexagon_shape(hex_x: u8, hex_y: u8) -> (r: u8)
    requires
        hex_x < 8,
        hex_y < 8,
    ensures
        r == hexagon_shape_spec(hex_x as int, hex_y as int),
{
    match hex_y {
        0 => if hex_x >= 4 {
            2
        } else {
            0
        },
        1 => if hex_x == 3 || hex_x == 7 {
            2
        } else if hex_x > 3 {
            1
        } else {
            0
        },
        2 => if hex_x == 2 || hex_x == 7 {
            2
        } else if hex_x > 2 {
            1
        } else {
            0
        },
        3 => if hex_x == 1 || hex_x == 7 {
            2
        } else if hex_x > 1 {
            1
        } else {
            0
        },
        4 => if hex_x == 0 || hex_x == 6 {
            2
        } else if hex_x < 6 {
            1
        } else {
            0
        },
        5 => if hex_x == 0 || hex_x == 5 {
            2
        } else if hex_x < 5 {
            1
        } else {
            0
        },
        6 => if hex_x == 0 || hex_x == 4 {
            2
        } else if hex_x < 4 {
            1
        } else {
            0
        },
        _ => if hex_x <= 3 {
            2
        } else {
            0
        },
    }
}

/// Resolve a stencil pixel kind to a colour: 1 is the interior, 2 the
/// outline, anything else transparent.
pub open spec fn hexagon_match_spec(kind: u8, interior: u32, outline: u32) -> u32 {
    if kind == 1 {
        interior
    } else if kind == 2 {
        outline
    } else {
        0
    }
}

/// Linear index of the buffer pixel that stencil cell `(hx, hy)` of a block
/// at `(x, y)` lands on, under wrapping pixel coordinates.
pub open spec fn hex_pixel_index(x: int, y: int, hx: int, hy: int) -> int {
    ((y + hy) % 256) * 256 + ((x + hx) % 256)
}

/// Whether linear pixel index `i` lies in the 8-pixel-tall block at `(x, y)`
/// spanning stencil columns `[c0, c1)`, under wrapping pixel coordinates.
pub open spec fn in_hex_block(i: int, x: int, y: int, c0: int, c1: int) -> bool {
    exists|hx: int, hy: int|
        c0 <= hx < c1 && 0 <= hy < 8 && i == #[trigger] hex_pixel_index(x, y, hx, hy)
}

/// Whether pixel index `i` lies within `margin` of `(x_mid, y_mid)` in both
/// axes: the square every write of a circle of that reach stays inside.
pub open spec fn in_square(i: int, x_mid: int, y_mid: int, margin: int) -> bool {
    x_mid - margin <= i % 256 <= x_mid + margin && y_mid - margin <= i / 256 <= y_mid + margin
}

/// Phase of the animated cursor highlight, changing every eight frames.
pub open spec fn ants_offset(frame_counter: usize) -> usize {
    let m = frame_counter & 0b1_1000;
    if m == 0 {
        0
    } else if m == 0b0_1000 {
        1
    } else if m == 0b1_0000 {
        2
    } else {
        3
    }
}

/// Colour of the animated ("marching ants") cursor highlight at pixel
/// `(x, y)`: diagonal stripes alternating between yellow and purple.
pub fn marching_ants(frame_counter: usize, x: usize, y: usize) -> (c: u32)
    requires
        x + y + 3 <= usize::MAX,
    ensures
        c == if (x + y + ants_offset(frame_counter)) as usize & 2 == 0 {
            YELLOW
        } else {
            PURPLE
        },
{
    let offset: usize = match frame_counter & 0b1_1000 {
        0 => 0,
        0b0_1000 => 1,
        0b1_0000 => 2,
        _ => 3,
    };
    if (x + y + offset) & 2 == 0 {
        YELLOW
    } else {
        PURPLE
    }
}

impl Framebuffer {
    /// The render target has its fixed size and both sheets are complete.
    pub open spec fn wf(self) -> bool {
        &&& self.buffer@.len() == SCREEN_LENGTH
        &&& self.gfx@.len() == GFX_LENGTH
        &&& self.font@.len() == FONT_LENGTH
    }

    pub fn new() -> (r: Framebuffer)
        ensures
            r.wf(),
            forall|i: int| 0 <= i < SCREEN_LENGTH ==> r.buffer@[i] == palette_spec(0),
            forall|i: int| 0 <= i < GFX_LENGTH ==> r.gfx@[i] == 0,
            forall|i: int| 0 <= i < FONT_LENGTH ==> r.font@[i] == 0,
    {
        let mut buffer: Vec<u32> = Vec::new();
        let mut i: usize = 0;
        while i < SCREEN_LENGTH
            invariant
                i == buffer@.len() <= SCREEN_LENGTH,
                forall|j: int| 0 <= j < i ==> buffer@[j] == palette_spec(0),
            decreases SCREEN_LENGTH - i,
        {
            buffer.push(BLUE);
            i = i + 1;
        }
        let mut gfx: Vec<u8> = Vec::new();
        let mut font: Vec<u8> = Vec::new();
        let mut k: usize = 0;
        while k < GFX_LENGTH
            invariant
                k == gfx@.len() <= GFX_LENGTH,
                k == font@.len(),
                forall|j: int| 0 <= j < k ==> gfx@[j] == 0 && font@[j] == 0,
            decreases GFX_LENGTH - k,
        {
            gfx.push(0);
            font.push(0);
            k = k + 1;
        }
        Framebuffer { buffer, gfx, font }
    }

    /// Whether two render targets show the same pixels.
    pub open spec fn same_pixels(self, other: Framebuffer) -> bool {
        self.buffer@ == other.buffer@
    }

    /// Replace the sprite sheet.
    pub fn set_gfx(&mut self, data: Vec<u8>)
        requires
            data@.len() == GFX_LENGTH,
        ensures
            final(self).gfx == data,
            final(self).buffer == old(self).buffer,
            final(self).font == old(self).font,
    {
        self.gfx = data;
    }

    /// Replace the font sheet.
    pub fn set_font(&mut self, data: Vec<u8>)
        requires
            data@.len() == FONT_LENGTH,
        ensures
            final(self).font == data,
            final(self).buffer == old(self).buffer,
            final(self).gfx == old(self).gfx,
    {
        self.font = data;
    }

    /// Linear index of pixel `(x, y)`, saturating instead of overflowing.
    pub fn xy_to_i(x: usize, y: usize) -> (r: usize)
        ensures
            r == min(y * 256 + x, usize::MAX as int),
    {
        let row = if y <= usize::MAX / 256 {
            y * 256
        } else {
            usize::MAX
        };
        if row <= usize::MAX - x {
            row + x
        } else {
            usize::MAX
        }
    }

    pub fn clear(&mut self)
        requires
            old(self).wf(),
        ensures
            final(self).wf(),
            forall|i: int| 0 <= i < SCREEN_LENGTH ==> final(self).buffer@[i] == 0,
            final(self).gfx == old(self).gfx,
            final(self).font == old(self).font,
    {
        self.clear_to(0);
    }

    /// Fill the whole render target with one colour.
    pub fn clear_to(&mut self, colour: u32)
        requires
            old(self).wf(),
        ensures
            final(self).wf(),
            forall|i: int| 0 <= i < SCREEN_LENGTH ==> final(self).buffer@[i] == colour,
            final(self).gfx == old(self).gfx,
            final(self).font == old(self).font,
    {
        let mut i: usize = 0;
        let end = self.buffer.len();
        while i < end
            invariant
                end == self.buffer@.len() == SCREEN_LENGTH,
                self.gfx == old(self).gfx,
                self.font == old(self).font,
                forall|j: int| 0 <= j < i ==> self.buffer@[j] == colour,
            decreases end - i,
        {
            self.buffer.set(i, colour);
            i = i + 1;
        }
    }

    /// Stamp one stencil pixel of a hexagon whose top-left pixel is `(x, y)`:
    /// interior and outline pixels are written, transparent ones leave the
    /// buffer unchanged.
    pub fn hexagon_set_pixel(&mut self, x: u8, y: u8, hex_x: u8, hex_y: u8, interior: u32, outline: u32)
        requires
            old(self).wf(),
            hex_x < 8,
            hex_y < 8,
        ensures
            final(self).wf(),
            final(self).gfx == old(self).gfx,
            final(self).font == old(self).font,
            ({
                let c = hexagon_match_spec(
                    hexagon_shape_spec(hex_x as int, hex_y as int),
                    interior,
                    outline,
                );
                let idx = hex_pixel_index(x as int, y as int, hex_x as int, hex_y as int);
                if c > 0 {
                    final(self).buffer@ == old(self).buffer@.update(idx, c)
                } else {
                    final(self).buffer == old(self).buffer
                }
            }),
    {
        let kind = hexagon_shape(hex_x, hex_y);
        let c = if kind == 1 {
            interior
        } else if kind == 2 {
            outline
        } else {
            0
        };
        if c > 0 {
            let px = x.wrapping_add(hex_x) as usize;
            let py = y.wrapping_add(hex_y) as usize;
            let i = Framebuffer::xy_to_i(px, py);
            self.buffer.set(i, c);
        }
    }

    /// Public form of the stencil resolution used while stamping hexagons.
    pub fn hexagon_match(colour_spec: u8, interior: u32, outline: u32) -> (r: u32)
        ensures
            r == hexagon_match_spec(colour_spec, interior, outline),
    {
        match colour_spec {
            1 => interior,
            2 => outline,
            _ => 0,
        }
    }

    /// Stamp a whole hexagon; only its 8x8 block changes, and every changed
    /// pixel holds the interior or the outline colour.
    pub fn hexagon(&mut self, x: u8, y: u8, interior: u32, outline: u32)
        requires
            old(self).wf(),
        ensures
            final(self).wf(),
            final(self).gfx == old(self).gfx,
            final(self).font == old(self).font,
            forall|i: int|
                0 <= i < SCREEN_LENGTH ==> final(self).buffer@[i] == old(self).buffer@[i]
                    || (in_hex_block(i, x as int, y as int, 0, 8) && (final(self).buffer@[i]
                    == interior || final(self).buffer@[i] == outline)),
    {
        let mut hex_y: u8 = 0;
        while hex_y < 8
            invariant
                old(self).wf(),
                self.wf(),
                hex_y <= 8,
                self.gfx == old(self).gfx,
                self.font == old(self).font,
                forall|i: int|
                    0 <= i < SCREEN_LENGTH ==> self.buffer@[i] == old(self).buffer@[i] || (
                    in_hex_block(i, x as int, y as int, 0, 8) && (self.buffer@[i] == interior
                        || self.buffer@[i] == outline)),
            decreases 8 - hex_y,
        {
            let mut hex_x: u8 = 0;
            while hex_x < 8
                invariant
                    old(self).wf(),
                    self.wf(),
                    hex_x <= 8,
                    hex_y < 8,
                    self.gfx == old(self).gfx,
                    self.font == old(self).font,
                    forall|i: int|
                        0 <= i < SCREEN_LENGTH ==> self.buffer@[i] == old(self).buffer@[i] || (
                        in_hex_block(i, x as int, y as int, 0, 8) && (self.buffer@[i] == interior
                            || self.buffer@[i] == outline)),
                decreases 8 - hex_x,
            {
                self.hexagon_set_pixel(x, y, hex_x, hex_y, interior, outline);
                hex_x = hex_x + 1;
            }
            hex_y = hex_y + 1;
        }
    }

    /// Stamp the left half of a hexagon (stencil columns 0 to 3).
    pub fn hexagon_left(&mut self, x: u8, y: u8, interior: u32, outline: u32)
        requires
            old(self).wf(),
        ensures
            final(self).wf(),
            final(self).gfx == old(self).gfx,
            final(self).font == old(self).font,
            forall|i: int|
                0 <= i < SCREEN_LENGTH ==> final(self).buffer@[i] == old(self).buffer@[i]
                    || (in_hex_block(i, x as int, y as int, 0, 4) && (final(self).buffer@[i]
                    == interior || final(self).buffer@[i] == outline)),
    {
        let mut hex_y: u8 = 0;
        while hex_y < 8
            invariant
                old(self).wf(),
                self.wf(),
                hex_y <= 8,
                self.gfx == old(self).gfx,
                self.font == old(self).font,
                forall|i: int|
                    0 <= i < SCREEN_LENGTH ==> self.buffer@[i] == old(self).buffer@[i] || (
                    in_hex_block(i, x as int, y as int, 0, 4) && (self.buffer@[i] == interior
                        || self.buffer@[i] == outline)),
            decreases 8 - hex_y,
        {
            let mut hex_x: u8 = 0;
            while hex_x < 4
                invariant
                    old(self).wf(),
                    self.wf(),
                    hex_x <= 4,
                    hex_y < 8,
                    self.gfx == old(self).gfx,
                    self.font == old(self).font,
                    forall|i: int|
                        0 <= i < SCREEN_LENGTH ==> self.buffer@[i] == old(self).buffer@[i] || (
                        in_hex_block(i, x as int, y as int, 0, 4) && (self.buffer@[i] == interior
                            || self.buffer@[i] == outline)),
                decreases 4 - hex_x,
            {
                self.hexagon_set_pixel(x, y, hex_x, hex_y, interior, outline);
                hex_x = hex_x + 1;
            }
            hex_y = hex_y + 1;
        }
    }

    /// Stamp the right half of a hexagon (stencil columns 4 to 7).
    pub fn hexagon_right(&mut self, x: u8, y: u8, interior: u32, outline: u32)
        requires
            old(self).wf(),
        ensures
            final(self).wf(),
            final(self).gfx == old(self).gfx,
            final(self).font == old(self).font,
            forall|i: int|
                0 <= i < SCREEN_LENGTH ==> final(self).buffer@[i] == old(self).buffer@[i]
                    || (in_hex_block(i, x as int, y as int, 4, 8) && (final(self).buffer@[i]
                    == interior || final(self).buffer@[i] == outline)),
    {
        let mut hex_y: u8 = 0;
        while hex_y < 8
            invariant
                old(self).wf(),
                self.wf(),
                hex_y <= 8,
                self.gfx == old(self).gfx,
                self.font == old(self).font,
                forall|i: int|
                    0 <= i < SCREEN_LENGTH ==> self.buffer@[i] == old(self).buffer@[i] || (
                    in_hex_block(i, x as int, y as int, 4, 8) && (self.buffer@[i] == interior
                        || self.buffer@[i] == outline)),
            decreases 8 - hex_y,
        {
            let mut hex_x: u8 = 4;
            while hex_x < 8
                invariant
                    4 <= hex_x <= 8,
                    old(self).wf(),
                    self.wf(),
                    hex_y < 8,
                    self.gfx == old(self).gfx,
                    self.font == old(self).font,
                    forall|i: int|
                        0 <= i < SCREEN_LENGTH ==> self.buffer@[i] == old(self).buffer@[i] || (
                        in_hex_block(i, x as int, y as int, 4, 8) && (self.buffer@[i] == interior
                            || self.buffer@[i] == outline)),
                decreases 8 - hex_x,
            {
                self.hexagon_set_pixel(x, y, hex_x, hex_y, interior, outline);
                hex_x = hex_x + 1;
            }
            hex_y = hex_y + 1;
        }
    }

    /// Draw the animated cursor highlight: the outline of a `w` x `h`
    /// rectangle at `(x, y)` in the marching-ants stripe pattern.  Every
    /// changed pixel holds one of the two stripe colours.
    pub fn draw_marching_rect(&mut self, x: usize, y: usize, w: usize, h: usize, frame_counter: usize)
        requires
            old(self).wf(),
            x + w <= 65536,
            y + h <= 65536,
        ensures
            final(self).wf(),
            final(self).gfx == old(self).gfx,
            final(self).font == old(self).font,
            forall|i: int|
                0 <= i < SCREEN_LENGTH ==> final(self).buffer@[i] == old(self).buffer@[i]
                    || final(self).buffer@[i] == YELLOW || final(self).buffer@[i] == PURPLE,
    {
        if w == 0 || h == 0 {
            return ;
        }
        let one_past_right_edge = x + w;
        let one_past_bottom_edge = y + h;

        let mut current_y = y;
        while current_y < one_past_bottom_edge
            invariant
                old(self).wf(),
                self.wf(),
                x + w <= 65536,
                w >= 1,
                one_past_right_edge == x + w,
                self.gfx == old(self).gfx,
                self.font == old(self).font,
                forall|i: int|
                    0 <= i < SCREEN_LENGTH ==> self.buffer@[i] == old(self).buffer@[i]
                        || self.buffer@[i] == YELLOW || self.buffer@[i] == PURPLE,
            decreases one_past_bottom_edge - current_y,
        {
            let i = Framebuffer::xy_to_i(x, current_y);
            if i < self.buffer.len() {
                let c = marching_ants(frame_counter, x, current_y);
                self.buffer.set(i, c);
            }
            let i = Framebuffer::xy_to_i(one_past_right_edge - 1, current_y);
            if i < self.buffer.len() {
                let c = marching_ants(frame_counter, one_past_right_edge - 1, current_y);
                self.buffer.set(i, c);
            }
            current_y = current_y + 1;
        }

        let mut current_x = x;
        while current_x < one_past_right_edge
            invariant
                old(self).wf(),
                self.wf(),
                y + h <= 65536,
                h >= 1,
                one_past_bottom_edge == y + h,
                self.gfx == old(self).gfx,
                self.font == old(self).font,
                forall|i: int|
                    0 <= i < SCREEN_LENGTH ==> self.buffer@[i] == old(self).buffer@[i]
                        || self.buffer@[i] == YELLOW || self.buffer@[i] == PURPLE,
            decreases one_past_right_edge - current_x,
        {
            let i = Framebuffer::xy_to_i(current_x, y);
            if i < self.buffer.len() {
                let c = marching_ants(frame_counter, current_x, y);
                self.buffer.set(i, c);
            }
            let i = Framebuffer::xy_to_i(current_x, one_past_bottom_edge - 1);
            if i < self.buffer.len() {
                let c = marching_ants(frame_counter, current_x, one_past_bottom_edge - 1);
                self.buffer.set(i, c);
            }
            current_x = current_x + 1;
        }
    }
}

/// Whether pixel index `i` lies in the filled rectangle at `(x, y)` of size
/// `w` x `h` (rows `cy_end` on capped, for partial progress).
pub open spec fn in_rect_rows(i: int, x: int, w: int, y: int, cy_end: int) -> bool {
    x <= i % 256 < x + w && y <= i / 256 < cy_end
}

/// Whether pixel index `i` lies on the outline of the `w` x `h` rectangle at
/// `(x, y)`.
pub open spec fn on_rect_border(i: int, x: int, w: int, y: int, h: int) -> bool {
    x <= i % 256 < x + w && y <= i / 256 < y + h && (i % 256 == x || i % 256 == x + w - 1 || i
        / 256 == y || i / 256 == y + h - 1)
}

/// The colour blend of `colour` over `background`, channel by channel, by
/// the colour's alpha; the result is opaque.
#[verifier::opaque]
pub open spec fn blend_spec(background: u32, colour: u32) -> u32 {
    let alpha = (colour >> 24) as int;
    let r = ((alpha + 1) * ((colour & 0xFF) as int) + (256 - alpha) * ((background
        & 0xFF) as int)) / 256;
    let g = ((alpha + 1) * (((colour & 0xFF_00) >> 8) as int) + (256 - alpha) * (((background
        & 0xFF_00) >> 8) as int)) / 256;
    let b = ((alpha + 1) * (((colour & 0xFF_00_00) >> 16) as int) + (256 - alpha) * (((background
        & 0xFF_00_00) >> 16) as int)) / 256;
    (r as u32) | ((g as u32) << 8) | ((b as u32) << 16) | 0xFF_00_00_00u32
}

pub fn get_sprite_xy(sprite_number: u8) -> (r: (u8, u8))
    ensures
        r.0 as int == (sprite_number as int % 16) * 8,
        r.1 as int == (sprite_number as int / 16) * 8,
        r.0 <= 120 && r.1 <= 120,
{
    ((sprite_number % SPRITES_PER_ROW) * SPRITE_SIZE, (sprite_number / SPRITES_PER_ROW)
        * SPRITE_SIZE)
}

pub fn get_char_xy(sprite_number: u8) -> (r: (u8, u8))
    ensures
        r.0 as int == (sprite_number as int % 16) * 8,
        r.1 as int == (sprite_number as int / 16) * 8,
        r.0 <= 120 && r.1 <= 120,
{
    let per_row: u8 = FONT_WIDTH / FONT_SIZE;
    assert(per_row == 16);
    ((sprite_number % per_row) * FONT_SIZE, (sprite_number / per_row) * FONT_SIZE)
}

#[derive(Clone, Copy, PartialEq, Eq, Structural, Debug)]
pub struct Rect {
    pub x: u8,
    pub y: u8,
    pub w: u8,
    pub h: u8,
}

impl Rect {
    pub fn point(&self) -> (r: (u8, u8))
        ensures
            r == (self.x, self.y),
    {
        (self.x, self.y)
    }

    pub fn dimensions(&self) -> (r: (u8, u8))
        ensures
            r == (self.w, self.h),
    {
        (self.w, self.h)
    }
}

/// The top-left point at which a single line of `text_length` characters
/// sits centered in `r` (clamped at the screen origin).
pub fn center_line_in_rect(text_length: u8, r: Rect) -> (p: (u8, u8))
    requires
        r.x + r.w / 2 <= 255,
        r.y + r.h / 2 <= 255,
    ensures
        p.0 as int == vstd::math::max(
            r.x as int + r.w as int / 2 - text_length as int * 4 / 2,
            0,
        ),
        p.1 as int == vstd::math::max(r.y as int + r.h as int / 2 - 4, 0),
{
    let middle_x = r.x + (r.w / 2);
    let middle_y = r.y + (r.h / 2);

    let advance: usize = FONT_ADVANCE as usize;
    let span = text_length as usize * advance / 2;
    let text_x = if middle_x as usize >= span {
        middle_x as usize - span
    } else {
        0
    };
    let half_font: usize = FONT_SIZE as usize / 2;
    let text_y = if middle_y as usize >= half_font {
        middle_y as usize - half_font
    } else {
        0
    };

    (text_x as u8, text_y as u8)
}

/// The top-left point at which a `w` x `h` box sits centered in `r`
/// (clamped at the screen origin).
pub fn center_rect_in_rect(dim: (u8, u8), r: Rect) -> (p: (u8, u8))
    requires
        r.x + r.w / 2 <= 255,
        r.y + r.h / 2 <= 255,
    ensures
        p.0 as int == vstd::math::max(r.x as int + r.w as int / 2 - dim.0 as int / 2, 0),
        p.1 as int == vstd::math::max(r.y as int + r.h as int / 2 - dim.1 as int / 2, 0),
{
    let (width, height) = dim;
    let middle_x = r.x + (r.w / 2);
    let middle_y = r.y + (r.h / 2);

    let left_x = if middle_x >= width / 2 {
        middle_x - width / 2
    } else {
        0
    };
    let top_y = if middle_y >= height / 2 {
        middle_y - height / 2
    } else {
        0
    };

    (left_x, top_y)
}

/// The widest line's length (as the byte it truncates to) over a line list.
pub open spec fn lines_max_len(ls: Seq<Seq<u8>>) -> u8
    decreases ls.len(),
{
    if ls.len() == 0 {
        0
    } else {
        let rest = lines_max_len(ls.drop_last());
        let cur = (ls.last().len() % 256) as u8;
        if cur > rest {
            cur
        } else {
            rest
        }
    }
}

/// Pixel width and height of a block of text: the widest line times the
/// character advance by the line count times the font size, each saturated.
pub fn get_text_dimensions(bytes: &[u8]) -> (dims: (u8, u8))
    ensures
        ({
            let ls = crate::text::lines_from(bytes@, 0);
            let w = lines_max_len(ls) as int * 4;
            let h = vstd::math::min(ls.len() as int, 255) * 8;
            dims.0 as int == vstd::math::min(w, 255) && dims.1 as int == vstd::math::min(h, 255)
        }),
{
    let lines = crate::text::bytes_lines(bytes);
    let ghost lseq = lines@.map_values(|v: Vec<u8>| v@);
    proof {
        assert(lseq.take(0) =~= Seq::<Seq<u8>>::empty());
    }
    let mut width: u8 = 0;
    let mut height: usize = 0;
    let mut k: usize = 0;
    while k < lines.len()
        invariant
            k <= lines@.len(),
            lseq == lines@.map_values(|v: Vec<u8>| v@),
            height == vstd::math::min(k as int, 255),
            width == lines_max_len(lseq.take(k as int)),
        decreases lines@.len() - k,
    {
        let line = &lines[k];
        proof {
            assert(lseq[k as int] == line@);
            assert(lseq.take(k as int + 1).drop_last() =~= lseq.take(k as int));
            assert(lseq.take(k as int + 1).last() == lseq[k as int]);
        }
        if height < 255 {
            height = height + 1;
        }
        let cur = (line.len() % 256) as u8;
        if cur > width {
            width = cur;
        }
        k = k + 1;
    }
    proof {
        assert(lseq.take(lines@.len() as int) =~= lseq);
    }
    let w_px: usize = width as usize * 4;
    let h_px: usize = height * 8;
    (
        if w_px > 255 {
            255
        } else {
            w_px as u8
        },
        if h_px > 255 {
            255
        } else {
            h_px as u8
        },
    )
}

impl Framebuffer {
    /// Fill the `width` x `height` rectangle at `(x, y)`, clipped at the
    /// bottom of the render target.
    pub fn draw_filled_rect(&mut self, x: usize, y: usize, width: usize, height: usize, colour: u32)
        requires
            old(self).wf(),
            x + width <= 256,
            y + height < 0x1_0000_0000,
        ensures
            final(self).wf(),
            final(self).gfx == old(self).gfx,
            final(self).font == old(self).font,
            forall|i: int|
                0 <= i < SCREEN_LENGTH ==> final(self).buffer@[i] == (if in_rect_rows(
                    i,
                    x as int,
                    width as int,
                    y as int,
                    y as int + height as int,
                ) {
                    colour
                } else {
                    old(self).buffer@[i]
                }),
    {
        let one_past_right_edge = x + width;
        let one_past_bottom_edge = y + height;

        let mut current_y = y;
        while current_y < one_past_bottom_edge
            invariant
                old(self).wf(),
                self.wf(),
                y <= current_y <= one_past_bottom_edge,
                one_past_bottom_edge == y + height,
                one_past_right_edge == x + width,
                x + width <= 256,
                self.gfx == old(self).gfx,
                self.font == old(self).font,
                forall|i: int|
                    0 <= i < SCREEN_LENGTH ==> self.buffer@[i] == (if in_rect_rows(
                        i,
                        x as int,
                        width as int,
                        y as int,
                        current_y as int,
                    ) {
                        colour
                    } else {
                        old(self).buffer@[i]
                    }),
            decreases one_past_bottom_edge - current_y,
        {
            let mut current_x = x;
            while current_x < one_past_right_edge
                invariant
                    old(self).wf(),
                    self.wf(),
                    x <= current_x <= one_past_right_edge,
                    y <= current_y < one_past_bottom_edge,
                    one_past_bottom_edge == y + height,
                    one_past_right_edge == x + width,
                    x + width <= 256,
                    self.gfx == old(self).gfx,
                    self.font == old(self).font,
                    forall|i: int|
                        0 <= i < SCREEN_LENGTH ==> self.buffer@[i] == (if in_rect_rows(
                            i,
                            x as int,
                            width as int,
                            y as int,
                            current_y as int,
                        ) || (i / 256 == current_y && x <= i % 256 < current_x) {
                            colour
                        } else {
                            old(self).buffer@[i]
                        }),
                decreases one_past_right_edge - current_x,
            {
                let i = Framebuffer::xy_to_i(current_x, current_y);
                if i < self.buffer.len() {
                    proof {
                        vstd::arithmetic::div_mod::lemma_fundamental_div_mod_converse(
                            i as int,
                            256,
                            current_y as int,
                            current_x as int,
                        );
                    }
                    self.buffer.set(i, colour);
                }
                current_x = current_x + 1;
            }
            current_y = current_y + 1;
        }
    }
}

/// Linear index of the screen pixel that blit cell `(c, r)` of a block at
/// `(dx, dy)` lands on.
pub open spec fn blit_index(dx: int, dy: int, c: int, r: int) -> int {
    (dy + r) * 256 + (dx + c)
}

/// Linear index of sheet cell `(c, r)` of a block at `(sx, sy)`.
pub open spec fn sheet_index(sx: int, sy: int, c: int, r: int) -> int {
    (sy + r) * 128 + (sx + c)
}

impl Framebuffer {
    /// Draw the outline of the `width` x `height` rectangle at `(x, y)`,
    /// clipped at the bottom of the render target.
    pub fn draw_rect(&mut self, x: usize, y: usize, width: usize, height: usize, colour: u32)
        requires
            old(self).wf(),
            x + width <= 256,
            y + height < 0x1_0000_0000,
            width >= 1,
            height >= 1,
        ensures
            final(self).wf(),
            final(self).gfx == old(self).gfx,
            final(self).font == old(self).font,
            forall|i: int|
                0 <= i < SCREEN_LENGTH ==> final(self).buffer@[i] == (if on_rect_border(
                    i,
                    x as int,
                    width as int,
                    y as int,
                    height as int,
                ) {
                    colour
                } else {
                    old(self).buffer@[i]
                }),
    {
        let one_past_right_edge = x + width;
        let one_past_bottom_edge = y + height;

        let mut current_y = y;
        while current_y < one_past_bottom_edge
            invariant
                old(self).wf(),
                self.wf(),
                y <= current_y <= one_past_bottom_edge,
                one_past_bottom_edge == y + height,
                one_past_right_edge == x + width,
                x + width <= 256,
                width >= 1,
                height >= 1,
                self.gfx == old(self).gfx,
                self.font == old(self).font,
                forall|i: int|
                    0 <= i < SCREEN_LENGTH ==> self.buffer@[i] == (if (i % 256 == x || i % 256 == x
                        + width - 1) && y <= i / 256 < current_y {
                        colour
                    } else {
                        old(self).buffer@[i]
                    }),
            decreases one_past_bottom_edge - current_y,
        {
            let i = Framebuffer::xy_to_i(x, current_y);
            if i < self.buffer.len() {
                proof {
                    vstd::arithmetic::div_mod::lemma_fundamental_div_mod_converse(
                        i as int,
                        256,
                        current_y as int,
                        x as int,
                    );
                }
                self.buffer.set(i, colour);
            }
            let i = Framebuffer::xy_to_i(one_past_right_edge - 1, current_y);
            if i < self.buffer.len() {
                proof {
                    vstd::arithmetic::div_mod::lemma_fundamental_div_mod_converse(
                        i as int,
                        256,
                        current_y as int,
                        x as int + width - 1,
                    );
                }
                self.buffer.set(i, colour);
            }
            current_y = current_y + 1;
        }

        let ghost mid = self.buffer@;
        let mut current_x = x;
        while current_x < one_past_right_edge
            invariant
                old(self).wf(),
                self.wf(),
                x <= current_x <= one_past_right_edge,
                one_past_bottom_edge == y + height,
                one_past_right_edge == x + width,
                x + width <= 256,
                width >= 1,
                height >= 1,
                mid.len() == SCREEN_LENGTH,
                self.gfx == old(self).gfx,
                self.font == old(self).font,
                forall|i: int|
                    0 <= i < SCREEN_LENGTH ==> mid[i] == (if (i % 256 == x || i % 256 == x + width
                        - 1) && y <= i / 256 < y + height {
                        colour
                    } else {
                        old(self).buffer@[i]
                    }),
                forall|i: int|
                    0 <= i < SCREEN_LENGTH ==> self.buffer@[i] == (if (i / 256 == y || i / 256 == y
                        + height - 1) && x <= i % 256 < current_x {
                        colour
                    } else {
                        mid[i]
                    }),
            decreases one_past_right_edge - current_x,
        {
            let i = Framebuffer::xy_to_i(current_x, y);
            if i < self.buffer.len() {
                proof {
                    vstd::arithmetic::div_mod::lemma_fundamental_div_mod_converse(
                        i as int,
                        256,
                        y as int,
                        current_x as int,
                    );
                }
                self.buffer.set(i, colour);
            }
            let i = Framebuffer::xy_to_i(current_x, one_past_bottom_edge - 1);
            if i < self.buffer.len() {
                proof {
                    vstd::arithmetic::div_mod::lemma_fundamental_div_mod_converse(
                        i as int,
                        256,
                        y as int + height - 1,
                        current_x as int,
                    );
                }
                self.buffer.set(i, colour);
            }
            current_x = current_x + 1;
        }
    }

    /// Blend `colour` over the pixel at index `i` by its alpha channel.
    pub fn blend(&mut self, i: usize, colour: u32)
        requires
            old(self).wf(),
            i < SCREEN_LENGTH,
        ensures
            final(self).wf(),
            final(self).gfx == old(self).gfx,
            final(self).font == old(self).font,
            final(self).buffer@ == old(self).buffer@.update(
                i as int,
                blend_spec(old(self).buffer@[i as int], colour),
            ),
    {
        let background = self.buffer[i];
        let alpha_raw = (colour & 0xFF_00_00_00) >> 24;
        let cr = colour & 0xFF;
        let cg = (colour & 0xFF_00) >> 8;
        let cb = (colour & 0xFF_00_00) >> 16;
        let br = background & 0xFF;
        let bg = (background & 0xFF_00) >> 8;
        let bb = (background & 0xFF_00_00) >> 16;
        proof {
            assert((colour & 0xFF_00_00_00) >> 24 == colour >> 24 && colour >> 24 <= 255 && (
            colour & 0xFF) <= 255 && ((colour & 0xFF_00) >> 8) <= 255 && ((colour & 0xFF_00_00)
                >> 16) <= 255 && (background & 0xFF) <= 255 && ((background & 0xFF_00) >> 8) <= 255
                && ((background & 0xFF_00_00) >> 16) <= 255) by (bit_vector);
            assert(forall|a: u32, c: u32|
                a <= 256 && c <= 255 ==> #[trigger] (a * c) <= 0x1_00_00) by (nonlinear_arith);
        }
        let alpha = alpha_raw + 1;
        let inv_alpha = 256 - alpha_raw;
        let r_sum = alpha * cr + inv_alpha * br;
        let g_sum = alpha * cg + inv_alpha * bg;
        let b_sum = alpha * cb + inv_alpha * bb;
        proof {
            assert(forall|z: u32| z <= 0x2_00_00 ==> #[trigger] (z >> 8) == z / 256)
                by (bit_vector);
        }
        let blended = (r_sum >> 8) | ((g_sum >> 8) << 8) | ((b_sum >> 8) << 16) | 0xFF_00_00_00;
        proof {
            reveal(blend_spec);
            assert(blended == blend_spec(background, colour));
        }
        self.buffer.set(i, blended);
    }

    pub fn blend_xy(&mut self, x: usize, y: usize, colour: u32)
        requires
            old(self).wf(),
            y * 256 + x < SCREEN_LENGTH,
        ensures
            final(self).wf(),
            final(self).gfx == old(self).gfx,
            final(self).font == old(self).font,
            final(self).buffer@ == old(self).buffer@.update(
                y * 256 + x,
                blend_spec(old(self).buffer@[y as int * 256 + x as int], colour),
            ),
    {
        self.blend(Framebuffer::xy_to_i(x, y), colour);
    }

    /// Blit the `sprite_w` x `sprite_h` block of the sprite sheet at
    /// `(sprite_x, sprite_y)` to `(display_x, display_y)`: palette index 4 is
    /// transparent, and every changed pixel takes the palette colour of the
    /// sheet cell that maps to it.
    pub fn sspr(
        &mut self,
        sprite_x: u8,
        sprite_y: u8,
        sprite_w: u8,
        sprite_h: u8,
        display_x: u8,
        display_y: u8,
    )
        requires
            old(self).wf(),
            sprite_x + sprite_w <= 128,
            sprite_y + sprite_h <= 128,
        ensures
            final(self).wf(),
            final(self).gfx == old(self).gfx,
            final(self).font == old(self).font,
            forall|i: int|
                0 <= i < SCREEN_LENGTH ==> final(self).buffer@[i] == old(self).buffer@[i] || exists|
                    r: int,
                    c: int,
                |
                    0 <= r < sprite_h && 0 <= c < sprite_w && i == #[trigger] blit_index(
                        display_x as int,
                        display_y as int,
                        c,
                        r,
                    ) && final(self).buffer@[i] == palette_spec(
                        old(self).gfx@[sheet_index(sprite_x as int, sprite_y as int, c, r)] as int,
                    ),
    {
        let s_w = sprite_w as usize;
        let s_h = sprite_h as usize;
        let s_x = sprite_x as usize;
        let s_y = sprite_y as usize;
        let d_x = display_x as usize;
        let d_y = display_y as usize;

        let mut r: usize = 0;
        while r < s_h
            invariant
                old(self).wf(),
                self.wf(),
                r <= s_h,
                s_w == sprite_w && s_h == sprite_h && s_x == sprite_x && s_y == sprite_y && d_x
                    == display_x && d_y == display_y,
                sprite_x + sprite_w <= 128,
                sprite_y + sprite_h <= 128,
                self.gfx == old(self).gfx,
                self.font == old(self).font,
                forall|i: int|
                    0 <= i < SCREEN_LENGTH ==> self.buffer@[i] == old(self).buffer@[i] || exists|
                        rr: int,
                        cc: int,
                    |
                        0 <= rr < sprite_h && 0 <= cc < sprite_w && i == #[trigger] blit_index(
                            display_x as int,
                            display_y as int,
                            cc,
                            rr,
                        ) && self.buffer@[i] == palette_spec(
                            old(self).gfx@[sheet_index(
                                sprite_x as int,
                                sprite_y as int,
                                cc,
                                rr,
                            )] as int,
                        ),
            decreases s_h - r,
        {
            let mut c: usize = 0;
            while c < s_w
                invariant
                    old(self).wf(),
                    self.wf(),
                    c <= s_w,
                    r < s_h,
                    s_w == sprite_w && s_h == sprite_h && s_x == sprite_x && s_y == sprite_y && d_x
                        == display_x && d_y == display_y,
                    sprite_x + sprite_w <= 128,
                    sprite_y + sprite_h <= 128,
                    self.gfx == old(self).gfx,
                    self.font == old(self).font,
                    forall|i: int|
                        0 <= i < SCREEN_LENGTH ==> self.buffer@[i] == old(self).buffer@[i]
                            || exists|rr: int, cc: int|
                            0 <= rr < sprite_h && 0 <= cc < sprite_w && i == #[trigger] blit_index(
                                display_x as int,
                                display_y as int,
                                cc,
                                rr,
                            ) && self.buffer@[i] == palette_spec(
                                old(self).gfx@[sheet_index(
                                    sprite_x as int,
                                    sprite_y as int,
                                    cc,
                                    rr,
                                )] as int,
                            ),
                decreases s_w - c,
            {
                let colour_index = self.gfx[(s_x + c) + (s_y + r) * 128];
                // palette index 4 is the transparent key
                if colour_index != 4 {
                    let index = (d_x + c) + (d_y + r) * 256;
                    if index < self.buffer.len() {
                        let v = palette(colour_index);
                        self.buffer.set(index, v);
                        proof {
                            let rr = r as int;
                            let cc = c as int;
                            assert(0 <= rr < sprite_h && 0 <= cc < sprite_w && index as int
                                == blit_index(display_x as int, display_y as int, cc, rr)
                                && self.buffer@[index as int] == palette_spec(
                                old(self).gfx@[sheet_index(
                                    sprite_x as int,
                                    sprite_y as int,
                                    cc,
                                    rr,
                                )] as int,
                            ));
                        }
                    }
                }
                c = c + 1;
            }
            r = r + 1;
        }
    }

    /// Blit a sheet block flipped both horizontally and vertically; palette
    /// index 2 is the transparent key here.
    pub fn sspr_flip_both(
        &mut self,
        sprite_x: u8,
        sprite_y: u8,
        sprite_w: u8,
        sprite_h: u8,
        display_x: u8,
        display_y: u8,
    )
        requires
            old(self).wf(),
            sprite_x + sprite_w <= 128,
            sprite_y + sprite_h <= 128,
            sprite_w >= 1,
            sprite_h >= 1,
        ensures
            final(self).wf(),
            final(self).gfx == old(self).gfx,
            final(self).font == old(self).font,
            forall|i: int|
                0 <= i < SCREEN_LENGTH ==> final(self).buffer@[i] == old(self).buffer@[i] || exists|
                    r: int,
                    c: int,
                |
                    0 <= r < sprite_h && 0 <= c < sprite_w && i == #[trigger] blit_index(
                        display_x as int,
                        display_y as int,
                        c,
                        r,
                    ) && final(self).buffer@[i] == palette_spec(
                        old(self).gfx@[sheet_index(
                            sprite_x as int,
                            sprite_y as int,
                            sprite_w - 1 - c,
                            sprite_h - 1 - r,
                        )] as int,
                    ),
    {
        let s_w = sprite_w as usize;
        let s_h = sprite_h as usize;
        let s_x = sprite_x as usize;
        let s_y = sprite_y as usize;
        let d_x = display_x as usize;
        let d_y = display_y as usize;

        let mut r: usize = 0;
        while r < s_h
            invariant
                old(self).wf(),
                self.wf(),
                r <= s_h,
                s_w == sprite_w && s_h == sprite_h && s_x == sprite_x && s_y == sprite_y && d_x
                    == display_x && d_y == display_y,
                sprite_x + sprite_w <= 128,
                sprite_y + sprite_h <= 128,
                s_w >= 1 && s_h >= 1,
                self.gfx == old(self).gfx,
                self.font == old(self).font,
                forall|i: int|
                    0 <= i < SCREEN_LENGTH ==> self.buffer@[i] == old(self).buffer@[i] || exists|
                        rr: int,
                        cc: int,
                    |
                        0 <= rr < sprite_h && 0 <= cc < sprite_w && i == #[trigger] blit_index(
                            display_x as int,
                            display_y as int,
                            cc,
                            rr,
                        ) && self.buffer@[i] == palette_spec(
                            old(self).gfx@[sheet_index(
                                sprite_x as int,
                                sprite_y as int,
                                sprite_w - 1 - cc,
                                sprite_h - 1 - rr,
                            )] as int,
                        ),
            decreases s_h - r,
        {
            let mut c: usize = 0;
            while c < s_w
                invariant
                    old(self).wf(),
                    self.wf(),
                    c <= s_w,
                    r < s_h,
                    s_w == sprite_w && s_h == sprite_h && s_x == sprite_x && s_y == sprite_y && d_x
                        == display_x && d_y == display_y,
                    sprite_x + sprite_w <= 128,
                    sprite_y + sprite_h <= 128,
                    s_w >= 1 && s_h >= 1,
                    self.gfx == old(self).gfx,
                    self.font == old(self).font,
                    forall|i: int|
                        0 <= i < SCREEN_LENGTH ==> self.buffer@[i] == old(self).buffer@[i]
                            || exists|rr: int, cc: int|
                            0 <= rr < sprite_h && 0 <= cc < sprite_w && i == #[trigger] blit_index(
                                display_x as int,
                                display_y as int,
                                cc,
                                rr,
                            ) && self.buffer@[i] == palette_spec(
                                old(self).gfx@[sheet_index(
                                    sprite_x as int,
                                    sprite_y as int,
                                    sprite_w - 1 - cc,
                                    sprite_h - 1 - rr,
                                )] as int,
                            ),
                decreases s_w - c,
            {
                let colour_index = self.gfx[(s_x + (s_w - 1 - c)) + (s_y + (s_h - 1 - r)) * 128];
                // palette index 2 is the transparent key for flipped blits
                if colour_index != 2 {
                    let index = (d_x + c) + (d_y + r) * 256;
                    if index < self.buffer.len() {
                        let v = palette(colour_index);
                        self.buffer.set(index, v);
                        proof {
                            let rr = r as int;
                            let cc = c as int;
                            assert(0 <= rr < sprite_h && 0 <= cc < sprite_w && index as int
                                == blit_index(display_x as int, display_y as int, cc, rr)
                                && self.buffer@[index as int] == palette_spec(
                                old(self).gfx@[sheet_index(
                                    sprite_x as int,
                                    sprite_y as int,
                                    sprite_w - 1 - cc,
                                    sprite_h - 1 - rr,
                                )] as int,
                            ));
                        }
                    }
                }
                c = c + 1;
            }
            r = r + 1;
        }
    }

    /// Blit numbered 8 x 8 sprite `sprite_number` to `(x, y)`.
    pub fn spr(&mut self, sprite_number: u8, x: u8, y: u8)
        requires
            old(self).wf(),
        ensures
            final(self).wf(),
            final(self).gfx == old(self).gfx,
            final(self).font == old(self).font,
    {
        let (sprite_x, sprite_y) = get_sprite_xy(sprite_number);
        self.sspr(sprite_x, sprite_y, SPRITE_SIZE, SPRITE_SIZE, x, y);
    }

    /// Blit numbered sprite `sprite_number` to `(x, y)`, flipped both ways.
    pub fn spr_flip_both(&mut self, sprite_number: u8, x: u8, y: u8)
        requires
            old(self).wf(),
        ensures
            final(self).wf(),
            final(self).gfx == old(self).gfx,
            final(self).font == old(self).font,
    {
        let (sprite_x, sprite_y) = get_sprite_xy(sprite_number);
        self.sspr_flip_both(sprite_x, sprite_y, SPRITE_SIZE, SPRITE_SIZE, x, y);
    }
}

pub const WINDOW_TOP_LEFT: u8 = 0;

pub const BUTTON_TOP_LEFT: u8 = 3;

pub const BUTTON_HOT_TOP_LEFT: u8 = 6;

pub const BUTTON_PRESSED_TOP_LEFT: u8 = 9;

pub const ROW_LEFT_EDGE: u8 = 48;

pub const ROW_HOT_LEFT_EDGE: u8 = 51;

pub const ROW_PRESSED_LEFT_EDGE: u8 = 54;

pub const ROW_MARKER_LEFT_EDGE: u8 = 57;

pub const CHECKBOX_UNCHECKED: u8 = 96;

pub const CHECKBOX_CHECKED: u8 = 97;

pub const CHECKBOX_HOT_UNCHECKED: u8 = 98;

pub const CHECKBOX_HOT_CHECKED: u8 = 99;

pub const CHECKBOX_PRESSED_UNCHECKED: u8 = 100;

pub const CHECKBOX_PRESSED_CHECKED: u8 = 101;

impl Framebuffer {
    /// Stamp one glyph block of the font sheet at `(display_x, display_y)`
    /// in palette colour `colour & 15`; font pixels holding zero are
    /// transparent.
    pub fn print_char_raw(
        &mut self,
        sprite_x: u8,
        sprite_y: u8,
        sprite_w: u8,
        sprite_h: u8,
        display_x: u8,
        display_y: u8,
        colour: u8,
    )
        requires
            old(self).wf(),
            sprite_x + sprite_w <= 128,
            sprite_y + sprite_h <= 128,
        ensures
            final(self).wf(),
            final(self).gfx == old(self).gfx,
            final(self).font == old(self).font,
            forall|i: int|
                0 <= i < SCREEN_LENGTH ==> final(self).buffer@[i] == old(self).buffer@[i] || (
                final(self).buffer@[i] == palette_spec((colour & 15) as int) && exists|
                    r: int,
                    c: int,
                |
                    0 <= r < sprite_h && 0 <= c < sprite_w && i == #[trigger] blit_index(
                        display_x as int,
                        display_y as int,
                        c,
                        r,
                    )),
    {
        let s_w = sprite_w as usize;
        let s_h = sprite_h as usize;
        let s_x = sprite_x as usize;
        let s_y = sprite_y as usize;
        let d_x = display_x as usize;
        let d_y = display_y as usize;
        let ink = palette(colour & 15);

        let mut r: usize = 0;
        while r < s_h
            invariant
                old(self).wf(),
                self.wf(),
                r <= s_h,
                s_w == sprite_w && s_h == sprite_h && s_x == sprite_x && s_y == sprite_y && d_x
                    == display_x && d_y == display_y,
                sprite_x + sprite_w <= 128,
                sprite_y + sprite_h <= 128,
                ink == palette_spec((colour & 15) as int),
                self.gfx == old(self).gfx,
                self.font == old(self).font,
                forall|i: int|
                    0 <= i < SCREEN_LENGTH ==> self.buffer@[i] == old(self).buffer@[i] || (
                    self.buffer@[i] == palette_spec((colour & 15) as int) && exists|
                        rr: int,
                        cc: int,
                    |
                        0 <= rr < sprite_h && 0 <= cc < sprite_w && i == #[trigger] blit_index(
                            display_x as int,
                            display_y as int,
                            cc,
                            rr,
                        )),
            decreases s_h - r,
        {
            let mut c: usize = 0;
            while c < s_w
                invariant
                    old(self).wf(),
                    self.wf(),
                    c <= s_w,
                    r < s_h,
                    s_w == sprite_w && s_h == sprite_h && s_x == sprite_x && s_y == sprite_y && d_x
                        == display_x && d_y == display_y,
                    sprite_x + sprite_w <= 128,
                    sprite_y + sprite_h <= 128,
                    ink == palette_spec((colour & 15) as int),
                    self.gfx == old(self).gfx,
                    self.font == old(self).font,
                    forall|i: int|
                        0 <= i < SCREEN_LENGTH ==> self.buffer@[i] == old(self).buffer@[i] || (
                        self.buffer@[i] == palette_spec((colour & 15) as int) && exists|
                            rr: int,
                            cc: int,
                        |
                            0 <= rr < sprite_h && 0 <= cc < sprite_w && i == #[trigger] blit_index(
                                display_x as int,
                                display_y as int,
                                cc,
                                rr,
                            )),
                decreases s_w - c,
            {
                let font_pixel = self.font[(s_x + c) + (s_y + r) * 128];
                // a zero font pixel is transparent
                if font_pixel != 0 {
                    let index = (d_x + c) + (d_y + r) * 256;
                    if index < self.buffer.len() {
                        self.buffer.set(index, ink);
                        proof {
                            assert(index as int == blit_index(
                                display_x as int,
                                display_y as int,
                                c as int,
                                r as int,
                            ));
                        }
                    }
                }
                c = c + 1;
            }
            r = r + 1;
        }
    }

    /// Print one character at `(x, y)`.
    pub fn print_char(&mut self, character: u8, x: u8, y: u8, colour: u8)
        requires
            old(self).wf(),
        ensures
            final(self).wf(),
            final(self).gfx == old(self).gfx,
            final(self).font == old(self).font,
    {
        let (sprite_x, sprite_y) = get_char_xy(character);
        self.print_char_raw(sprite_x, sprite_y, FONT_SIZE, FONT_SIZE, x, y, colour);
    }

    /// Print one line of bytes from `(x, y)`, advancing by the character
    /// advance and saturating at the right edge.
    pub fn print_line_raw(&mut self, bytes: &[u8], x: u8, y: u8, colour: u8)
        requires
            old(self).wf(),
        ensures
            final(self).wf(),
            final(self).gfx == old(self).gfx,
            final(self).font == old(self).font,
    {
        let mut cx = x;
        let mut k: usize = 0;
        while k < bytes.len()
            invariant
                old(self).wf(),
                self.wf(),
                self.gfx == old(self).gfx,
                self.font == old(self).font,
            decreases bytes@.len() - k,
        {
            let (sprite_x, sprite_y) = get_char_xy(bytes[k]);
            self.print_char_raw(sprite_x, sprite_y, FONT_SIZE, FONT_SIZE, cx, y, colour);
            cx = cx.saturating_add(FONT_ADVANCE);
            k = k + 1;
        }
    }

    /// Print one line of bytes from `(x, y)`.
    pub fn print_line(&mut self, bytes: &[u8], x: u8, y: u8, colour: u8)
        requires
            old(self).wf(),
        ensures
            final(self).wf(),
            final(self).gfx == old(self).gfx,
            final(self).font == old(self).font,
    {
        self.print_line_raw(bytes, x, y, colour);
    }

    /// Print a block of text, one line per newline-separated segment.
    pub fn print(&mut self, bytes: &[u8], x: u8, y: u8, colour: u8)
        requires
            old(self).wf(),
        ensures
            final(self).wf(),
            final(self).gfx == old(self).gfx,
            final(self).font == old(self).font,
    {
        let lines = crate::text::bytes_lines(bytes);
        let mut cy = y;
        let mut k: usize = 0;
        while k < lines.len()
            invariant
                old(self).wf(),
                self.wf(),
                self.gfx == old(self).gfx,
                self.font == old(self).font,
            decreases lines@.len() - k,
        {
            let line = &lines[k];
            self.print_line(line.as_slice(), x, cy, colour);
            cy = cy.saturating_add(FONT_SIZE);
            k = k + 1;
        }
    }

    /// Print `number` in decimal on one line at `(x, y)`.
    pub fn print_single_line_number(&mut self, number: usize, x: u8, y: u8, colour: u8)
        requires
            old(self).wf(),
        ensures
            final(self).wf(),
            final(self).gfx == old(self).gfx,
            final(self).font == old(self).font,
    {
        let digits = decimal_bytes(number);
        self.print_line_raw(digits.as_slice(), x, y, colour);
    }
}

/// The decimal digits of `n`, most significant first.
pub fn decimal_bytes(n: usize) -> (r: Vec<u8>)
    ensures
        r@.len() >= 1,
        forall|k: int| 0 <= k < r@.len() ==> 48 <= #[trigger] r@[k] <= 57,
{
    let mut rev: Vec<u8> = Vec::new();
    let mut m = n;
    loop
        invariant
            forall|k: int| 0 <= k < rev@.len() ==> 48 <= #[trigger] rev@[k] <= 57,
        ensures
            rev@.len() >= 1,
            forall|k: int| 0 <= k < rev@.len() ==> 48 <= #[trigger] rev@[k] <= 57,
        decreases m,
    {
        rev.push((m % 10) as u8 + 48);
        m = m / 10;
        if m == 0 {
            break ;
        }
    }
    let mut out: Vec<u8> = Vec::new();
    let mut k = rev.len();
    while k > 0
        invariant
            k <= rev@.len(),
            out@.len() == rev@.len() - k,
            forall|j: int| 0 <= j < rev@.len() ==> 48 <= #[trigger] rev@[j] <= 57,
            forall|j: int| 0 <= j < out@.len() ==> 48 <= #[trigger] out@[j] <= 57,
        decreases k,
    {
        k = k - 1;
        out.push(rev[k]);
    }
    out
}

impl Framebuffer {
    /// Tile a 3 x 3 block of sheet sprites over a `w` x `h` area: corners,
    /// stretched edges, and a repeated middle.
    pub fn nine_slice(&mut self, top_left: u8, x: u8, y: u8, w: u8, h: u8)
        requires
            old(self).wf(),
            top_left < 220,
        ensures
            final(self).wf(),
            final(self).gfx == old(self).gfx,
            final(self).font == old(self).font,
    {
        let top: u8 = top_left + 1;
        let top_right: u8 = top + 1;

        let middle_left: u8 = top_left + SPRITES_PER_ROW;
        let middle: u8 = top + SPRITES_PER_ROW;
        let middle_right: u8 = top_right + SPRITES_PER_ROW;

        let bottom_left: u8 = middle_left + SPRITES_PER_ROW;
        let bottom: u8 = middle + SPRITES_PER_ROW;
        let bottom_right: u8 = middle_right + SPRITES_PER_ROW;

        let after_left_corner = x.saturating_add(SPRITE_SIZE);
        let before_right_corner = x.saturating_add(w).saturating_sub(SPRITE_SIZE);

        let below_top_corner = y.saturating_add(SPRITE_SIZE);
        let above_bottom_corner = y.saturating_add(h).saturating_sub(SPRITE_SIZE);

        let mut fill_y = below_top_corner as usize;
        while fill_y < above_bottom_corner as usize
            invariant
                old(self).wf(),
                self.wf(),
                self.gfx == old(self).gfx,
                self.font == old(self).font,
            decreases above_bottom_corner as int + 8 - fill_y,
        {
            let mut fill_x = after_left_corner as usize;
            while fill_x < before_right_corner as usize
                invariant
                    old(self).wf(),
                    self.wf(),
                    self.gfx == old(self).gfx,
                    self.font == old(self).font,
                decreases before_right_corner as int + 8 - fill_x,
            {
                self.spr(middle, fill_x as u8, fill_y as u8);
                fill_x = fill_x + SPRITE_SIZE as usize;
            }
            fill_y = fill_y + SPRITE_SIZE as usize;
        }

        let mut fill_x = after_left_corner as usize;
        while fill_x < before_right_corner as usize
            invariant
                old(self).wf(),
                self.wf(),
                self.gfx == old(self).gfx,
                self.font == old(self).font,
            decreases before_right_corner as int + 8 - fill_x,
        {
            self.spr(top, fill_x as u8, y);
            self.spr(bottom, fill_x as u8, above_bottom_corner);
            fill_x = fill_x + SPRITE_SIZE as usize;
        }

        let mut fill_y = below_top_corner as usize;
        while fill_y < above_bottom_corner as usize
            invariant
                old(self).wf(),
                self.wf(),
                self.gfx == old(self).gfx,
                self.font == old(self).font,
            decreases above_bottom_corner as int + 8 - fill_y,
        {
            self.spr(middle_left, x, fill_y as u8);
            self.spr(middle_right, before_right_corner, fill_y as u8);
            fill_y = fill_y + SPRITE_SIZE as usize;
        }

        self.spr(top_left, x, y);
        self.spr(top_right, before_right_corner, y);
        self.spr(bottom_left, x, above_bottom_corner);
        self.spr(bottom_right, before_right_corner, above_bottom_corner);
    }

    /// Like `nine_slice`, but the top row reuses the middle sprites, for
    /// panels that continue off the top.
    pub fn bottom_six_slice(&mut self, top_left: u8, x: u8, y: u8, w: u8, h: u8)
        requires
            old(self).wf(),
            top_left < 220,
        ensures
            final(self).wf(),
            final(self).gfx == old(self).gfx,
            final(self).font == old(self).font,
    {
        let top: u8 = top_left + 1;
        let top_right: u8 = top + 1;

        let middle_left: u8 = top_left + SPRITES_PER_ROW;
        let middle: u8 = top + SPRITES_PER_ROW;
        let middle_right: u8 = top_right + SPRITES_PER_ROW;

        let bottom_left: u8 = middle_left + SPRITES_PER_ROW;
        let bottom: u8 = middle + SPRITES_PER_ROW;
        let bottom_right: u8 = middle_right + SPRITES_PER_ROW;

        let after_left_corner = x.saturating_add(SPRITE_SIZE);
        let before_right_corner = x.saturating_add(w).saturating_sub(SPRITE_SIZE);

        let below_top_corner = y.saturating_add(SPRITE_SIZE);
        let above_bottom_corner = y.saturating_add(h).saturating_sub(SPRITE_SIZE);

        let mut fill_y = below_top_corner as usize;
        while fill_y < above_bottom_corner as usize
            invariant
                old(self).wf(),
                self.wf(),
                self.gfx == old(self).gfx,
                self.font == old(self).font,
            decreases above_bottom_corner as int + 8 - fill_y,
        {
            let mut fill_x = after_left_corner as usize;
            while fill_x < before_right_corner as usize
                invariant
                    old(self).wf(),
                    self.wf(),
                    self.gfx == old(self).gfx,
                    self.font == old(self).font,
                decreases before_right_corner as int + 8 - fill_x,
            {
                self.spr(middle, fill_x as u8, fill_y as u8);
                fill_x = fill_x + SPRITE_SIZE as usize;
            }
            fill_y = fill_y + SPRITE_SIZE as usize;
        }

        let mut fill_x = after_left_corner as usize;
        while fill_x < before_right_corner as usize
            invariant
                old(self).wf(),
                self.wf(),
                self.gfx == old(self).gfx,
                self.font == old(self).font,
            decreases before_right_corner as int + 8 - fill_x,
        {
            self.spr(middle, fill_x as u8, y);
            self.spr(bottom, fill_x as u8, above_bottom_corner);
            fill_x = fill_x + SPRITE_SIZE as usize;
        }

        let mut fill_y = below_top_corner as usize;
        while fill_y < above_bottom_corner as usize
            invariant
                old(self).wf(),
                self.wf(),
                self.gfx == old(self).gfx,
                self.font == old(self).font,
            decreases above_bottom_corner as int + 8 - fill_y,
        {
            self.spr(middle_left, x, fill_y as u8);
            self.spr(middle_right, before_right_corner, fill_y as u8);
            fill_y = fill_y + SPRITE_SIZE as usize;
        }

        self.spr(middle_left, x, y);
        self.spr(middle_right, before_right_corner, y);
        self.spr(bottom_left, x, above_bottom_corner);
        self.spr(bottom_right, before_right_corner, above_bottom_corner);
    }

    /// Tile a 1 x 3 strip of sheet sprites over a width-`w` row.
    pub fn three_slice(&mut self, left_edge: u8, x: u8, y: u8, w: u8)
        requires
            old(self).wf(),
            left_edge < 253,
        ensures
            final(self).wf(),
            final(self).gfx == old(self).gfx,
            final(self).font == old(self).font,
    {
        let left: u8 = left_edge;
        let middle: u8 = left + 1;
        let right: u8 = middle + 1;

        let after_left_corner = x.saturating_add(SPRITE_SIZE);
        let before_right_corner = x.saturating_add(w).saturating_sub(SPRITE_SIZE);

        self.spr(left, x, y);

        let mut fill_x = after_left_corner as usize;
        while fill_x < before_right_corner as usize
            invariant
                old(self).wf(),
                self.wf(),
                self.gfx == old(self).gfx,
                self.font == old(self).font,
            decreases before_right_corner as int + 8 - fill_x,
        {
            self.spr(middle, fill_x as u8, y);
            fill_x = fill_x + SPRITE_SIZE as usize;
        }

        self.spr(right, before_right_corner, y);
    }

    pub fn full_window(&mut self)
        requires
            old(self).wf(),
        ensures
            final(self).wf(),
            final(self).gfx == old(self).gfx,
            final(self).font == old(self).font,
    {
        self.window(0, 0, 255, 255);
    }

    pub fn center_half_window(&mut self)
        requires
            old(self).wf(),
        ensures
            final(self).wf(),
            final(self).gfx == old(self).gfx,
            final(self).font == old(self).font,
    {
        self.window(64, 64, 128, 128);
    }

    pub fn window(&mut self, x: u8, y: u8, w: u8, h: u8)
        requires
            old(self).wf(),
        ensures
            final(self).wf(),
            final(self).gfx == old(self).gfx,
            final(self).font == old(self).font,
    {
        self.nine_slice(WINDOW_TOP_LEFT, x, y, w, h);
    }

    pub fn button(&mut self, x: u8, y: u8, w: u8, h: u8)
        requires
            old(self).wf(),
        ensures
            final(self).wf(),
            final(self).gfx == old(self).gfx,
            final(self).font == old(self).font,
    {
        self.nine_slice(BUTTON_TOP_LEFT, x, y, w, h);
    }

    pub fn button_hot(&mut self, x: u8, y: u8, w: u8, h: u8)
        requires
            old(self).wf(),
        ensures
            final(self).wf(),
            final(self).gfx == old(self).gfx,
            final(self).font == old(self).font,
    {
        self.nine_slice(BUTTON_HOT_TOP_LEFT, x, y, w, h);
    }

    pub fn button_pressed(&mut self, x: u8, y: u8, w: u8, h: u8)
        requires
            old(self).wf(),
        ensures
            final(self).wf(),
            final(self).gfx == old(self).gfx,
            final(self).font == old(self).font,
    {
        self.nine_slice(BUTTON_PRESSED_TOP_LEFT, x, y, w, h);
    }

    pub fn row(&mut self, x: u8, y: u8, w: u8)
        requires
            old(self).wf(),
        ensures
            final(self).wf(),
            final(self).gfx == old(self).gfx,
            final(self).font == old(self).font,
    {
        self.three_slice(ROW_LEFT_EDGE, x, y, w);
    }

    pub fn row_hot(&mut self, x: u8, y: u8, w: u8)
        requires
            old(self).wf(),
        ensures
            final(self).wf(),
            final(self).gfx == old(self).gfx,
            final(self).font == old(self).font,
    {
        self.three_slice(ROW_HOT_LEFT_EDGE, x, y, w);
    }

    pub fn row_pressed(&mut self, x: u8, y: u8, w: u8)
        requires
            old(self).wf(),
        ensures
            final(self).wf(),
            final(self).gfx == old(self).gfx,
            final(self).font == old(self).font,
    {
        self.three_slice(ROW_PRESSED_LEFT_EDGE, x, y, w);
    }

    pub fn row_marker(&mut self, x: u8, y: u8, w: u8)
        requires
            old(self).wf(),
        ensures
            final(self).wf(),
            final(self).gfx == old(self).gfx,
            final(self).font == old(self).font,
    {
        self.three_slice(ROW_MARKER_LEFT_EDGE, x, y, w);
    }

    pub fn checkbox(&mut self, x: u8, y: u8, checked: bool)
        requires
            old(self).wf(),
        ensures
            final(self).wf(),
            final(self).gfx == old(self).gfx,
            final(self).font == old(self).font,
    {
        self.spr(
            if checked {
                CHECKBOX_CHECKED
            } else {
                CHECKBOX_UNCHECKED
            },
            x,
            y,
        );
    }

    pub fn checkbox_hot(&mut self, x: u8, y: u8, checked: bool)
        requires
            old(self).wf(),
        ensures
            final(self).wf(),
            final(self).gfx == old(self).gfx,
            final(self).font == old(self).font,
    {
        self.spr(
            if checked {
                CHECKBOX_HOT_CHECKED
            } else {
                CHECKBOX_HOT_UNCHECKED
            },
            x,
            y,
        );
    }

    pub fn checkbox_pressed(&mut self, x: u8, y: u8, checked: bool)
        requires
            old(self).wf(),
        ensures
            final(self).wf(),
            final(self).gfx == old(self).gfx,
            final(self).font == old(self).font,
    {
        self.spr(
            if checked {
                CHECKBOX_PRESSED_CHECKED
            } else {
                CHECKBOX_PRESSED_UNCHECKED
            },
            x,
            y,
        );
    }

    /// Draw an unantialiased circle outline of the given radius around
    /// `(x_mid, y_mid)`; every changed pixel holds `colour`.  A midpoint too
    /// close to the origin for the radius is rejected.
    pub fn draw_crisp_circle(&mut self, x_mid: usize, y_mid: usize, radius: usize, colour: u32)
        requires
            old(self).wf(),
            x_mid < radius || y_mid < radius || (x_mid + radius < 256 && y_mid + radius < 256),
        ensures
            final(self).wf(),
            final(self).gfx == old(self).gfx,
            final(self).font == old(self).font,
            x_mid < radius || y_mid < radius ==> final(self).buffer == old(self).buffer,
            forall|i: int|
                0 <= i < SCREEN_LENGTH ==> final(self).buffer@[i] == old(self).buffer@[i]
                    || final(self).buffer@[i] == colour,
    {
        if x_mid < radius || y_mid < radius {
            return ;
        }
        let r0 = radius as isize;
        let xm = x_mid as isize;
        let ym = y_mid as isize;
        let mut xx: isize = -r0;
        let mut yy: isize = 0;
        let mut err: isize = 2 - 2 * r0;
        proof {
            assert(err == 2 * (xx + yy) + xx * xx + yy * yy - r0 * r0 + 2) by (nonlinear_arith)
                requires
                    err == 2 - 2 * r0,
                    xx == -r0,
                    yy == 0,
            ;
        }
        loop
            invariant_except_break
                xx <= 0,
            invariant
                old(self).wf(),
                self.wf(),
                self.gfx == old(self).gfx,
                self.font == old(self).font,
                forall|i: int|
                    0 <= i < SCREEN_LENGTH ==> self.buffer@[i] == old(self).buffer@[i]
                        || self.buffer@[i] == colour,
                r0 == radius,
                xm == x_mid && ym == y_mid,
                radius <= x_mid && radius <= y_mid,
                x_mid + radius < 256 && y_mid + radius < 256,
                -r0 <= xx <= 1,
                0 <= yy <= r0,
                err == 2 * (xx + yy) + xx * xx + yy * yy - r0 * r0 + 2,
            ensures
                self.gfx == old(self).gfx,
                self.font == old(self).font,
                self.wf(),
                forall|i: int|
                    0 <= i < SCREEN_LENGTH ==> self.buffer@[i] == old(self).buffer@[i]
                        || self.buffer@[i] == colour,
            decreases r0 - yy - xx,
        {
            proof {
                assert(0 <= xx * xx <= r0 * r0 && 0 <= yy * yy <= r0 * r0 && r0 * r0 <= 65025)
                    by (nonlinear_arith)
                    requires
                        -255 <= -r0 <= xx <= 0,
                        0 <= yy <= r0 <= 255,
                ;
            }
            let i1 = Framebuffer::xy_to_i((xm - xx) as usize, (ym + yy) as usize);
            self.buffer.set(i1, colour);
            let i2 = Framebuffer::xy_to_i((xm - yy) as usize, (ym - xx) as usize);
            self.buffer.set(i2, colour);
            let i3 = Framebuffer::xy_to_i((xm + xx) as usize, (ym - yy) as usize);
            self.buffer.set(i3, colour);
            let i4 = Framebuffer::xy_to_i((xm + yy) as usize, (ym + xx) as usize);
            self.buffer.set(i4, colour);
            let r_ = err;
            let ghost old_xx = xx;
            let ghost old_yy = yy;
            if r_ <= yy {
                proof {
                    if yy == r0 {
                        assert(false) by (nonlinear_arith)
                            requires
                                err <= yy,
                                yy == r0,
                                r0 >= 0,
                                -r0 <= xx <= 0,
                                err == 2 * (xx + yy) + xx * xx + yy * yy - r0 * r0 + 2,
                        ;
                    }
                }
                yy = yy + 1;
                proof {
                    assert(err + 2 * yy + 1 == 2 * (xx + yy) + xx * xx + yy * yy - r0 * r0 + 2)
                        by (nonlinear_arith)
                        requires
                            err == 2 * (xx + old_yy) + xx * xx + old_yy * old_yy - r0 * r0 + 2,
                            yy == old_yy + 1,
                    ;
                }
                err = err + (yy * 2 + 1);
            }
            if r_ > xx || err > yy {
                let ghost mid_err = err;
                xx = xx + 1;
                proof {
                    assert(mid_err + 2 * xx + 1 == 2 * (xx + yy) + xx * xx + yy * yy - r0 * r0 + 2)
                        by (nonlinear_arith)
                        requires
                            mid_err == 2 * (old_xx + yy) + old_xx * old_xx + yy * yy - r0 * r0 + 2,
                            xx == old_xx + 1,
                    ;
                }
                err = err + (xx * 2 + 1);
            }
            if !(xx < 0) {
                break ;
            }
        }
    }
}

impl Framebuffer {
    /// Draw an antialiased circle outline of the given radius around
    /// `(x_mid, y_mid)`, blending edge pixels by their distance from the
    /// ideal circle.  A midpoint too close to an edge for the radius is
    /// rejected.
    /// Blend one pixel that lies inside the dirty square of a circle draw.
    fn blend_in_square(
        &mut self,
        px: usize,
        py: usize,
        x_mid: usize,
        y_mid: usize,
        margin: usize,
        colour: u32,
    )
        requires
            old(self).wf(),
            px < 256,
            py < 256,
            x_mid as int - margin as int <= px as int <= x_mid as int + margin as int,
            y_mid as int - margin as int <= py as int <= y_mid as int + margin as int,
        ensures
            final(self).wf(),
            final(self).gfx == old(self).gfx,
            final(self).font == old(self).font,
            forall|i: int|
                0 <= i < SCREEN_LENGTH ==> final(self).buffer@[i] == old(self).buffer@[i]
                    || in_square(i, x_mid as int, y_mid as int, margin as int),
    {
        proof {
            vstd::arithmetic::div_mod::lemma_fundamental_div_mod_converse(
                py as int * 256 + px as int,
                256,
                py as int,
                px as int,
            );
        }
        self.blend_xy(px, py, colour);
    }

    /// Write one pixel that lies inside the dirty square of a circle draw.
    fn paint_in_square(
        &mut self,
        px: usize,
        py: usize,
        x_mid: usize,
        y_mid: usize,
        margin: usize,
        colour: u32,
    )
        requires
            old(self).wf(),
            px < 256,
            py < 256,
            x_mid as int - margin as int <= px as int <= x_mid as int + margin as int,
            y_mid as int - margin as int <= py as int <= y_mid as int + margin as int,
        ensures
            final(self).wf(),
            final(self).gfx == old(self).gfx,
            final(self).font == old(self).font,
            forall|i: int|
                0 <= i < SCREEN_LENGTH ==> final(self).buffer@[i] == old(self).buffer@[i]
                    || in_square(i, x_mid as int, y_mid as int, margin as int),
    {
        proof {
            vstd::arithmetic::div_mod::lemma_fundamental_div_mod_converse(
                py as int * 256 + px as int,
                256,
                py as int,
                px as int,
            );
        }
        let idx = py * 256 + px;
        self.buffer.set(idx, colour);
    }

    #[verifier::rlimit(100)]
    pub fn draw_circle(&mut self, x_mid: usize, y_mid: usize, radius: usize, colour: u32)
        requires
            old(self).wf(),
            x_mid < radius || y_mid < radius || (1 <= radius && radius + 1 <= x_mid && radius + 1
                <= y_mid && x_mid + radius + 1 <= 255 && y_mid + radius + 1 <= 255),
        ensures
            final(self).wf(),
            final(self).gfx == old(self).gfx,
            final(self).font == old(self).font,
            x_mid < radius || y_mid < radius ==> final(self).buffer == old(self).buffer,
            forall|i: int|
                0 <= i < SCREEN_LENGTH ==> final(self).buffer@[i] == old(self).buffer@[i]
                    || in_square(i, x_mid as int, y_mid as int, radius as int + 1),
    {
        if x_mid < radius || y_mid < radius {
            return ;
        }
        let r0 = radius as isize;
        let xm = x_mid as isize;
        let ym = y_mid as isize;
        let mut xx: isize = -r0;
        let mut yy: isize = 0;
        let mut err: isize = 2 - 2 * r0;
        // equivalent to 2 * radius - 1
        let diameter = 1 - err;
        proof {
            assert(err == 2 * (xx + yy) + xx * xx + yy * yy - r0 * r0 + 2) by (nonlinear_arith)
                requires
                    err == 2 - 2 * r0,
                    xx == -r0,
                    yy == 0,
            ;
        }
        loop
            invariant_except_break
                xx <= 0,
            invariant
                old(self).wf(),
                self.wf(),
                self.gfx == old(self).gfx,
                self.font == old(self).font,
                forall|i: int|
                    0 <= i < SCREEN_LENGTH ==> self.buffer@[i] == old(self).buffer@[i]
                        || in_square(i, x_mid as int, y_mid as int, radius as int + 1),
                r0 == radius,
                xm == x_mid && ym == y_mid,
                1 <= radius,
                radius + 1 <= x_mid && radius + 1 <= y_mid,
                x_mid + radius + 1 <= 255 && y_mid + radius + 1 <= 255,
                diameter == 2 * r0 - 1,
                -r0 <= xx <= 1,
                0 <= yy <= r0,
                err == 2 * (xx + yy) + xx * xx + yy * yy - r0 * r0 + 2,
            ensures
                self.gfx == old(self).gfx,
                self.font == old(self).font,
                self.wf(),
                forall|i: int|
                    0 <= i < SCREEN_LENGTH ==> self.buffer@[i] == old(self).buffer@[i]
                        || in_square(i, x_mid as int, y_mid as int, radius as int + 1),
            decreases r0 - yy - xx,
        {
            proof {
                assert(0 <= xx * xx <= r0 * r0 && 0 <= yy * yy <= r0 * r0 && r0 * r0 <= 65025)
                    by (nonlinear_arith)
                    requires
                        -255 <= -r0 <= xx <= 0,
                        0 <= yy <= r0 <= 255,
                ;
            }
            // blend value of the pixel: its scaled distance from the circle
            let dist = err - 2 * (xx + yy) - 2;
            let mag = if dist < 0 {
                -dist
            } else {
                dist
            };
            let mut alpha: isize = 255 * mag / diameter;

            {
                let new_colour = (colour & 0x00_FF_FF_FF) | (255u32.wrapping_sub(alpha as u32)
                    << 24);
                let m1 = radius + 1;
                self.blend_in_square((xm - xx) as usize, (ym + yy) as usize, x_mid, y_mid, m1, new_colour);
                self.blend_in_square((xm - yy) as usize, (ym - xx) as usize, x_mid, y_mid, m1, new_colour);
                self.blend_in_square((xm + xx) as usize, (ym - yy) as usize, x_mid, y_mid, m1, new_colour);
                self.blend_in_square((xm + yy) as usize, (ym + xx) as usize, x_mid, y_mid, m1, new_colour);
            }

            let e2 = err;
            let x2 = xx;
            let ghost old_xx = xx;
            let ghost old_yy = yy;

            if err + yy > 0 {
                let dist2 = err - 2 * xx - 1;
                alpha = 255 * (if dist2 < 0 {
                    -dist2
                } else {
                    dist2
                }) / diameter;
                if alpha < 256 {
                    let new_colour = (colour & 0x00_FF_FF_FF) | (255u32.wrapping_sub(
                        alpha as u32,
                    ) << 24);
                    let m1 = radius + 1;
                    self.blend_in_square((xm - xx) as usize, (ym + yy + 1) as usize, x_mid, y_mid, m1, new_colour);
                    self.blend_in_square((xm - yy - 1) as usize, (ym - xx) as usize, x_mid, y_mid, m1, new_colour);
                    self.blend_in_square((xm + xx) as usize, (ym - yy - 1) as usize, x_mid, y_mid, m1, new_colour);
                    self.blend_in_square((xm + yy + 1) as usize, (ym + xx) as usize, x_mid, y_mid, m1, new_colour);
                }
                xx = xx + 1;
                proof {
                    assert(e2 + 2 * xx + 1 == 2 * (xx + yy) + xx * xx + yy * yy - r0 * r0 + 2)
                        by (nonlinear_arith)
                        requires
                            e2 == 2 * (old_xx + yy) + old_xx * old_xx + yy * yy - r0 * r0 + 2,
                            xx == old_xx + 1,
                    ;
                }
                err = err + (xx * 2 + 1);
            }

            if e2 + x2 <= 0 {
                let dist3 = 2 * yy + 3 - e2;
                alpha = 255 * (if dist3 < 0 {
                    -dist3
                } else {
                    dist3
                }) / diameter;
                if alpha < 256 {
                    let new_colour = (colour & 0x00_FF_FF_FF) | (255u32.wrapping_sub(
                        alpha as u32,
                    ) << 24);
                    let m1 = radius + 1;
                    self.blend_in_square((xm - x2 - 1) as usize, (ym + yy) as usize, x_mid, y_mid, m1, new_colour);
                    self.blend_in_square((xm - yy) as usize, (ym - x2 - 1) as usize, x_mid, y_mid, m1, new_colour);
                    self.blend_in_square((xm + x2 + 1) as usize, (ym - yy) as usize, x_mid, y_mid, m1, new_colour);
                    self.blend_in_square((xm + yy) as usize, (ym + x2 + 1) as usize, x_mid, y_mid, m1, new_colour);
                }
                proof {
                    if yy == r0 {
                        assert(e2 + x2 > 0) by (nonlinear_arith)
                            requires
                                yy == r0,
                                r0 >= 1,
                                -r0 <= x2 <= 0,
                                e2 == 2 * (x2 + yy) + x2 * x2 + yy * yy - r0 * r0 + 2,
                        ;
                    }
                }
                let ghost mid_err = err;
                let ghost mid_xx = xx;
                yy = yy + 1;
                proof {
                    assert(mid_err + 2 * yy + 1 == 2 * (mid_xx + yy) + mid_xx * mid_xx + yy * yy
                        - r0 * r0 + 2) by (nonlinear_arith)
                        requires
                            mid_err == 2 * (mid_xx + old_yy) + mid_xx * mid_xx + old_yy * old_yy
                                - r0 * r0 + 2,
                            yy == old_yy + 1,
                    ;
                }
                err = err + (yy * 2 + 1);
            }

            if !(xx < 0) {
                break ;
            }
        }
    }
}

impl Framebuffer {
    /// Draw a filled circle of the given radius around `(x_mid, y_mid)`:
    /// an antialiased rim around a solid interior.  A midpoint too close to
    /// an edge for the radius is rejected.
    #[verifier::rlimit(100)]
    pub fn draw_filled_circle(&mut self, x_mid: usize, y_mid: usize, radius: usize, colour: u32)
        requires
            old(self).wf(),
            x_mid < radius || y_mid < radius || (1 <= radius && radius + 1 <= x_mid && radius + 1
                <= y_mid && x_mid + radius + 1 <= 255 && y_mid + radius + 1 <= 255),
        ensures
            final(self).wf(),
            final(self).gfx == old(self).gfx,
            final(self).font == old(self).font,
            x_mid < radius || y_mid < radius ==> final(self).buffer == old(self).buffer,
            forall|i: int|
                0 <= i < SCREEN_LENGTH ==> final(self).buffer@[i] == old(self).buffer@[i]
                    || in_square(i, x_mid as int, y_mid as int, radius as int + 1),
    {
        if x_mid < radius || y_mid < radius {
            return ;
        }
        let r0 = radius as isize;
        let xm = x_mid as isize;
        let ym = y_mid as isize;
        let mut xx: isize = -r0;
        let mut yy: isize = 0;
        let mut err: isize = 2 - 2 * r0;
        // equivalent to 2 * radius - 1
        let diameter = 1 - err;
        proof {
            assert(err == 2 * (xx + yy) + xx * xx + yy * yy - r0 * r0 + 2) by (nonlinear_arith)
                requires
                    err == 2 - 2 * r0,
                    xx == -r0,
                    yy == 0,
            ;
        }
        loop
            invariant_except_break
                xx <= 0,
            invariant
                old(self).wf(),
                self.wf(),
                self.gfx == old(self).gfx,
                self.font == old(self).font,
                forall|i: int|
                    0 <= i < SCREEN_LENGTH ==> self.buffer@[i] == old(self).buffer@[i]
                        || in_square(i, x_mid as int, y_mid as int, radius as int + 1),
                r0 == radius,
                xm == x_mid && ym == y_mid,
                1 <= radius,
                radius + 1 <= x_mid && radius + 1 <= y_mid,
                x_mid + radius + 1 <= 255 && y_mid + radius + 1 <= 255,
                diameter == 2 * r0 - 1,
                -r0 <= xx <= 1,
                0 <= yy <= r0,
                err == 2 * (xx + yy) + xx * xx + yy * yy - r0 * r0 + 2,
            ensures
                self.gfx == old(self).gfx,
                self.font == old(self).font,
                self.wf(),
                forall|i: int|
                    0 <= i < SCREEN_LENGTH ==> self.buffer@[i] == old(self).buffer@[i]
                        || in_square(i, x_mid as int, y_mid as int, radius as int + 1),
            decreases r0 - yy - xx,
        {
            proof {
                assert(0 <= xx * xx <= r0 * r0 && 0 <= yy * yy <= r0 * r0 && r0 * r0 <= 65025)
                    by (nonlinear_arith)
                    requires
                        -255 <= -r0 <= xx <= 0,
                        0 <= yy <= r0 <= 255,
                ;
            }
            // blend value of the rim pixel
            let dist = err - 2 * (xx + yy) - 2;
            let mag = if dist < 0 {
                -dist
            } else {
                dist
            };
            let mut alpha: isize = 255 * mag / diameter;

            {
                let new_colour = (colour & 0x00_FF_FF_FF) | (255u32.wrapping_sub(alpha as u32)
                    << 24);
                let m1 = radius + 1;
                self.blend_in_square((xm - xx) as usize, (ym + yy) as usize, x_mid, y_mid, m1, new_colour);
                self.blend_in_square((xm - yy) as usize, (ym - xx) as usize, x_mid, y_mid, m1, new_colour);
                self.blend_in_square((xm + xx) as usize, (ym - yy) as usize, x_mid, y_mid, m1, new_colour);
                self.blend_in_square((xm + yy) as usize, (ym + xx) as usize, x_mid, y_mid, m1, new_colour);
            }

            let e2 = err;
            let x2 = xx;
            let ghost old_xx = xx;
            let ghost old_yy = yy;

            if err + yy > 0 {
                let dist2 = err - 2 * xx - 1;
                alpha = 255 * (if dist2 < 0 {
                    -dist2
                } else {
                    dist2
                }) / diameter;
                if alpha < 256 {
                    let new_colour = (colour & 0x00_FF_FF_FF) | (255u32.wrapping_sub(
                        alpha as u32,
                    ) << 24);
                    let m1 = radius + 1;
                    self.blend_in_square((xm - xx) as usize, (ym + yy + 1) as usize, x_mid, y_mid, m1, new_colour);
                    self.blend_in_square((xm - yy - 1) as usize, (ym - xx) as usize, x_mid, y_mid, m1, new_colour);
                    self.blend_in_square((xm + xx) as usize, (ym - yy - 1) as usize, x_mid, y_mid, m1, new_colour);
                    self.blend_in_square((xm + yy + 1) as usize, (ym + xx) as usize, x_mid, y_mid, m1, new_colour);
                }
                xx = xx + 1;
                proof {
                    assert(e2 + 2 * xx + 1 == 2 * (xx + yy) + xx * xx + yy * yy - r0 * r0 + 2)
                        by (nonlinear_arith)
                        requires
                            e2 == 2 * (old_xx + yy) + old_xx * old_xx + yy * yy - r0 * r0 + 2,
                            xx == old_xx + 1,
                    ;
                }
                err = err + (xx * 2 + 1);
            }

            if e2 + x2 <= 0 {
                // fill the four diagonal runs inward from the rim
                let mut current_x = (xm - x2 - 1) as usize;
                let mut current_y = (ym + yy) as usize;
                while current_x > x_mid || current_y > y_mid
                    invariant
                        old(self).wf(),
                        self.wf(),
                        self.gfx == old(self).gfx,
                        self.font == old(self).font,
                        forall|i: int|
                            0 <= i < SCREEN_LENGTH ==> self.buffer@[i] == old(self).buffer@[i]
                                || in_square(i, x_mid as int, y_mid as int, radius as int + 1),
                        r0 == radius && xm == x_mid && ym == y_mid,
                        1 <= radius,
                        radius + 1 <= x_mid && radius + 1 <= y_mid,
                        x_mid + radius + 1 <= 255 && y_mid + radius + 1 <= 255,
                        -r0 <= x2 <= 0,
                        0 <= yy <= r0,
                        current_x as int - current_y as int == (xm - x2 - 1) - (ym + yy),
                        current_x as int <= xm - x2 - 1,
                    decreases vstd::math::max(
                        current_x as int - x_mid as int,
                        current_y as int - y_mid as int,
                    ),
                {
                    self.paint_in_square(current_x, current_y, x_mid, y_mid, radius + 1, colour);
                    current_x = current_x - 1;
                    current_y = current_y - 1;
                }

                let mut current_x = (xm + yy) as usize;
                let mut current_y = (ym + x2 + 1) as usize;
                while current_x > x_mid || current_y < y_mid
                    invariant
                        old(self).wf(),
                        self.wf(),
                        self.gfx == old(self).gfx,
                        self.font == old(self).font,
                        forall|i: int|
                            0 <= i < SCREEN_LENGTH ==> self.buffer@[i] == old(self).buffer@[i]
                                || in_square(i, x_mid as int, y_mid as int, radius as int + 1),
                        r0 == radius && xm == x_mid && ym == y_mid,
                        1 <= radius,
                        radius + 1 <= x_mid && radius + 1 <= y_mid,
                        x_mid + radius + 1 <= 255 && y_mid + radius + 1 <= 255,
                        -r0 <= x2 <= 0,
                        0 <= yy <= r0,
                        current_x as int + current_y as int == (xm + yy) + (ym + x2 + 1),
                        current_x as int <= xm + yy,
                    decreases vstd::math::max(
                        current_x as int - x_mid as int,
                        y_mid as int - current_y as int,
                    ),
                {
                    self.paint_in_square(current_x, current_y, x_mid, y_mid, radius + 1, colour);
                    current_x = current_x - 1;
                    current_y = current_y + 1;
                }

                let mut current_x = (xm - yy) as usize;
                let mut current_y = (ym - x2 - 1) as usize;
                while current_x < x_mid || current_y > y_mid
                    invariant
                        old(self).wf(),
                        self.wf(),
                        self.gfx == old(self).gfx,
                        self.font == old(self).font,
                        forall|i: int|
                            0 <= i < SCREEN_LENGTH ==> self.buffer@[i] == old(self).buffer@[i]
                                || in_square(i, x_mid as int, y_mid as int, radius as int + 1),
                        r0 == radius && xm == x_mid && ym == y_mid,
                        1 <= radius,
                        radius + 1 <= x_mid && radius + 1 <= y_mid,
                        x_mid + radius + 1 <= 255 && y_mid + radius + 1 <= 255,
                        -r0 <= x2 <= 0,
                        0 <= yy <= r0,
                        current_x as int + current_y as int == (xm - yy) + (ym - x2 - 1),
                        current_x as int >= xm - yy,
                    decreases vstd::math::max(
                        x_mid as int - current_x as int,
                        current_y as int - y_mid as int,
                    ),
                {
                    self.paint_in_square(current_x, current_y, x_mid, y_mid, radius + 1, colour);
                    current_x = current_x + 1;
                    current_y = current_y - 1;
                }

                let mut current_x = (xm + x2 + 1) as usize;
                let mut current_y = (ym - yy) as usize;
                while current_x < x_mid || current_y < y_mid
                    invariant
                        old(self).wf(),
                        self.wf(),
                        self.gfx == old(self).gfx,
                        self.font == old(self).font,
                        forall|i: int|
                            0 <= i < SCREEN_LENGTH ==> self.buffer@[i] == old(self).buffer@[i]
                                || in_square(i, x_mid as int, y_mid as int, radius as int + 1),
                        r0 == radius && xm == x_mid && ym == y_mid,
                        1 <= radius,
                        radius + 1 <= x_mid && radius + 1 <= y_mid,
                        x_mid + radius + 1 <= 255 && y_mid + radius + 1 <= 255,
                        -r0 <= x2 <= 0,
                        0 <= yy <= r0,
                        current_x as int - current_y as int == (xm + x2 + 1) - (ym - yy),
                        current_x as int >= xm + x2 + 1,
                    decreases vstd::math::max(
                        x_mid as int - current_x as int,
                        y_mid as int - current_y as int,
                    ),
                {
                    self.paint_in_square(current_x, current_y, x_mid, y_mid, radius + 1, colour);
                    current_x = current_x + 1;
                    current_y = current_y + 1;
                }

                proof {
                    if yy == r0 {
                        assert(e2 + x2 > 0) by (nonlinear_arith)
                            requires
                                yy == r0,
                                r0 >= 1,
                                -r0 <= x2 <= 0,
                                e2 == 2 * (x2 + yy) + x2 * x2 + yy * yy - r0 * r0 + 2,
                        ;
                    }
                }
                let ghost mid_err = err;
                let ghost mid_xx = xx;
                yy = yy + 1;
                proof {
                    assert(mid_err + 2 * yy + 1 == 2 * (mid_xx + yy) + mid_xx * mid_xx + yy * yy
                        - r0 * r0 + 2) by (nonlinear_arith)
                        requires
                            mid_err == 2 * (mid_xx + old_yy) + mid_xx * mid_xx + old_yy * old_yy
                                - r0 * r0 + 2,
                            yy == old_yy + 1,
                    ;
                }
                err = err + (yy * 2 + 1);
            }

            if !(xx < 0) {
                break ;
            }
        }

        self.paint_in_square(x_mid, y_mid, x_mid, y_mid, radius + 1, colour);
    }
}

impl Default for Framebuffer {
    fn default() -> (r: Framebuffer)
        ensures
            r.wf(),
            forall|i: int| 0 <= i < SCREEN_LENGTH ==> r.buffer@[i] == palette_spec(0),
            forall|i: int| 0 <= i < GFX_LENGTH ==> r.gfx@[i] == 0,
            forall|i: int| 0 <= i < FONT_LENGTH ==> r.font@[i] == 0,
    {
        Framebuffer::new()
    }
}

impl PartialEq for Framebuffer {
    /// Two render targets are equal when they show the same pixels.
    fn eq(&self, other: &Framebuffer) -> (r: bool)
    {
        let n = self.buffer.len();
        if n != other.buffer.len() {
            return false;
        }
        let mut i: usize = 0;
        while i < n
            invariant
                i <= n,
                n == self.buffer@.len() == other.buffer@.len(),
                forall|j: int| 0 <= j < i ==> self.buffer@[j] == other.buffer@[j],
            decreases n - i,
        {
            if self.buffer[i] != other.buffer[i] {
                return false;
            }
            i = i + 1;
        }
        proof {
            assert(self.buffer@ =~= other.buffer@);
        }
        true
    }
}

impl vstd::std_specs::cmp::PartialEqSpecImpl for Framebuffer {
    open spec fn obeys_eq_spec() -> bool {
        true
    }

    open spec fn eq_spec(&self, other: &Framebuffer) -> bool {
        self.same_pixels(*other)
    }
}

impl Eq for Framebuffer {

}

} // verus!
