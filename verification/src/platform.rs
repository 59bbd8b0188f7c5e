//! The host-facing types: per-frame input snapshots, sound-effect requests,
//! and the trait through which a host drives the game.

use vstd::prelude::*;

verus! {

/// A set of gamepad buttons, kept as a bit mask; the bit values match the
/// classic NES input register layout.
#[derive(Clone, Copy, PartialEq, Eq, Structural, Debug)]
pub struct Buttons {
    pub bits: u8,
}

impl Buttons {
    /// Membership of a whole button set: all of `other`'s bits are set.
    pub open spec fn has(self, other: Buttons) -> bool {
        self.bits & other.bits == other.bits
    }

    pub fn empty() -> (r: Buttons)
        ensures
            r.bits == 0,
    {
        Buttons { bits: 0 }
    }

    pub fn a() -> (r: Buttons)
        ensures
            r.bits == 0x01,
    {
        Buttons { bits: 0x01 }
    }

    pub fn b() -> (r: Buttons)
        ensures
            r.bits == 0x02,
    {
        Buttons { bits: 0x02 }
    }

    pub fn select() -> (r: Buttons)
        ensures
            r.bits == 0x04,
    {
        Buttons { bits: 0x04 }
    }

    pub fn start() -> (r: Buttons)
        ensures
            r.bits == 0x08,
    {
        Buttons { bits: 0x08 }
    }

    pub fn up() -> (r: Buttons)
        ensures
            r.bits == 0x10,
    {
        Buttons { bits: 0x10 }
    }

    pub fn down() -> (r: Buttons)
        ensures
            r.bits == 0x20,
    {
        Buttons { bits: 0x20 }
    }

    pub fn left() -> (r: Buttons)
        ensures
            r.bits == 0x40,
    {
        Buttons { bits: 0x40 }
    }

    pub fn right() -> (r: Buttons)
        ensures
            r.bits == 0x80,
    {
        Buttons { bits: 0x80 }
    }

    pub fn contains(self, other: Buttons) -> (r: bool)
        ensures
            r == self.has(other),
    {
        self.bits & other.bits == other.bits
    }

    pub fn insert(&mut self, other: Buttons)
        ensures
            final(self).bits == (old(self).bits | other.bits),
    {
        self.bits = self.bits | other.bits;
    }

    pub fn remove(&mut self, other: Buttons)
        ensures
            final(self).bits == (old(self).bits & !other.bits),
    {
        self.bits = self.bits & !other.bits;
    }
}

impl Default for Buttons {
    fn default() -> (r: Buttons)
        ensures
            r.bits == 0,
    {
        Buttons { bits: 0 }
    }
}

/// The input snapshot a host hands the core each frame: the buttons held
/// this frame and the buttons held the frame before.
#[derive(Clone, Copy, PartialEq, Eq, Structural, Debug)]
pub struct Input {
    pub gamepad: Buttons,
    pub previous_gamepad: Buttons,
}

impl Input {
    pub open spec fn spec_pressed_this_frame(self, buttons: Buttons) -> bool {
        !self.previous_gamepad.has(buttons) && self.gamepad.has(buttons)
    }

    pub open spec fn spec_released_this_frame(self, buttons: Buttons) -> bool {
        self.previous_gamepad.has(buttons) && !self.gamepad.has(buttons)
    }

    pub fn new() -> (r: Input)
        ensures
            r.gamepad.bits == 0,
            r.previous_gamepad.bits == 0,
    {
        Input { gamepad: Buttons::empty(), previous_gamepad: Buttons::empty() }
    }

    /// Edge trigger: the buttons are held now and were not held last frame.
    pub fn pressed_this_frame(&self, buttons: Buttons) -> (r: bool)
        ensures
            r == self.spec_pressed_this_frame(buttons),
    {
        !self.previous_gamepad.contains(buttons) && self.gamepad.contains(buttons)
    }

    /// Edge trigger: the buttons were held last frame and are released now.
    pub fn released_this_frame(&self, buttons: Buttons) -> (r: bool)
        ensures
            r == self.spec_released_this_frame(buttons),
    {
        self.previous_gamepad.contains(buttons) && !self.gamepad.contains(buttons)
    }
}

impl Default for Input {
    fn default() -> (r: Input)
        ensures
            r.gamepad.bits == 0,
            r.previous_gamepad.bits == 0,
    {
        Input { gamepad: Buttons { bits: 0 }, previous_gamepad: Buttons { bits: 0 } }
    }
}

/// A named sound effect the core can request.
#[derive(Clone, Copy, PartialEq, Eq, Structural, Debug)]
pub enum SFX {
    MovePiece,
    Wud,
}

impl SFX {
    /// The key under which the host looks the effect's sample up.
    pub fn to_sound_key(&self) -> (r: &'static str)
        ensures
            self is MovePiece ==> r@ == "move"@,
            self is Wud ==> r@ == "thud"@,
    {
        match *self {
            SFX::MovePiece => "move",
            SFX::Wud => "thud",
        }
    }
}

/// A write-only queue of sound-effect requests; the host drains it once per
/// frame.
pub struct Speaker {
    pub requests: Vec<SFX>,
}

impl Speaker {
    pub fn new() -> (r: Speaker)
        ensures
            r.requests@.len() == 0,
    {
        Speaker { requests: Vec::new() }
    }

    pub fn request_sfx(&mut self, sfx: SFX)
        ensures
            final(self).requests@ == old(self).requests@.push(sfx),
    {
        self.requests.push(sfx);
    }

    /// Hand every queued request out and leave the queue empty.
    pub fn drain(&mut self) -> (r: Vec<SFX>)
        ensures
            r@ == old(self).requests@,
            final(self).requests@.len() == 0,
    {
        let mut out: Vec<SFX> = Vec::new();
        core::mem::swap(&mut out, &mut self.requests);
        out
    }
}

} // verus!
