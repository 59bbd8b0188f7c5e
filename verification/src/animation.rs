//! In-flight piece motions: one record per half-hexagon in transit.
//!
//! Both axes approach the target independently, each by a fixed per-step
//! rate, clamped so that an axis never overshoots.  The per-axis distance to
//! the target is therefore non-increasing, and the motion finishes within
//! `ceil(initial distance / rate)` steps.

use vstd::prelude::*;
use vstd::arithmetic::div_mod::lemma_fundamental_div_mod;
use crate::cell::HalfHexSpec;
use crate::layout::GRID_LENGTH;
use crate::layout::i_to_xy;

verus! {

/// Divisor turning an axis distance into that axis's per-step rate.
pub const DELAY_FACTOR: u8 = 16;

#[derive(Clone, Copy, Debug)]
pub struct Animation {
    pub x: u8,
    pub y: u8,
    pub target_x: u8,
    pub target_y: u8,
    pub x_rate: u8,
    pub y_rate: u8,
    /// Appearance code carried to the destination; `None` means the
    /// destination becomes `Absent` on arrival.
    pub payload: Option<HalfHexSpec>,
}

pub open spec fn min_int(a: int, b: int) -> int {
    if a < b {
        a
    } else {
        b
    }
}

/// Distance between an axis position and its target.
pub open spec fn axis_dist(cur: int, target: int) -> int {
    if cur >= target {
        cur - target
    } else {
        target - cur
    }
}

/// Per-step rate of an axis whose initial distance is `d`.
pub open spec fn rate_for(d: int) -> int {
    if d / 16 >= 1 {
        d / 16
    } else {
        1
    }
}

/// Signed movement of one axis in one step: toward the target by at most
/// `rate`, and never past it.
pub open spec fn axis_delta(cur: int, target: int, rate: int) -> int {
    if target == cur {
        0
    } else if cur > target {
        -min_int(cur - target, rate)
    } else {
        min_int(target - cur, rate)
    }
}

/// Axis position after one step.
pub open spec fn step_axis(cur: int, target: int, rate: int) -> int {
    cur + axis_delta(cur, target, rate)
}

/// Axis position after `k` steps.
pub open spec fn iter_step_axis(cur: int, target: int, rate: int, k: nat) -> int
    decreases k,
{
    if k == 0 {
        cur
    } else {
        iter_step_axis(step_axis(cur, target, rate), target, rate, (k - 1) as nat)
    }
}

/// The motion record a swap from cell `i` toward cell `t` creates.
pub open spec fn spec_new_animation(i: int, t: int, payload: Option<HalfHexSpec>) -> Animation {
    Animation {
        x: (i % 40) as u8,
        y: (i / 40) as u8,
        target_x: (t % 40) as u8,
        target_y: (t / 40) as u8,
        x_rate: rate_for(axis_dist(i % 40, t % 40)) as u8,
        y_rate: rate_for(axis_dist(i / 40, t / 40)) as u8,
        payload,
    }
}

/// The record after one step of motion: both axes advanced, the rest kept.
pub open spec fn step_animation(a: Animation) -> Animation {
    Animation {
        x: step_axis(a.x as int, a.target_x as int, a.x_rate as int) as u8,
        y: step_axis(a.y as int, a.target_y as int, a.y_rate as int) as u8,
        ..a
    }
}

impl Animation {
    /// Positions lie on the board and both rates are positive.
    pub open spec fn wf(self) -> bool {
        &&& self.x < 40
        &&& self.y < 60
        &&& self.target_x < 40
        &&& self.target_y < 60
        &&& self.x_rate >= 1
        &&& self.y_rate >= 1
    }

    /// A fresh motion from cell `i` to cell `target_i`.
    pub fn new(i: usize, target_i: usize, payload: Option<HalfHexSpec>) -> (r: Animation)
        requires
            i < GRID_LENGTH,
            target_i < GRID_LENGTH,
        ensures
            r.wf(),
            r.x as int == i as int % 40,
            r.y as int == i as int / 40,
            r.target_x as int == target_i as int % 40,
            r.target_y as int == target_i as int / 40,
            r.x_rate as int == rate_for(axis_dist(r.x as int, r.target_x as int)),
            r.y_rate as int == rate_for(axis_dist(r.y as int, r.target_y as int)),
            r.payload == payload,
            r == spec_new_animation(i as int, target_i as int, payload),
    {
        let (x, y) = i_to_xy(i);
        let (target_x, target_y) = i_to_xy(target_i);

        let x_diff: u8 = if target_x == x {
            0
        } else if x > target_x {
            x - target_x
        } else {
            target_x - x
        };
        let y_diff: u8 = if target_y == y {
            0
        } else if y > target_y {
            y - target_y
        } else {
            target_y - y
        };

        let x_over = x_diff / DELAY_FACTOR;
        let y_over = y_diff / DELAY_FACTOR;

        Animation {
            x,
            y,
            x_rate: if x_over >= 1 {
                x_over
            } else {
                1
            },
            y_rate: if y_over >= 1 {
                y_over
            } else {
                1
            },
            target_x,
            target_y,
            payload,
        }
    }

    pub fn is_complete(&self) -> (r: bool)
        ensures
            r == (self.x == self.target_x && self.y == self.target_y),
    {
        self.x == self.target_x && self.y == self.target_y
    }

    /// Signed per-axis movement of the next step.
    pub fn get_delta(&self) -> (r: (i8, i8))
        requires
            self.wf(),
        ensures
            r.0 as int == axis_delta(self.x as int, self.target_x as int, self.x_rate as int),
            r.1 as int == axis_delta(self.y as int, self.target_y as int, self.y_rate as int),
    {
        (
            if self.target_x == self.x {
                0
            } else if self.x > self.target_x {
                let x_diff = self.x - self.target_x;
                -((if x_diff < self.x_rate {
                    x_diff
                } else {
                    self.x_rate
                }) as i8)
            } else {
                let x_diff = self.target_x - self.x;
                (if x_diff < self.x_rate {
                    x_diff
                } else {
                    self.x_rate
                }) as i8
            },
            if self.target_y == self.y {
                0
            } else if self.y > self.target_y {
                let y_diff = self.y - self.target_y;
                -((if y_diff < self.y_rate {
                    y_diff
                } else {
                    self.y_rate
                }) as i8)
            } else {
                let y_diff = self.target_y - self.y;
                (if y_diff < self.y_rate {
                    y_diff
                } else {
                    self.y_rate
                }) as i8
            },
        )
    }

    /// Advance both axes one step toward the target, never overshooting.
    pub fn approach_target(&mut self)
        requires
            old(self).wf(),
        ensures
            final(self).wf(),
            final(self).x as int == step_axis(
                old(self).x as int,
                old(self).target_x as int,
                old(self).x_rate as int,
            ),
            final(self).y as int == step_axis(
                old(self).y as int,
                old(self).target_y as int,
                old(self).y_rate as int,
            ),
            final(self).target_x == old(self).target_x,
            final(self).target_y == old(self).target_y,
            final(self).x_rate == old(self).x_rate,
            final(self).y_rate == old(self).y_rate,
            final(self).payload == old(self).payload,
            *final(self) == step_animation(*old(self)),
    {
        let (d_x, d_y) = self.get_delta();

        self.x = if d_x > 0 {
            self.x + (d_x as u8)
        } else if d_x < 0 {
            self.x - ((-d_x) as u8)
        } else {
            self.x
        };
        self.y = if d_y > 0 {
            self.y + (d_y as u8)
        } else if d_y < 0 {
            self.y - ((-d_y) as u8)
        } else {
            self.y
        };
    }
}

/// One step never increases an axis's distance to its target; it shrinks the
/// distance by exactly the smaller of the distance and the rate.
pub proof fn lemma_approach_monotonic(cur: int, target: int, rate: int)
    requires
        rate >= 1,
    ensures
        axis_dist(step_axis(cur, target, rate), target) == axis_dist(cur, target) - min_int(
            axis_dist(cur, target),
            rate,
        ),
        axis_dist(step_axis(cur, target, rate), target) <= axis_dist(cur, target),
        axis_dist(cur, target) > 0 ==> axis_dist(step_axis(cur, target, rate), target) < axis_dist(
            cur,
            target,
        ),
{
}

/// An axis reaches its target within `k` steps whenever `k * rate` covers the
/// initial distance; in particular within `ceil(distance / rate)` steps.
pub proof fn lemma_approach_terminates(cur: int, target: int, rate: int, k: nat)
    requires
        rate >= 1,
        k * rate >= axis_dist(cur, target),
    ensures
        iter_step_axis(cur, target, rate, k) == target,
    decreases k,
{
    if k == 0 {
        assert(k * rate == 0) by (nonlinear_arith)
            requires
                k == 0,
        ;
    } else {
        let next = step_axis(cur, target, rate);
        lemma_approach_monotonic(cur, target, rate);
        assert((k - 1) as nat * rate == k * rate - rate) by (nonlinear_arith)
            requires
                k >= 1,
        ;
        lemma_approach_terminates(next, target, rate, (k - 1) as nat);
    }
}

///`ceil(d / rate)` steps suffice: that many rate-sized steps cover `d`.
pub proof fn lemma_ceil_steps_cover(d: int, rate: int)
    requires
        rate >= 1,
        d >= 0,
    ensures
        ((d + rate - 1) / rate) * rate >= d,
        d > 0 ==> (d + rate - 1) / rate >= 1,
{
    let q = (d + rate - 1) / rate;
    let r = (d + rate - 1) % rate;
    lemma_fundamental_div_mod(d + rate - 1, rate);
    vstd::arithmetic::div_mod::lemma_mod_bound(d + rate - 1, rate);
    assert(q * rate == d + rate - 1 - r) by (nonlinear_arith)
        requires
            d + rate - 1 == rate * q + r,
    ;
    if d > 0 && q < 1 {
        assert(rate * q <= 0) by (nonlinear_arith)
            requires
                rate >= 1,
                q <= 0,
        ;
    }
}

} // verus!
