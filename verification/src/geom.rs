//! Integer fixed-point geometry: rectangles, direction vectors, and the
//! scaled arithmetic the simulation uses.
//!
//! Lengths are measured in thousandths of a pixel ("milli-pixels"), velocity
//! directions in thousandths of a unit. All coordinates live inside fixed
//! bounds so that every product and sum below stays inside `i64`.
use vstd::prelude::*;

verus! {

/// One unit of a velocity direction, in thousandths.
pub const UNIT: i64 = 1000;

/// Divisor that turns direction-units times milli-pixel speed times
/// milliseconds into milli-pixels.
pub const DIR_TIME_DIV: i64 = 1000 * 1000;

/// Divisor that turns a plain intent (-1, 0, +1) times milli-pixel speed
/// times milliseconds into milli-pixels.
pub const TIME_DIV: i64 = 1000;

/// Largest magnitude a freely moving position is clamped to.
pub const POS_LIMIT: i64 = 1_000_000_000_000;

/// Largest magnitude a position may reach between clamps (collision
/// resolution may push a rectangle by at most one size per resolution).
pub const POS_SLACK_LIMIT: i64 = 1_000_000_000_000_000;

/// Largest width or height of any rectangle.
pub const SIZE_LIMIT: i64 = 1_000_000_000;

/// Largest playfield width or height.
pub const SCREEN_LIMIT: i64 = 1_000_000_000;

/// Largest magnitude of a velocity-direction component.
pub const VEL_LIMIT: i64 = 2_000_000;

/// Largest speed scalar, in milli-pixels per second.
pub const SPEED_LIMIT: i64 = 1_000_000;

/// Largest elapsed time handed to one update, in milliseconds.
pub const DELTA_LIMIT: i64 = 1_000_000;

/// An axis-aligned rectangle: top-left corner, width and height.
#[derive(Clone, Copy, PartialEq, Eq, Structural, Debug)]
pub struct Rect {
    pub x: i64,
    pub y: i64,
    pub w: i64,
    pub h: i64,
}

/// A 2D velocity direction in thousandths of a unit.
#[derive(Clone, Copy, PartialEq, Eq, Structural, Debug)]
pub struct Vec2i {
    pub x: i64,
    pub y: i64,
}

/// The sign of `v`: -1, 0 or +1.
pub open spec fn sign(v: int) -> int {
    if v > 0 {
        1
    } else if v < 0 {
        -1
    } else {
        0
    }
}

/// The rectangle `r` lies within magnitude `bound` and has sane sizes.
pub open spec fn rect_within(r: Rect, bound: int) -> bool {
    &&& -bound <= r.x <= bound
    &&& -bound <= r.y <= bound
    &&& 0 <= r.w <= SIZE_LIMIT
    &&& 0 <= r.h <= SIZE_LIMIT
}

/// Both components of `v` lie within the velocity bound.
pub open spec fn vel_within(v: Vec2i) -> bool {
    &&& -VEL_LIMIT <= v.x <= VEL_LIMIT
    &&& -VEL_LIMIT <= v.y <= VEL_LIMIT
}

/// `v` clamped into `[-POS_LIMIT, POS_LIMIT]`.
pub open spec fn clamp_pos_spec(v: int) -> int {
    if v < -POS_LIMIT {
        -POS_LIMIT as int
    } else if v > POS_LIMIT {
        POS_LIMIT as int
    } else {
        v
    }
}

/// `v` clamped into `[-VEL_LIMIT, VEL_LIMIT]`.
pub open spec fn clamp_vel_spec(v: int) -> int {
    if v < -VEL_LIMIT {
        -VEL_LIMIT as int
    } else if v > VEL_LIMIT {
        VEL_LIMIT as int
    } else {
        v
    }
}

/// Signed scaled motion: `v * s * d / q`, with the magnitude divided and the
/// sign of `v` reapplied, so truncation is always toward zero.
pub open spec fn scaled_motion(v: int, s: int, d: int, q: int) -> int {
    if v >= 0 {
        v * s * d / q
    } else {
        -((-v) * s * d / q)
    }
}

/// Clamp a position into the free-motion bound.
pub fn clamp_pos(v: i64) -> (r: i64)
    ensures
        r as int == clamp_pos_spec(v as int),
{
    if v < -POS_LIMIT {
        -POS_LIMIT
    } else if v > POS_LIMIT {
        POS_LIMIT
    } else {
        v
    }
}

/// Clamp a velocity component into the velocity bound.
pub fn clamp_vel(v: i64) -> (r: i64)
    ensures
        r as int == clamp_vel_spec(v as int),
{
    if v < -VEL_LIMIT {
        -VEL_LIMIT
    } else if v > VEL_LIMIT {
        VEL_LIMIT
    } else {
        v
    }
}

/// Compute `v * s * d / q` toward zero, for bounded operands.
pub fn scale_motion(v: i64, s: i64, d: i64, q: i64) -> (r: i64)
    requires
        -VEL_LIMIT <= v <= VEL_LIMIT,
        0 < s <= SPEED_LIMIT,
        0 <= d <= DELTA_LIMIT,
        1 <= q,
    ensures
        r as int == scaled_motion(v as int, s as int, d as int, q as int),
        -(VEL_LIMIT * SPEED_LIMIT * DELTA_LIMIT / (q as int)) <= r as int <= VEL_LIMIT
            * SPEED_LIMIT * DELTA_LIMIT / (q as int),
{
    let mag = if v >= 0 {
        v
    } else {
        -v
    };
    assert(0 <= mag * s <= VEL_LIMIT * SPEED_LIMIT) by (nonlinear_arith)
        requires
            0 <= mag <= VEL_LIMIT,
            0 < s <= SPEED_LIMIT,
    ;
    let p1 = mag * s;
    assert(0 <= p1 * d <= VEL_LIMIT * SPEED_LIMIT * DELTA_LIMIT) by (nonlinear_arith)
        requires
            0 <= p1 <= VEL_LIMIT * SPEED_LIMIT,
            0 <= d <= DELTA_LIMIT,
    ;
    let prod = p1 * d;
    let q_mag = prod / q;
    assert(0 <= q_mag <= prod) by (nonlinear_arith)
        requires
            0 <= prod,
            1 <= q,
            q_mag == prod / q,
    ;
    proof {
        vstd::arithmetic::div_mod::lemma_div_is_ordered(
            prod as int,
            VEL_LIMIT * SPEED_LIMIT * DELTA_LIMIT,
            q as int,
        );
    }
    if v >= 0 {
        q_mag
    } else {
        -q_mag
    }
}

} // verus!
