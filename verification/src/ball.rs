//! Balls: moving rectangles with a velocity direction and a speed scalar.
//!
//! A fresh ball's direction comes from one random draw `d` in
//! `[-UNIT, UNIT]`: the raw vector `(d, UNIT)` is normalized to length
//! roughly `UNIT` with an integer square root, so the ball always starts
//! moving downward. Wall contact overrides the direction's sign outright
//! (it does not reflect): a ball still overlapping a wall keeps being
//! redirected every frame until it clears.
use vstd::prelude::*;

use crate::geom::{
    clamp_pos_spec, rect_within, scaled_motion, vel_within, Rect, Vec2i, DELTA_LIMIT,
    DIR_TIME_DIV, POS_LIMIT, POS_SLACK_LIMIT, SCREEN_LIMIT, SPEED_LIMIT, UNIT,
};
use crate::geom::{clamp_pos, scale_motion};

verus! {

/// Ball width in milli-pixels.
pub const BALL_W: i64 = 50_000;

/// Ball height in milli-pixels.
pub const BALL_H: i64 = 50_000;

/// Ball speed in milli-pixels per second.
pub const BALL_SPEED: i64 = 400_000;

/// One ball.
#[derive(Clone, Copy, PartialEq, Eq, Structural, Debug)]
pub struct Ball {
    pub rect: Rect,
    pub vel: Vec2i,
    pub speed: i64,
}

/// A well-formed ball: standard size, position within the slack bound
/// (collision resolution may push a ball slightly past the free-motion
/// bound), bounded velocity, sane speed.
pub open spec fn ball_wf(b: Ball) -> bool {
    &&& rect_within(b.rect, POS_SLACK_LIMIT as int)
    &&& b.rect.w == BALL_W
    &&& b.rect.h == BALL_H
    &&& vel_within(b.vel)
    &&& 0 < b.speed <= SPEED_LIMIT
}

/// The non-negative integer square root of `x`.
pub open spec fn isqrt_spec(x: int) -> int {
    choose|r: int| 0 <= r && #[trigger] (r * r) <= x && x < (r + 1) * (r + 1)
}

/// Two integers that both behave as the integer square root of `x` are
/// equal.
pub proof fn lemma_isqrt_unique(x: int, a: int, b: int)
    requires
        0 <= a,
        a * a <= x,
        x < (a + 1) * (a + 1),
        0 <= b,
        b * b <= x,
        x < (b + 1) * (b + 1),
    ensures
        a == b,
{
    assert(a == b) by (nonlinear_arith)
        requires
            0 <= a,
            a * a <= x,
            x < (a + 1) * (a + 1),
            0 <= b,
            b * b <= x,
            x < (b + 1) * (b + 1),
    ;
}

/// Compute the integer square root of a small non-negative value.
pub fn isqrt(x: i64) -> (r: i64)
    requires
        0 <= x <= 4_000_000,
    ensures
        0 <= r,
        r * r <= x,
        x < (r + 1) * (r + 1),
        r as int == isqrt_spec(x as int),
{
    let mut r: i64 = 0;
    let mut sq: i64 = 1;
    while sq <= x
        invariant
            0 <= r <= 2000,
            1 <= sq <= 9_000_000,
            sq == (r + 1) * (r + 1),
            r * r <= x,
            0 <= x <= 4_000_000,
        decreases 2001 - r,
    {
        assert(r + 1 <= 2000) by (nonlinear_arith)
            requires
                0 <= r,
                (r + 1) * (r + 1) <= 4_000_000,
        ;
        r = r + 1;
        sq = sq + 2 * r + 1;
        assert(sq == (r + 1) * (r + 1)) by (nonlinear_arith)
            requires
                sq == r * r + 2 * r + 1,
        ;
    }
    proof {
        let w = r as int;
        assert(0 <= w && w * w <= x && (x as int) < (w + 1) * (w + 1));
        assert(exists|t: int| 0 <= t && #[trigger] (t * t) <= x && (x as int) < (t + 1) * (t + 1));
        let c = isqrt_spec(x as int);
        assert(0 <= c && c * c <= x && (x as int) < (c + 1) * (c + 1));
        lemma_isqrt_unique(x as int, w, c);
    }
    r
}

/// The ball served at `pos` from the raw direction draw `d`: the vector
/// `(d, UNIT)` scaled by `UNIT` and divided by its integer length, so the
/// vertical component is always strictly downward.
pub open spec fn ball_new_spec(pos: Vec2i, d: int) -> Ball {
    let n = isqrt_spec(d * d + UNIT * UNIT);
    let mag = (if d >= 0 {
        d
    } else {
        -d
    }) * UNIT / n;
    Ball {
        rect: Rect { x: pos.x, y: pos.y, w: BALL_W, h: BALL_H },
        vel: Vec2i {
            x: (if d >= 0 {
                mag
            } else {
                -mag
            }) as i64,
            y: (UNIT * UNIT / n) as i64,
        },
        speed: BALL_SPEED,
    }
}

/// One free-motion update: integrate the velocity over the elapsed time,
/// clamp the position into the free-motion bound, then apply the wall
/// overrides. Touching the left wall forces the direction rightward,
/// the right wall leftward, the ceiling downward; the bottom edge is not
/// handled here (falling past it is a removal condition, not a bounce).
pub open spec fn ball_update_spec(b: Ball, delta: int, screen_w: int) -> Ball {
    let dx = scaled_motion(b.vel.x as int, b.speed as int, delta, DIR_TIME_DIV as int);
    let dy = scaled_motion(b.vel.y as int, b.speed as int, delta, DIR_TIME_DIV as int);
    let nx = clamp_pos_spec(b.rect.x + dx);
    let ny = clamp_pos_spec(b.rect.y + dy);
    let vx1 = if nx < 0 {
        UNIT as int
    } else {
        b.vel.x as int
    };
    let vx2 = if nx > screen_w - b.rect.w {
        -(UNIT as int)
    } else {
        vx1
    };
    let vy1 = if ny < 0 {
        UNIT as int
    } else {
        b.vel.y as int
    };
    Ball {
        rect: Rect { x: nx as i64, y: ny as i64, ..b.rect },
        vel: Vec2i { x: vx2 as i64, y: vy1 as i64 },
        speed: b.speed,
    }
}

impl Ball {
    /// Serve a ball at `pos` with a direction built from the raw draw `d`.
    pub fn new(pos: Vec2i, d: i64) -> (b: Ball)
        requires
            -UNIT <= d <= UNIT,
            -POS_SLACK_LIMIT <= pos.x <= POS_SLACK_LIMIT,
            -POS_SLACK_LIMIT <= pos.y <= POS_SLACK_LIMIT,
        ensures
            b == ball_new_spec(pos, d as int),
            ball_wf(b),
            1 <= b.vel.y,
            -UNIT <= b.vel.x <= UNIT,
    {
        proof {
            assert(0 <= (d as int) * (d as int) <= 1_000_000) by (nonlinear_arith)
                requires
                    -1000 <= d <= 1000,
            ;
        }
        let dd = d * d + UNIT * UNIT;
        let n = isqrt(dd);
        assert(1000 <= n <= 1414) by (nonlinear_arith)
            requires
                0 <= n,
                n * n <= dd,
                dd < (n + 1) * (n + 1),
                1_000_000 <= dd <= 2_000_000,
        ;
        let dmag = if d >= 0 {
            d
        } else {
            -d
        };
        let mag = dmag * UNIT / n;
        assert(0 <= mag <= 1000) by (nonlinear_arith)
            requires
                0 <= dmag <= 1000,
                1000 <= n,
                mag as int == (dmag as int) * 1000 / (n as int),
        ;
        let vx = if d >= 0 {
            mag
        } else {
            -mag
        };
        let vy = UNIT * UNIT / n;
        assert(1 <= vy <= 1000) by (nonlinear_arith)
            requires
                1000 <= n <= 1414,
                vy as int == 1_000_000 as int / (n as int),
        ;
        Ball {
            rect: Rect { x: pos.x, y: pos.y, w: BALL_W, h: BALL_H },
            vel: Vec2i { x: vx, y: vy },
            speed: BALL_SPEED,
        }
    }

    /// Advance the ball by one frame of free motion plus wall checks.
    /// Whenever the playfield is at least as wide as the ball, a ball
    /// that ends the update past the left wall is moving rightward, one
    /// past the right wall leftward, and one past the ceiling downward.
    pub fn update(&mut self, delta: i64, screen_w: i64)
        requires
            ball_wf(*old(self)),
            0 <= delta <= DELTA_LIMIT,
            0 <= screen_w <= SCREEN_LIMIT,
        ensures
            *final(self) == ball_update_spec(*old(self), delta as int, screen_w as int),
            ball_wf(*final(self)),
            rect_within(final(self).rect, POS_LIMIT as int),
            screen_w >= BALL_W && final(self).rect.x < 0 ==> final(self).vel.x == UNIT,
            final(self).rect.x > screen_w - BALL_W ==> final(self).vel.x == -UNIT,
            final(self).rect.y < 0 ==> final(self).vel.y == UNIT,
    {
        let dx = scale_motion(self.vel.x, self.speed, delta, DIR_TIME_DIV);
        let dy = scale_motion(self.vel.y, self.speed, delta, DIR_TIME_DIV);
        self.rect.x = clamp_pos(self.rect.x + dx);
        self.rect.y = clamp_pos(self.rect.y + dy);
        if self.rect.x < 0 {
            self.vel.x = UNIT;
        }
        if self.rect.x > screen_w - BALL_W {
            self.vel.x = -UNIT;
        }
        if self.rect.y < 0 {
            self.vel.y = UNIT;
        }
    }
}

} // verus!
