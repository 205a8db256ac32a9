//! The paddle: a horizontally moving rectangle driven by an intent of
//! -1 (left), 0 (hold) or +1 (right), clamped into the playfield.
use vstd::prelude::*;

use crate::geom::{
    rect_within, scaled_motion, Rect, DELTA_LIMIT, POS_LIMIT, SCREEN_LIMIT, SPEED_LIMIT, TIME_DIV,
};
use crate::geom::scale_motion;

verus! {

/// Paddle width in milli-pixels.
pub const PLAYER_W: i64 = 150_000;

/// Paddle height in milli-pixels.
pub const PLAYER_H: i64 = 40_000;

/// Paddle speed in milli-pixels per second.
pub const PLAYER_SPEED: i64 = 550_000;

/// The player's paddle.
#[derive(Clone, Copy, PartialEq, Eq, Structural, Debug)]
pub struct Player {
    pub rect: Rect,
    pub speed: i64,
}

/// A well-formed paddle: standard size, bounded position, sane speed.
pub open spec fn player_wf(p: Player) -> bool {
    &&& rect_within(p.rect, POS_LIMIT as int)
    &&& p.rect.w == PLAYER_W
    &&& p.rect.h == PLAYER_H
    &&& 0 < p.speed <= SPEED_LIMIT
}

/// The paddle a fresh round starts with: horizontally centred, a fixed
/// margin above the playfield's bottom edge.
pub open spec fn player_new_spec(screen_w: int, screen_h: int) -> Player {
    Player {
        rect: Rect {
            x: (screen_w / 2 - PLAYER_W / 2) as i64,
            y: (screen_h - 100_000) as i64,
            w: PLAYER_W,
            h: PLAYER_H,
        },
        speed: PLAYER_SPEED,
    }
}

/// One paddle update: move by `intent * speed * delta`, then clamp the
/// left edge to `0` and the right edge to the playfield width, in that
/// order.
pub open spec fn player_update_spec(p: Player, delta: int, intent: int, screen_w: int) -> Player {
    let dx = scaled_motion(intent, p.speed as int, delta, TIME_DIV as int);
    let x1 = p.rect.x + dx;
    let x2 = if x1 < 0 {
        0
    } else {
        x1
    };
    let x3 = if x2 > screen_w - PLAYER_W {
        screen_w - PLAYER_W
    } else {
        x2
    };
    Player { rect: Rect { x: x3 as i64, ..p.rect }, speed: p.speed }
}

impl Player {
    /// Build the paddle for a fresh round on a playfield of the given size.
    pub fn new(screen_w: i64, screen_h: i64) -> (p: Player)
        requires
            0 <= screen_w <= SCREEN_LIMIT,
            0 <= screen_h <= SCREEN_LIMIT,
        ensures
            p == player_new_spec(screen_w as int, screen_h as int),
            player_wf(p),
    {
        Player {
            rect: Rect {
                x: screen_w / 2 - PLAYER_W / 2,
                y: screen_h - 100_000,
                w: PLAYER_W,
                h: PLAYER_H,
            },
            speed: PLAYER_SPEED,
        }
    }

    /// Advance the paddle by one frame. The new position is the old one
    /// moved by `intent * speed * delta`, clamped into the playfield; the
    /// paddle never leaves `[0, screen_w - PLAYER_W]` whenever the
    /// playfield is at least as wide as the paddle, whatever the intent
    /// or elapsed time.
    pub fn update(&mut self, delta: i64, intent: i64, screen_w: i64)
        requires
            player_wf(*old(self)),
            0 <= delta <= DELTA_LIMIT,
            -1 <= intent <= 1,
            0 <= screen_w <= SCREEN_LIMIT,
        ensures
            *final(self) == player_update_spec(
                *old(self),
                delta as int,
                intent as int,
                screen_w as int,
            ),
            player_wf(*final(self)),
            screen_w >= PLAYER_W ==> 0 <= final(self).rect.x <= screen_w - PLAYER_W,
    {
        let dx = scale_motion(intent, self.speed, delta, TIME_DIV);
        let x1 = self.rect.x + dx;
        let x2 = if x1 < 0 {
            0
        } else {
            x1
        };
        let x3 = if x2 > screen_w - PLAYER_W {
            screen_w - PLAYER_W
        } else {
            x2
        };
        self.rect.x = x3;
    }
}

} // verus!
