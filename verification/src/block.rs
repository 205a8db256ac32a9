//! Bricks: fixed rectangles with a remaining-lives counter and a kind tag.
//! A brick never moves; it leaves the round the step its lives run out.
use vstd::prelude::*;

use crate::geom::{rect_within, Rect, Vec2i, POS_LIMIT};

verus! {

/// Brick width in milli-pixels.
pub const BLOCK_W: i64 = 120_000;

/// Brick height in milli-pixels.
pub const BLOCK_H: i64 = 40_000;

/// Lives a fresh brick starts with.
pub const BLOCK_START_LIVES: i64 = 2;

/// What a brick does when destroyed.
#[derive(Clone, Copy, PartialEq, Eq, Structural, Debug)]
pub enum BlockKind {
    /// Destroyed silently.
    Regular,
    /// Spawns an extra ball at the destroyer's position.
    SpawnBallOnDeath,
}

/// One brick.
#[derive(Clone, Copy, PartialEq, Eq, Structural, Debug)]
pub struct Block {
    pub rect: Rect,
    pub lives: i64,
    pub kind: BlockKind,
}

/// A well-formed brick: standard size, bounded position, non-negative lives.
pub open spec fn block_wf(b: Block) -> bool {
    &&& rect_within(b.rect, POS_LIMIT as int)
    &&& b.rect.w == BLOCK_W
    &&& b.rect.h == BLOCK_H
    &&& 0 <= b.lives
}

/// The brick placed at `pos` with the given kind and full lives.
pub open spec fn block_new_spec(pos: Vec2i, kind: BlockKind) -> Block {
    Block {
        rect: Rect { x: pos.x, y: pos.y, w: BLOCK_W, h: BLOCK_H },
        lives: BLOCK_START_LIVES,
        kind: kind,
    }
}

impl Block {
    /// Place a fresh brick of the given kind at `pos`.
    pub fn new(pos: Vec2i, kind: BlockKind) -> (b: Block)
        requires
            -POS_LIMIT <= pos.x <= POS_LIMIT,
            -POS_LIMIT <= pos.y <= POS_LIMIT,
        ensures
            b == block_new_spec(pos, kind),
            block_wf(b),
    {
        Block {
            rect: Rect { x: pos.x, y: pos.y, w: BLOCK_W, h: BLOCK_H },
            lives: BLOCK_START_LIVES,
            kind: kind,
        }
    }
}

} // verus!
