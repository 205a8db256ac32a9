//! One round of play: score, lives, the paddle, the live balls and bricks,
//! and the per-frame gameplay step that drives them.
//!
//! The step follows a fixed order: advance the paddle, advance every ball's
//! free motion and wall checks, resolve every ball against the paddle and
//! then against every brick (balls outer, bricks inner), materialize queued
//! ball spawns, drop dead bricks, then handle ball loss — all of it pinned
//! by `step_spec`, an exact functional model of the whole frame.
use vstd::prelude::*;

use crate::ball::{ball_new_spec, ball_update_spec, ball_wf, Ball, BALL_W};
use crate::block::{block_wf, Block, BlockKind};
use crate::collision::resolve_spec;
use crate::collision::resolve;
use crate::geom::{
    rect_within, Rect, Vec2i, DELTA_LIMIT, POS_LIMIT, SCREEN_LIMIT, SIZE_LIMIT, UNIT,
};
use crate::player::{player_update_spec, player_wf, Player};
use crate::rng::{rng_adv_spec, rng_next_spec, rng_wf, RandomSource, RngModel};

verus! {

/// Score awarded for each destroyed brick.
pub const SCORE_PER_BLOCK: i64 = 10;

/// Largest score the counter will hold; gaining score saturates here
/// instead of wrapping.
pub const SCORE_CAP: i64 = 0x7fff_ffff_ffff_ffff;

/// Most bricks a well-formed round may hold.
pub const BLOCKS_LIMIT: i64 = 100_000;

/// Mathematical model of a round.
#[verifier::ext_equal]
pub ghost struct RoundModel {
    pub score: i64,
    pub lives: i64,
    pub player: Player,
    pub balls: Seq<Ball>,
    pub blocks: Seq<Block>,
}

/// A well-formed round: non-negative score and lives, a well-formed
/// paddle, well-formed balls and bricks, and a bounded brick count.
pub open spec fn round_wf(m: RoundModel) -> bool {
    &&& 0 <= m.score
    &&& 0 <= m.lives
    &&& player_wf(m.player)
    &&& forall|i: int| 0 <= i < m.balls.len() ==> ball_wf(#[trigger] m.balls[i])
    &&& forall|i: int| 0 <= i < m.blocks.len() ==> block_wf(#[trigger] m.blocks[i])
    &&& m.blocks.len() <= BLOCKS_LIMIT
}

/// A round whose balls all sit inside the free-motion bound, as they do
/// right after the motion phase of a step.
pub open spec fn round_settled(m: RoundModel) -> bool {
    &&& round_wf(m)
    &&& forall|i: int| 0 <= i < m.balls.len() ==> rect_within(
        (#[trigger] m.balls[i]).rect,
        POS_LIMIT as int,
    )
}

/// Score gain for one destroyed brick, saturating at the cap.
pub open spec fn bump_score_spec(s: i64) -> i64 {
    if s + SCORE_PER_BLOCK <= SCORE_CAP {
        (s + SCORE_PER_BLOCK) as i64
    } else {
        s
    }
}

/// Award the score for one destroyed brick.
pub fn bump_score(s: i64) -> (r: i64)
    ensures
        r == bump_score_spec(s),
{
    if s <= SCORE_CAP - SCORE_PER_BLOCK {
        s + SCORE_PER_BLOCK
    } else {
        s
    }
}

/// One ball-versus-brick interaction: resolve the collision; on a hit
/// against a still-live brick its lives drop by one, and the brick's
/// death awards score and, for a spawning brick, queues a fresh ball at
/// the colliding ball's current position.
pub open spec fn hit_step(ball: Ball, blk: Block, score: i64, m: RngModel, spawns: Seq<Ball>) -> (
    Ball,
    Block,
    i64,
    RngModel,
    Seq<Ball>,
) {
    let (ra, rv, m1, hit) = resolve_spec(ball.rect, ball.vel, blk.rect, m);
    let ball1 = Ball { rect: ra, vel: rv, speed: ball.speed };
    if hit && blk.lives > 0 {
        let blk1 = Block { lives: (blk.lives - 1) as i64, ..blk };
        if blk1.lives == 0 {
            let score1 = bump_score_spec(score);
            if blk.kind == BlockKind::SpawnBallOnDeath {
                let d = rng_next_spec(m1, -UNIT as int, UNIT as int);
                let m2 = rng_adv_spec(m1);
                let fresh = ball_new_spec(Vec2i { x: ball1.rect.x, y: ball1.rect.y }, d);
                (ball1, blk1, score1, m2, spawns.push(fresh))
            } else {
                (ball1, blk1, score1, m1, spawns)
            }
        } else {
            (ball1, blk1, score, m1, spawns)
        }
    } else {
        (ball1, blk, score, m1, spawns)
    }
}

/// One ball run against the first `n` bricks, in order.
pub open spec fn run_blocks(
    ball: Ball,
    blocks: Seq<Block>,
    score: i64,
    m: RngModel,
    spawns: Seq<Ball>,
    n: int,
) -> (Ball, Seq<Block>, i64, RngModel, Seq<Ball>)
    decreases n,
{
    if n <= 0 {
        (ball, blocks, score, m, spawns)
    } else {
        let (b1, blocks1, s1, m1, sp1) = run_blocks(ball, blocks, score, m, spawns, n - 1);
        let (b2, blk2, s2, m2, sp2) = hit_step(b1, blocks1[n - 1], s1, m1, sp1);
        (b2, blocks1.update(n - 1, blk2), s2, m2, sp2)
    }
}

/// The first `n` balls run through the collision pass, in order: each
/// ball resolves against the paddle, then against every brick.
pub open spec fn run_balls(
    balls: Seq<Ball>,
    blocks: Seq<Block>,
    paddle: Rect,
    score: i64,
    m: RngModel,
    spawns: Seq<Ball>,
    n: int,
) -> (Seq<Ball>, Seq<Block>, i64, RngModel, Seq<Ball>)
    decreases n,
{
    if n <= 0 {
        (balls, blocks, score, m, spawns)
    } else {
        let (balls1, blocks1, s1, m1, sp1) = run_balls(balls, blocks, paddle, score, m, spawns, n - 1);
        let ball = balls1[n - 1];
        let (pr, pv, mp, ph) = resolve_spec(ball.rect, ball.vel, paddle, m1);
        let ballp = Ball { rect: pr, vel: pv, speed: ball.speed };
        let (b2, blocks2, s2, m2, sp2) = run_blocks(
            ballp,
            blocks1,
            s1,
            mp,
            sp1,
            blocks1.len() as int,
        );
        (balls1.update(n - 1, b2), blocks2, s2, m2, sp2)
    }
}

/// The whole collision pass of one step: every ball against the paddle
/// and the bricks, then the queued spawns appended after the existing
/// balls (new balls never join the pass that queued them).
pub open spec fn collide_spec(m: RoundModel, r: RngModel) -> (RoundModel, RngModel) {
    let (balls1, blocks1, s1, r1, spawns) = run_balls(
        m.balls,
        m.blocks,
        m.player.rect,
        m.score,
        r,
        Seq::<Ball>::empty(),
        m.balls.len() as int,
    );
    (
        RoundModel {
            score: s1,
            lives: m.lives,
            player: m.player,
            balls: balls1 + spawns,
            blocks: blocks1,
        },
        r1,
    )
}

/// One round of play.
pub struct Round {
    pub score: i64,
    pub lives: i64,
    pub player: Player,
    pub balls: Vec<Ball>,
    pub blocks: Vec<Block>,
}

impl View for Round {
    type V = RoundModel;

    open spec fn view(&self) -> RoundModel {
        RoundModel {
            score: self.score,
            lives: self.lives,
            player: self.player,
            balls: self.balls@,
            blocks: self.blocks@,
        }
    }
}

impl Round {
    /// Run the collision pass: each ball bounces off the paddle and the
    /// bricks, hit bricks lose lives, dying bricks award score and may
    /// queue ball spawns, and the queued spawns join the round at the
    /// end. The paddle and the brick rectangles never move.
    pub fn collide(&mut self, rng: &mut RandomSource)
        requires
            round_settled(old(self)@),
            rng_wf(old(rng)@),
        ensures
            (final(self)@, final(rng)@) == collide_spec(old(self)@, old(rng)@),
            round_wf(final(self)@),
            rng_wf(final(rng)@),
    {
        let ghost m0 = self@;
        let ghost r0 = rng@;
        let mut spawns: Vec<Ball> = Vec::new();
        let mut i: usize = 0;
        while i < self.balls.len()
            invariant
                round_settled(m0),
                rng_wf(r0),
                i <= self.balls.len(),
                self.balls@.len() == m0.balls.len(),
                self.score == run_balls_at(m0, r0, i as int).2,
                self.balls@ == run_balls_at(m0, r0, i as int).0,
                self.blocks@ == run_balls_at(m0, r0, i as int).1,
                rng@ == run_balls_at(m0, r0, i as int).3,
                spawns@ == run_balls_at(m0, r0, i as int).4,
                self.player == m0.player,
                self.lives == m0.lives,
                0 <= self.score,
                rng_wf(rng@),
                forall|k: int| 0 <= k < self.balls@.len() ==> ball_wf(#[trigger] self.balls@[k]),
                forall|k: int| i <= k < self.balls@.len() ==> rect_within(
                    (#[trigger] self.balls@[k]).rect,
                    POS_LIMIT as int,
                ),
                forall|k: int| 0 <= k < self.blocks@.len() ==> block_wf(#[trigger] self.blocks@[k]),
                self.blocks@.len() == m0.blocks.len(),
                forall|k: int| 0 <= k < spawns@.len() ==> ball_wf(#[trigger] spawns@[k]),
            decreases self.balls@.len() - i,
        {
            let mut ball = self.balls[i];
            let ghost before = run_balls_at(m0, r0, i as int);
            resolve(&mut ball.rect, &mut ball.vel, &self.player.rect, rng);
            let ghost ib = ball;
            let ghost ibl = self.blocks@;
            let ghost is = self.score;
            let ghost im = rng@;
            let ghost isp = spawns@;
            let ghost iballs = self.balls@;
            let mut j: usize = 0;
            while j < self.blocks.len()
                invariant
                    j <= self.blocks.len(),
                    self.balls@ == iballs,
                    i < iballs.len(),
                    self.player == m0.player,
                    self.lives == m0.lives,
                    self.blocks@.len() == ibl.len(),
                    ibl.len() <= BLOCKS_LIMIT,
                    ball_wf(ib),
                    rect_within(ib.rect, POS_LIMIT + SIZE_LIMIT),
                    rng_wf(im),
                    forall|k: int| 0 <= k < ibl.len() ==> block_wf(#[trigger] ibl[k]),
                    ball == run_blocks(ib, ibl, is, im, isp, j as int).0,
                    self.blocks@ == run_blocks(ib, ibl, is, im, isp, j as int).1,
                    self.score == run_blocks(ib, ibl, is, im, isp, j as int).2,
                    rng@ == run_blocks(ib, ibl, is, im, isp, j as int).3,
                    spawns@ == run_blocks(ib, ibl, is, im, isp, j as int).4,
                    ball_wf(ball),
                    rect_within(ball.rect, POS_LIMIT + SIZE_LIMIT + (j as int) * SIZE_LIMIT),
                    0 <= self.score,
                    rng_wf(rng@),
                    forall|k: int| 0 <= k < self.blocks@.len() ==> block_wf(
                        #[trigger] self.blocks@[k],
                    ),
                    forall|k: int| 0 <= k < spawns@.len() ==> ball_wf(#[trigger] spawns@[k]),
                decreases self.blocks@.len() - j,
            {
                let mut blk = self.blocks[j];
                let hit = resolve(&mut ball.rect, &mut ball.vel, &blk.rect, rng);
                if hit && blk.lives > 0 {
                    blk.lives = blk.lives - 1;
                    if blk.lives == 0 {
                        self.score = bump_score(self.score);
                        if blk.kind == BlockKind::SpawnBallOnDeath {
                            let d = rng.next_in(-UNIT, UNIT);
                            spawns.push(Ball::new(Vec2i { x: ball.rect.x, y: ball.rect.y }, d));
                        }
                    }
                }
                self.blocks[j] = blk;
                j = j + 1;
            }
            self.balls[i] = ball;
            proof {
                let full = run_blocks(ib, ibl, is, im, isp, ibl.len() as int);
                let nxt = run_balls_at(m0, r0, i as int + 1);
                assert(self.balls@ == nxt.0);
                assert(self.blocks@ == nxt.1);
                assert(self.score == nxt.2);
                assert(rng@ == nxt.3);
                assert(spawns@ == nxt.4);
            }
            i = i + 1;
        }
        let mut k: usize = 0;
        let ghost base = self.balls@;
        let ghost endscore = self.score;
        let ghost endblocks = self.blocks@;
        let ghost endrng = rng@;
        while k < spawns.len()
            invariant
                k <= spawns.len(),
                self.balls@ == base + spawns@.take(k as int),
                self.score == endscore,
                self.blocks@ == endblocks,
                self.player == m0.player,
                self.lives == m0.lives,
                rng@ == endrng,
            decreases spawns@.len() - k,
        {
            self.balls.push(spawns[k]);
            proof {
                assert(spawns@.take(k as int + 1) =~= spawns@.take(k as int).push(spawns@[k as int]));
            }
            k = k + 1;
        }
        proof {
            assert(spawns@.take(spawns@.len() as int) =~= spawns@);
            assert(self@ =~= collide_spec(m0, r0).0);
        }
    }
}

/// The collision pass after the first `i` balls, starting from the
/// round state `m` and random source `r`.
pub open spec fn run_balls_at(m: RoundModel, r: RngModel, i: int) -> (
    Seq<Ball>,
    Seq<Block>,
    i64,
    RngModel,
    Seq<Ball>,
) {
    run_balls(m.balls, m.blocks, m.player.rect, m.score, r, Seq::<Ball>::empty(), i)
}

/// Lives a fresh round starts with.
pub const START_LIVES: i64 = 3;

/// Bricks per grid row.
pub const BLOCKS_PER_ROW: i64 = 6;

/// Grid rows of bricks.
pub const BLOCK_ROWS: i64 = 5;

/// Bricks in a fresh round.
pub const TOTAL_BLOCKS: i64 = 6 * 5;

/// Gap between neighbouring bricks, in milli-pixels.
pub const BLOCK_PADDING: i64 = 5_000;

/// Top edge of the brick board, in milli-pixels.
pub const BOARD_TOP: i64 = 50_000;

/// Horizontal pitch of the brick grid.
pub const CELL_W: i64 = 120_000 + 5_000;

/// Vertical pitch of the brick grid.
pub const CELL_H: i64 = 40_000 + 5_000;

/// Halve toward zero, as the grid centring does.
pub open spec fn half_toward_zero(v: int) -> int {
    if v >= 0 {
        v / 2
    } else {
        -((-v) / 2)
    }
}

/// Balls after one frame of free motion and wall checks.
pub open spec fn balls_moved_spec(balls: Seq<Ball>, delta: int, screen_w: int) -> Seq<Ball> {
    Seq::new(balls.len(), |i: int| ball_update_spec(balls[i], delta, screen_w))
}

/// The bricks with lives remaining, in their original order.
pub open spec fn alive_blocks(s: Seq<Block>) -> Seq<Block>
    decreases s.len(),
{
    if s.len() == 0 {
        Seq::<Block>::empty()
    } else {
        let rest = alive_blocks(s.drop_last());
        if s.last().lives > 0 {
            rest.push(s.last())
        } else {
            rest
        }
    }
}

/// The balls whose top edge has not passed the playfield bottom, in
/// their original order.
pub open spec fn balls_above(s: Seq<Ball>, screen_h: int) -> Seq<Ball>
    decreases s.len(),
{
    if s.len() == 0 {
        Seq::<Ball>::empty()
    } else {
        let rest = balls_above(s.drop_last(), screen_h);
        if s.last().rect.y < screen_h {
            rest.push(s.last())
        } else {
            rest
        }
    }
}

/// Where a served ball appears: the playfield's horizontal and vertical
/// centre.
pub open spec fn serve_pos_spec(screen_w: int, screen_h: int) -> Vec2i {
    Vec2i { x: (screen_w / 2 - BALL_W / 2) as i64, y: (screen_h / 2) as i64 }
}

/// The ball-loss phase: fallen balls leave the round; when the round's
/// last ball fell, a life is lost — with lives to spare exactly one
/// fresh ball is served at the playfield centre, otherwise the round is
/// over (and no ball is served). The returned flag says whether the
/// round died.
pub open spec fn loss_spec(m: RoundModel, screen_w: int, screen_h: int, r: RngModel) -> (
    RoundModel,
    RngModel,
    bool,
) {
    let was_last = m.balls.len() == 1;
    let kept = balls_above(m.balls, screen_h);
    if kept.len() < m.balls.len() && was_last {
        let nl = if m.lives > 0 {
            (m.lives - 1) as i64
        } else {
            0 as i64
        };
        if nl > 0 {
            let d = rng_next_spec(r, -UNIT as int, UNIT as int);
            let r1 = rng_adv_spec(r);
            (
                RoundModel {
                    lives: nl,
                    balls: kept.push(ball_new_spec(serve_pos_spec(screen_w, screen_h), d)),
                    ..m
                },
                r1,
                false,
            )
        } else {
            (RoundModel { lives: 0, balls: kept, ..m }, r, true)
        }
    } else {
        (RoundModel { balls: kept, ..m }, r, false)
    }
}

/// How a finished step leaves the round.
#[derive(Clone, Copy, PartialEq, Eq, Structural, Debug)]
pub enum StepOutcome {
    /// Play goes on.
    Continue,
    /// Every brick is gone.
    Cleared,
    /// The last ball fell with no lives to spare.
    Lost,
}

/// One full gameplay step, in order: paddle motion, ball motion and wall
/// checks, the collision pass (with spawns joining at its end), pruning
/// of dead bricks, and the ball-loss phase. The outcome is `Lost` when
/// the round died, else `Cleared` when no brick remains, else
/// `Continue`.
pub open spec fn step_spec(
    m: RoundModel,
    delta: int,
    intent: int,
    screen_w: int,
    screen_h: int,
    r: RngModel,
) -> (RoundModel, RngModel, StepOutcome) {
    let p1 = player_update_spec(m.player, delta, intent, screen_w);
    let m1 = RoundModel { player: p1, balls: balls_moved_spec(m.balls, delta, screen_w), ..m };
    let (m2, r2) = collide_spec(m1, r);
    let m3 = RoundModel { blocks: alive_blocks(m2.blocks), ..m2 };
    let (m4, r4, died) = loss_spec(m3, screen_w, screen_h, r2);
    let out = if died {
        StepOutcome::Lost
    } else if m4.blocks.len() == 0 {
        StepOutcome::Cleared
    } else {
        StepOutcome::Continue
    };
    (m4, r4, out)
}

/// The first random index a fresh round retags as a spawning brick.
pub open spec fn first_special(r: RngModel) -> int {
    rng_next_spec(rng_adv_spec(r), 0, TOTAL_BLOCKS - 1)
}

/// The second random index a fresh round retags, drawn without
/// replacement: a draw over the remaining indices, shifted past the
/// first.
pub open spec fn second_special(r: RngModel) -> int {
    let i1 = first_special(r);
    let jj = rng_next_spec(rng_adv_spec(rng_adv_spec(r)), 0, TOTAL_BLOCKS - 2);
    if jj >= i1 {
        jj + 1
    } else {
        jj
    }
}

/// The brick at grid index `k` of a fresh round: a row-major grid under
/// the board top, horizontally centred, with the two retagged indices
/// spawning a ball on death.
pub open spec fn grid_block_spec(screen_w: int, k: int, i1: int, i2: int) -> Block {
    let col = k % (BLOCKS_PER_ROW as int);
    let row = k / (BLOCKS_PER_ROW as int);
    let x = half_toward_zero(screen_w - CELL_W * BLOCKS_PER_ROW) + col * (CELL_W as int);
    let y = BOARD_TOP + row * (CELL_H as int);
    Block {
        rect: Rect { x: x as i64, y: y as i64, w: crate::block::BLOCK_W, h: crate::block::BLOCK_H },
        lives: crate::block::BLOCK_START_LIVES,
        kind: if k == i1 || k == i2 {
            BlockKind::SpawnBallOnDeath
        } else {
            BlockKind::Regular
        },
    }
}

/// A fresh round: zero score, full lives, the centred paddle, one served
/// ball with a random direction, and the full brick grid with two
/// distinct bricks retagged to spawn a ball on death.
pub open spec fn round_new_spec(screen_w: int, screen_h: int, r: RngModel) -> (RoundModel, RngModel) {
    let d = rng_next_spec(r, -UNIT as int, UNIT as int);
    let i1 = first_special(r);
    let i2 = second_special(r);
    let r3 = rng_adv_spec(rng_adv_spec(rng_adv_spec(r)));
    (
        RoundModel {
            score: 0,
            lives: START_LIVES,
            player: crate::player::player_new_spec(screen_w, screen_h),
            balls: seq![ball_new_spec(serve_pos_spec(screen_w, screen_h), d)],
            blocks: Seq::new(TOTAL_BLOCKS as nat, |k: int| grid_block_spec(screen_w, k, i1, i2)),
        },
        r3,
    )
}

impl Round {
    /// Drop every brick whose lives have run out, keeping the rest in
    /// order.
    pub fn prune_blocks(&mut self)
        requires
            round_wf(old(self)@),
        ensures
            final(self)@ == (RoundModel { blocks: alive_blocks(old(self)@.blocks), ..old(self)@ }),
            round_wf(final(self)@),
    {
        let ghost s0 = self.blocks@;
        let mut out: Vec<Block> = Vec::new();
        let mut i: usize = 0;
        while i < self.blocks.len()
            invariant
                i <= self.blocks.len(),
                self.blocks@ == s0,
                out@ == alive_blocks(s0.take(i as int)),
                forall|k: int| 0 <= k < s0.len() ==> block_wf(#[trigger] s0[k]),
                forall|k: int| 0 <= k < out@.len() ==> block_wf(#[trigger] out@[k]),
                out@.len() <= i,
            decreases s0.len() - i,
        {
            let blk = self.blocks[i];
            proof {
                assert(s0.take(i as int + 1).drop_last() =~= s0.take(i as int));
                assert(s0.take(i as int + 1).last() == s0[i as int]);
            }
            if blk.lives > 0 {
                out.push(blk);
            }
            i = i + 1;
        }
        proof {
            assert(s0.take(s0.len() as int) =~= s0);
        }
        self.blocks = out;
        proof {
            assert(final(self)@ =~= (RoundModel { blocks: alive_blocks(s0), ..old(self)@ }));
        }
    }

    /// Drop every ball that fell past the playfield bottom, keeping the
    /// rest in order.
    pub fn prune_balls(&mut self, screen_h: i64)
        requires
            round_wf(old(self)@),
        ensures
            final(self)@ == (
            RoundModel { balls: balls_above(old(self)@.balls, screen_h as int), ..old(self)@ }),
            round_wf(final(self)@),
    {
        let ghost s0 = self.balls@;
        let mut out: Vec<Ball> = Vec::new();
        let mut i: usize = 0;
        while i < self.balls.len()
            invariant
                i <= self.balls.len(),
                self.balls@ == s0,
                out@ == balls_above(s0.take(i as int), screen_h as int),
                forall|k: int| 0 <= k < s0.len() ==> ball_wf(#[trigger] s0[k]),
                forall|k: int| 0 <= k < out@.len() ==> ball_wf(#[trigger] out@[k]),
                out@.len() <= i,
            decreases s0.len() - i,
        {
            let b = self.balls[i];
            proof {
                assert(s0.take(i as int + 1).drop_last() =~= s0.take(i as int));
                assert(s0.take(i as int + 1).last() == s0[i as int]);
            }
            if b.rect.y < screen_h {
                out.push(b);
            }
            i = i + 1;
        }
        proof {
            assert(s0.take(s0.len() as int) =~= s0);
        }
        self.balls = out;
        proof {
            assert(final(self)@ =~= (
            RoundModel { balls: balls_above(s0, screen_h as int), ..old(self)@ }));
        }
    }

    /// Advance the whole round by one frame. Exactly `step_spec`: paddle
    /// and balls move, collisions resolve (bricks lose lives, dying
    /// bricks award score and may spawn balls), dead bricks leave, and
    /// losing the last ball costs a life — serving one fresh ball while
    /// lives remain, ending the round otherwise.
    pub fn step(
        &mut self,
        delta: i64,
        intent: i64,
        screen_w: i64,
        screen_h: i64,
        rng: &mut RandomSource,
    ) -> (out: StepOutcome)
        requires
            round_wf(old(self)@),
            rng_wf(old(rng)@),
            0 <= delta <= DELTA_LIMIT,
            -1 <= intent <= 1,
            0 <= screen_w <= SCREEN_LIMIT,
            0 <= screen_h <= SCREEN_LIMIT,
        ensures
            (final(self)@, final(rng)@, out) == step_spec(
                old(self)@,
                delta as int,
                intent as int,
                screen_w as int,
                screen_h as int,
                old(rng)@,
            ),
            round_wf(final(self)@),
            rng_wf(final(rng)@),
    {
        let ghost m0 = self@;
        let ghost r0 = rng@;
        self.player.update(delta, intent, screen_w);
        let ghost b0 = self.balls@;
        let ghost p1 = self.player;
        let mut i: usize = 0;
        while i < self.balls.len()
            invariant
                i <= self.balls.len(),
                self.balls@.len() == b0.len(),
                self.player == p1,
                self.score == m0.score,
                self.lives == m0.lives,
                self.blocks@ == m0.blocks,
                forall|k: int| 0 <= k < i ==> self.balls@[k] == ball_update_spec(
                    #[trigger] b0[k],
                    delta as int,
                    screen_w as int,
                ),
                forall|k: int| i <= k < b0.len() ==> #[trigger] self.balls@[k] == b0[k],
                forall|k: int| 0 <= k < b0.len() ==> ball_wf(#[trigger] b0[k]),
                forall|k: int| 0 <= k < i ==> ball_wf(#[trigger] self.balls@[k]) && rect_within(
                    self.balls@[k].rect,
                    POS_LIMIT as int,
                ),
                0 <= delta <= DELTA_LIMIT,
                0 <= screen_w <= SCREEN_LIMIT,
            decreases b0.len() - i,
        {
            let mut b = self.balls[i];
            b.update(delta, screen_w);
            self.balls[i] = b;
            i = i + 1;
        }
        proof {
            assert(self.balls@ =~= balls_moved_spec(b0, delta as int, screen_w as int));
            assert(self@ =~= (
            RoundModel {
                player: player_update_spec(m0.player, delta as int, intent as int, screen_w as int),
                balls: balls_moved_spec(m0.balls, delta as int, screen_w as int),
                ..m0
            }));
            assert(round_settled(self@));
        }
        self.collide(rng);
        self.prune_blocks();
        let ghost m3 = self@;
        let ghost r2 = rng@;
        let n0 = self.balls.len();
        let was_last = n0 == 1;
        self.prune_balls(screen_h);
        let died: bool;
        if self.balls.len() < n0 && was_last {
            if self.lives > 1 {
                self.lives = self.lives - 1;
                let d = rng.next_in(-UNIT, UNIT);
                let fresh = Ball::new(
                    Vec2i { x: screen_w / 2 - BALL_W / 2, y: screen_h / 2 },
                    d,
                );
                self.balls.push(fresh);
                died = false;
            } else {
                self.lives = 0;
                died = true;
            }
        } else {
            died = false;
        }
        let out = if died {
            StepOutcome::Lost
        } else if self.blocks.len() == 0 {
            StepOutcome::Cleared
        } else {
            StepOutcome::Continue
        };
        proof {
            let (lm, lr, ld) = loss_spec(m3, screen_w as int, screen_h as int, r2);
            assert(self@ =~= lm);
            assert(died == ld);
        }
        out
    }

    /// Set up a fresh round on the given playfield: zero score, full
    /// lives, the centred paddle, one served ball, and the brick grid
    /// with two distinct bricks (drawn without replacement) retagged to
    /// spawn a ball on death.
    pub fn new(screen_w: i64, screen_h: i64, rng: &mut RandomSource) -> (r: Round)
        requires
            0 <= screen_w <= SCREEN_LIMIT,
            0 <= screen_h <= SCREEN_LIMIT,
            rng_wf(old(rng)@),
        ensures
            (r@, final(rng)@) == round_new_spec(screen_w as int, screen_h as int, old(rng)@),
            round_wf(r@),
            rng_wf(final(rng)@),
    {
        let ghost r0 = rng@;
        let d = rng.next_in(-UNIT, UNIT);
        let serve = Ball::new(Vec2i { x: screen_w / 2 - BALL_W / 2, y: screen_h / 2 }, d);
        let i1 = rng.next_in(0, TOTAL_BLOCKS - 1);
        let jj = rng.next_in(0, TOTAL_BLOCKS - 2);
        let i2 = if jj >= i1 {
            jj + 1
        } else {
            jj
        };
        let mut balls: Vec<Ball> = Vec::new();
        balls.push(serve);
        let mut blocks: Vec<Block> = Vec::new();
        let base = screen_w - CELL_W * BLOCKS_PER_ROW;
        let sx = if base >= 0 {
            base / 2
        } else {
            -((-base) / 2)
        };
        let mut k: i64 = 0;
        while k < TOTAL_BLOCKS
            invariant
                0 <= k <= TOTAL_BLOCKS,
                blocks@.len() == k,
                forall|t: int| 0 <= t < k ==> blocks@[t] == grid_block_spec(
                    screen_w as int,
                    t,
                    i1 as int,
                    i2 as int,
                ),
                forall|t: int| 0 <= t < k ==> block_wf(#[trigger] blocks@[t]),
                sx as int == half_toward_zero(screen_w as int - CELL_W * BLOCKS_PER_ROW),
                -400_000 <= sx <= SCREEN_LIMIT,
                0 <= screen_w <= SCREEN_LIMIT,
            decreases TOTAL_BLOCKS - k,
        {
            let col = k % BLOCKS_PER_ROW;
            let row = k / BLOCKS_PER_ROW;
            proof {
                vstd::arithmetic::div_mod::lemma_mod_bound(k as int, BLOCKS_PER_ROW as int);
                vstd::arithmetic::div_mod::lemma_div_is_ordered(k as int, TOTAL_BLOCKS as int, BLOCKS_PER_ROW as int);
                assert(0 <= row <= 5);
            }
            let x = sx + col * CELL_W;
            let y = BOARD_TOP + row * CELL_H;
            let kind = if k == i1 || k == i2 {
                BlockKind::SpawnBallOnDeath
            } else {
                BlockKind::Regular
            };
            blocks.push(
                Block {
                    rect: Rect { x: x, y: y, w: crate::block::BLOCK_W, h: crate::block::BLOCK_H },
                    lives: crate::block::BLOCK_START_LIVES,
                    kind: kind,
                },
            );
            k = k + 1;
        }
        let r = Round {
            score: 0,
            lives: START_LIVES,
            player: Player::new(screen_w, screen_h),
            balls,
            blocks,
        };
        proof {
            assert(i1 as int == first_special(r0));
            assert(i2 as int == second_special(r0));
            assert(r.blocks@ =~= Seq::new(
                TOTAL_BLOCKS as nat,
                |t: int| grid_block_spec(screen_w as int, t, i1 as int, i2 as int),
            ));
            assert(r@ =~= round_new_spec(screen_w as int, screen_h as int, r0).0);
        }
        r
    }
}

} // verus!
