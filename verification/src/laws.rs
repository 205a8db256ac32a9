//! The round's global laws: brick deaths score exactly once, dead bricks
//! leave the round the same step, losing the last ball costs exactly one
//! life, and a fresh or restarted round always has the full grid with two
//! distinct spawning bricks.
use vstd::prelude::*;

use crate::ball::{ball_new_spec, Ball};
use crate::block::{Block, BlockKind};
use crate::game::{frame_spec, GameModel, GameState};
use crate::geom::{Rect, UNIT};
use crate::rng::{rng_adv_spec, rng_next_spec, RngModel};
use crate::round::{
    alive_blocks, balls_above, collide_spec, first_special, hit_step, loss_spec, round_new_spec,
    run_balls, run_blocks, second_special, serve_pos_spec, RoundModel, SCORE_CAP, SCORE_PER_BLOCK,
    START_LIVES, TOTAL_BLOCKS,
};

verus! {

/// How many bricks among the first `n` died between the states `b0` and
/// `b1`: had lives in `b0`, none left in `b1`.
pub open spec fn deaths_between(b0: Seq<Block>, b1: Seq<Block>, n: int) -> int
    decreases n,
{
    if n <= 0 {
        0
    } else {
        deaths_between(b0, b1, n - 1) + if b0[n - 1].lives > 0 && b1[n - 1].lives <= 0 {
            1int
        } else {
            0int
        }
    }
}

/// The death count only reads the first `n` entries.
pub proof fn lemma_deaths_agree(b0: Seq<Block>, x: Seq<Block>, y: Seq<Block>, n: int)
    requires
        forall|k: int| 0 <= k < n ==> #[trigger] x[k] == y[k],
    ensures
        deaths_between(b0, x, n) == deaths_between(b0, y, n),
    decreases n,
{
    if n > 0 {
        lemma_deaths_agree(b0, x, y, n - 1);
    }
}

/// At most one death per brick.
pub proof fn lemma_deaths_bound(b0: Seq<Block>, b1: Seq<Block>, n: int)
    ensures
        0 <= deaths_between(b0, b1, n) <= if n <= 0 {
            0
        } else {
            n
        },
    decreases n,
{
    if n > 0 {
        lemma_deaths_bound(b0, b1, n - 1);
    }
}

/// Nothing dies between a brick state and itself.
pub proof fn lemma_deaths_refl(b0: Seq<Block>, n: int)
    ensures
        deaths_between(b0, b0, n) == 0,
    decreases n,
{
    if n > 0 {
        lemma_deaths_refl(b0, n - 1);
    }
}

/// Deaths add up across two successive brick states, as long as lives
/// only ever decrease.
pub proof fn lemma_deaths_chain(b0: Seq<Block>, b1: Seq<Block>, b2: Seq<Block>, n: int)
    requires
        forall|k: int| 0 <= k < n ==> (#[trigger] b1[k]).lives <= b0[k].lives,
        forall|k: int| 0 <= k < n ==> (#[trigger] b2[k]).lives <= b1[k].lives,
    ensures
        deaths_between(b0, b2, n) == deaths_between(b0, b1, n) + deaths_between(b1, b2, n),
    decreases n,
{
    if n > 0 {
        lemma_deaths_chain(b0, b1, b2, n - 1);
    }
}

/// One ball's run over the first `n` bricks never moves or retags a
/// brick, never raises lives, leaves the remaining bricks alone, and —
/// while the score cap is out of reach — pays exactly the per-brick
/// score for each brick whose lives it ran out.
pub proof fn lemma_run_blocks_score(
    ball: Ball,
    blocks: Seq<Block>,
    score: i64,
    m: RngModel,
    spawns: Seq<Ball>,
    n: int,
)
    requires
        0 <= n <= blocks.len(),
        0 <= score,
    ensures
        ({
            let (b2, bl2, s2, m2, sp2) = run_blocks(ball, blocks, score, m, spawns, n);
            &&& bl2.len() == blocks.len()
            &&& forall|k: int|
                0 <= k < blocks.len() ==> (#[trigger] bl2[k]).rect == blocks[k].rect
                    && bl2[k].kind == blocks[k].kind && bl2[k].lives <= blocks[k].lives
            &&& forall|k: int| n <= k < blocks.len() ==> #[trigger] bl2[k] == blocks[k]
            &&& score <= s2
            &&& score + SCORE_PER_BLOCK * deaths_between(blocks, bl2, n) <= SCORE_CAP ==> s2
                == score + SCORE_PER_BLOCK * deaths_between(blocks, bl2, n)
        }),
    decreases n,
{
    if n > 0 {
        lemma_run_blocks_score(ball, blocks, score, m, spawns, n - 1);
        let (b1, bl1, s1, m1, sp1) = run_blocks(ball, blocks, score, m, spawns, n - 1);
        let (b2n, blk2, s2n, m2n, sp2n) = hit_step(b1, bl1[n - 1], s1, m1, sp1);
        let bl2 = bl1.update(n - 1, blk2);
        lemma_deaths_agree(blocks, bl1, bl2, n - 1);
        lemma_deaths_bound(blocks, bl1, n - 1);
        lemma_deaths_bound(blocks, bl2, n);
        assert(bl1[n - 1] == blocks[n - 1]);
        assert(deaths_between(blocks, bl2, n) == deaths_between(blocks, bl2, n - 1) + if blocks[n
            - 1].lives > 0 && bl2[n - 1].lives <= 0 {
            1int
        } else {
            0int
        });
    }
}

/// The whole collision pass of the first `n` balls never moves or retags
/// a brick and never raises lives; while the score cap is out of reach,
/// the score grows by exactly the per-brick score for each brick that
/// died during the pass.
pub proof fn lemma_run_balls_score(
    balls: Seq<Ball>,
    blocks: Seq<Block>,
    paddle: Rect,
    score: i64,
    m: RngModel,
    spawns: Seq<Ball>,
    n: int,
)
    requires
        0 <= n,
        0 <= score,
    ensures
        ({
            let (balls2, bl2, s2, m2, sp2) = run_balls(balls, blocks, paddle, score, m, spawns, n);
            &&& bl2.len() == blocks.len()
            &&& forall|k: int|
                0 <= k < blocks.len() ==> (#[trigger] bl2[k]).rect == blocks[k].rect
                    && bl2[k].kind == blocks[k].kind && bl2[k].lives <= blocks[k].lives
            &&& score <= s2
            &&& score + SCORE_PER_BLOCK * deaths_between(blocks, bl2, blocks.len() as int)
                <= SCORE_CAP ==> s2 == score + SCORE_PER_BLOCK * deaths_between(
                blocks,
                bl2,
                blocks.len() as int,
            )
        }),
    decreases n,
{
    if n > 0 {
        lemma_run_balls_score(balls, blocks, paddle, score, m, spawns, n - 1);
        let (balls1, bl1, s1, m1, sp1) = run_balls(balls, blocks, paddle, score, m, spawns, n - 1);
        let bb = balls1[n - 1];
        let (pr, pv, mp, ph) = crate::collision::resolve_spec(bb.rect, bb.vel, paddle, m1);
        let ballp = Ball { rect: pr, vel: pv, speed: bb.speed };
        lemma_run_blocks_score(ballp, bl1, s1, mp, sp1, bl1.len() as int);
        let (b2, bl2, s2, m2, sp2) = run_blocks(ballp, bl1, s1, mp, sp1, bl1.len() as int);
        lemma_deaths_chain(blocks, bl1, bl2, blocks.len() as int);
        lemma_deaths_bound(blocks, bl1, blocks.len() as int);
        lemma_deaths_bound(bl1, bl2, blocks.len() as int);
        lemma_deaths_bound(blocks, bl2, blocks.len() as int);
        let len = blocks.len() as int;
        let d1 = deaths_between(blocks, bl1, len);
        let d12 = deaths_between(bl1, bl2, len);
        let dfull = deaths_between(blocks, bl2, len);
        assert(dfull == d1 + d12);
        assert(deaths_between(bl1, bl2, bl1.len() as int) == d12);
        if score + SCORE_PER_BLOCK * dfull <= SCORE_CAP {
            assert(score + SCORE_PER_BLOCK * d1 <= SCORE_CAP);
            assert(s1 == score + SCORE_PER_BLOCK * d1);
            assert(s1 + SCORE_PER_BLOCK * d12 <= SCORE_CAP);
            assert(s2 == s1 + SCORE_PER_BLOCK * d12);
        }
        assert(run_balls(balls, blocks, paddle, score, m, spawns, n).1 == bl2);
        assert(run_balls(balls, blocks, paddle, score, m, spawns, n).2 == s2);
    } else {
        lemma_deaths_refl(blocks, blocks.len() as int);
    }
}

/// Every brick the pruning keeps still has lives.
pub proof fn lemma_pruned_blocks_alive(s: Seq<Block>)
    ensures
        forall|i: int|
            0 <= i < alive_blocks(s).len() ==> (#[trigger] alive_blocks(s)[i]).lives > 0,
    decreases s.len(),
{
    if s.len() > 0 {
        lemma_pruned_blocks_alive(s.drop_last());
    }
}

/// A brick whose lives ran out during the collision pass contributes the
/// per-brick score exactly once, and the pass as a whole adds exactly
/// that much: the old score plus the per-brick score times the number of
/// bricks that died — and the pruning that follows keeps no dead brick.
pub proof fn lemma_block_death_scoring(m: RoundModel, r: RngModel)
    requires
        0 <= m.score,
        m.score + SCORE_PER_BLOCK * m.blocks.len() <= SCORE_CAP,
    ensures
        ({
            let (m2, r2) = collide_spec(m, r);
            &&& m2.blocks.len() == m.blocks.len()
            &&& forall|k: int|
                0 <= k < m.blocks.len() ==> (#[trigger] m2.blocks[k]).rect == m.blocks[k].rect
                    && m2.blocks[k].kind == m.blocks[k].kind && m2.blocks[k].lives
                    <= m.blocks[k].lives
            &&& m2.score == m.score + SCORE_PER_BLOCK * deaths_between(
                m.blocks,
                m2.blocks,
                m.blocks.len() as int,
            )
            &&& forall|i: int|
                0 <= i < alive_blocks(m2.blocks).len() ==> (#[trigger] alive_blocks(
                    m2.blocks,
                )[i]).lives > 0
        }),
{
    lemma_run_balls_score(
        m.balls,
        m.blocks,
        m.player.rect,
        m.score,
        r,
        Seq::<Ball>::empty(),
        m.balls.len() as int,
    );
    let (balls2, bl2, s2, m2r, sp2) = run_balls(
        m.balls,
        m.blocks,
        m.player.rect,
        m.score,
        r,
        Seq::<Ball>::empty(),
        m.balls.len() as int,
    );
    lemma_deaths_bound(m.blocks, bl2, m.blocks.len() as int);
    lemma_pruned_blocks_alive(bl2);
}

/// Losing the round's only ball costs exactly one life: with lives to
/// spare the round goes on with exactly one freshly served ball; at one
/// life the round dies with no ball served.
pub proof fn lemma_last_ball_loss(m: RoundModel, screen_w: int, screen_h: int, r: RngModel)
    requires
        m.balls.len() == 1,
        m.balls[0].rect.y >= screen_h,
    ensures
        ({
            let (m1, r1, died) = loss_spec(m, screen_w, screen_h, r);
            &&& m.lives > 1 ==> !died && m1.lives == m.lives - 1 && m1.balls.len() == 1
                && m1.balls[0] == ball_new_spec(
                serve_pos_spec(screen_w, screen_h),
                rng_next_spec(r, -UNIT as int, UNIT as int),
            )
            &&& m.lives == 1 ==> died && m1.lives == 0 && m1.balls.len() == 0
            &&& m1.score == m.score
            &&& m1.blocks == m.blocks
        }),
{
    let s = m.balls;
    assert(balls_above(s.drop_last(), screen_h) =~= Seq::<Ball>::empty());
    assert(s.last() == s[0]);
    assert(balls_above(s, screen_h) =~= Seq::<Ball>::empty());
}

/// A ball that stays on the playfield costs nothing: with one ball that
/// did not fall, the loss phase keeps it and changes nothing else.
pub proof fn lemma_ball_kept(m: RoundModel, screen_w: int, screen_h: int, r: RngModel)
    requires
        m.balls.len() == 1,
        m.balls[0].rect.y < screen_h,
    ensures
        ({
            let (m1, r1, died) = loss_spec(m, screen_w, screen_h, r);
            &&& !died
            &&& m1 == m
            &&& r1 == r
        }),
{
    let s = m.balls;
    assert(balls_above(s.drop_last(), screen_h) =~= Seq::<Ball>::empty());
    assert(s.last() == s[0]);
    assert(balls_above(s, screen_h) =~= Seq::<Ball>::empty().push(s[0]));
    assert(balls_above(s, screen_h) =~= s);
    let (m1, r1, died) = loss_spec(m, screen_w, screen_h, r);
    assert(m1 =~= m);
}

/// A fresh round: thirty bricks in the grid, exactly two of them — at
/// two distinct indices, drawn without replacement — spawning a ball on
/// death; one served ball; zero score and full lives.
pub proof fn lemma_round_new_two_special(screen_w: int, screen_h: int, r: RngModel)
    ensures
        ({
            let (m, r1) = round_new_spec(screen_w, screen_h, r);
            let i1 = first_special(r);
            let i2 = second_special(r);
            &&& m.blocks.len() == TOTAL_BLOCKS
            &&& m.balls.len() == 1
            &&& m.score == 0
            &&& m.lives == START_LIVES
            &&& 0 <= i1 < TOTAL_BLOCKS
            &&& 0 <= i2 < TOTAL_BLOCKS
            &&& i1 != i2
            &&& forall|k: int|
                0 <= k < TOTAL_BLOCKS ==> (((#[trigger] m.blocks[k]).kind
                    == BlockKind::SpawnBallOnDeath) <==> (k == i1 || k == i2))
        }),
{
    let r1 = rng_adv_spec(r);
    let r2 = rng_adv_spec(r1);
    if r1.draws.len() > 0 {
        vstd::arithmetic::div_mod::lemma_mod_bound(r1.draws[r1.idx] as int, TOTAL_BLOCKS as int);
    }
    if r2.draws.len() > 0 {
        vstd::arithmetic::div_mod::lemma_mod_bound(
            r2.draws[r2.idx] as int,
            TOTAL_BLOCKS as int - 1,
        );
    }
}

/// `i` and `j` are two distinct indices, and exactly the bricks there
/// spawn a ball on death.
pub open spec fn two_special(blocks: Seq<Block>, i: int, j: int) -> bool {
    &&& 0 <= i < TOTAL_BLOCKS
    &&& 0 <= j < TOTAL_BLOCKS
    &&& i != j
    &&& forall|k: int|
        0 <= k < TOTAL_BLOCKS ==> (((#[trigger] blocks[k]).kind == BlockKind::SpawnBallOnDeath)
            <==> (k == i || k == j))
}

/// Restarting from the dead screen rebuilds everything: play resumes
/// with score zero, full lives, exactly one ball, and the full grid of
/// thirty bricks with two freshly drawn distinct spawning bricks.
pub proof fn lemma_restart_from_dead(
    g: GameModel,
    delta: int,
    intent: int,
    screen_w: int,
    screen_h: int,
    r: RngModel,
)
    requires
        g.state == GameState::Dead,
    ensures
        ({
            let (g1, r1) = frame_spec(g, true, delta, intent, screen_w, screen_h, r);
            &&& g1.state == GameState::Playing
            &&& g1.round == round_new_spec(screen_w, screen_h, r).0
            &&& g1.round.score == 0
            &&& g1.round.lives == START_LIVES
            &&& g1.round.balls.len() == 1
            &&& g1.round.blocks.len() == TOTAL_BLOCKS
            &&& exists|i: int, j: int| #[trigger] two_special(g1.round.blocks, i, j)
        }),
{
    lemma_round_new_two_special(screen_w, screen_h, r);
    let (g1, r1) = frame_spec(g, true, delta, intent, screen_w, screen_h, r);
    let i1 = first_special(r);
    let i2 = second_special(r);
    assert(two_special(g1.round.blocks, i1, i2));
}

} // verus!
