//! Tests of the per-frame gameplay step: brick damage and destruction,
//! scoring, ball spawning, ball loss, and fresh-round setup.
use breakout_core::ball::Ball;
use breakout_core::block::{Block, BlockKind};
use breakout_core::geom::{Rect, Vec2i};
use breakout_core::player::Player;
use breakout_core::rng::RandomSource;
use breakout_core::round::{Round, StepOutcome};

fn far_block() -> Block {
    Block::new(Vec2i { x: 600_000, y: 40_000 }, BlockKind::Regular)
}

fn ball_at(x: i64, y: i64, vx: i64, vy: i64) -> Ball {
    let mut b = Ball::new(Vec2i { x, y }, 0);
    b.vel = Vec2i { x: vx, y: vy };
    b
}

fn round_with(balls: Vec<Ball>, blocks: Vec<Block>) -> Round {
    Round {
        score: 0,
        lives: 3,
        player: Player::new(800_000, 600_000),
        balls,
        blocks,
    }
}

#[test]
fn two_hits_destroy_a_regular_brick_and_score_once() {
    let brick = Block {
        rect: Rect { x: 10_000, y: 40_000, w: 120_000, h: 40_000 },
        lives: 2,
        kind: BlockKind::Regular,
    };
    let mut r = round_with(vec![ball_at(0, 0, 1000, 500)], vec![brick]);
    let mut rng = RandomSource::from_draws(vec![0]);

    let out1 = r.step(0, 0, 800_000, 600_000, &mut rng);
    // First collision: one life off, no score yet, brick still present.
    assert_eq!(out1, StepOutcome::Continue);
    assert_eq!(r.blocks.len(), 1);
    assert_eq!(r.blocks[0].lives, 1);
    assert_eq!(r.score, 0);
    // The ball bounced up and away, nudged by the lowest draw.
    assert_eq!(r.balls[0].rect, Rect { x: 0, y: -10_000, w: 50_000, h: 50_000 });
    assert_eq!(r.balls[0].vel, Vec2i { x: 800, y: -500 });

    // Put the ball back on a collision course for a second, separate step.
    r.balls[0].rect = Rect { x: 0, y: 0, w: 50_000, h: 50_000 };
    r.balls[0].vel = Vec2i { x: 1000, y: 500 };
    let out2 = r.step(0, 0, 800_000, 600_000, &mut rng);
    // Second collision: the brick dies, scores exactly once, and leaves
    // the round within the same step.
    assert_eq!(r.score, 10);
    assert_eq!(r.blocks.len(), 0);
    assert_eq!(out2, StepOutcome::Cleared);
    assert_eq!(r.lives, 3);
    assert_eq!(r.balls.len(), 1);
}

#[test]
fn spawning_brick_serves_a_ball_where_it_died() {
    let brick = Block {
        rect: Rect { x: 10_000, y: 40_000, w: 120_000, h: 40_000 },
        lives: 1,
        kind: BlockKind::SpawnBallOnDeath,
    };
    let mut r = round_with(vec![ball_at(0, 0, 1000, 500)], vec![brick]);
    // First draw feeds the bounce nudge, second the spawned direction.
    let mut rng = RandomSource::from_draws(vec![0, 0]);

    let out = r.step(0, 0, 800_000, 600_000, &mut rng);
    assert_eq!(r.score, 10);
    assert_eq!(r.blocks.len(), 0);
    assert_eq!(out, StepOutcome::Cleared);
    // Exactly one extra ball, at the position the colliding ball occupied
    // after its bounce this frame.
    assert_eq!(r.balls.len(), 2);
    assert_eq!(r.balls[0].rect, Rect { x: 0, y: -10_000, w: 50_000, h: 50_000 });
    assert_eq!(r.balls[1].rect, Rect { x: 0, y: -10_000, w: 50_000, h: 50_000 });
    assert_eq!(r.balls[1].vel, Vec2i { x: -707, y: 707 });
}

#[test]
fn losing_the_last_ball_with_lives_to_spare_serves_a_fresh_one() {
    let mut r = round_with(vec![ball_at(100_000, 700_000, 0, 1000)], vec![far_block()]);
    r.score = 5;
    let mut rng = RandomSource::from_draws(vec![0]);
    let out = r.step(0, 0, 800_000, 600_000, &mut rng);
    assert_eq!(out, StepOutcome::Continue);
    assert_eq!(r.lives, 2);
    assert_eq!(r.balls.len(), 1);
    // The fresh ball is served at the playfield centre.
    assert_eq!(r.balls[0].rect, Rect { x: 375_000, y: 300_000, w: 50_000, h: 50_000 });
    assert_eq!(r.score, 5);
}

#[test]
fn losing_the_last_ball_on_the_last_life_ends_the_round() {
    let mut r = round_with(vec![ball_at(100_000, 700_000, 0, 1000)], vec![far_block()]);
    r.lives = 1;
    let mut rng = RandomSource::from_draws(vec![0]);
    let out = r.step(0, 0, 800_000, 600_000, &mut rng);
    assert_eq!(out, StepOutcome::Lost);
    assert_eq!(r.lives, 0);
    // No ball is served into a dead round.
    assert_eq!(r.balls.len(), 0);
}

#[test]
fn losing_one_of_several_balls_costs_nothing() {
    let mut r = round_with(
        vec![ball_at(100_000, 700_000, 0, 1000), ball_at(200_000, 100_000, 0, 1000)],
        vec![far_block()],
    );
    let mut rng = RandomSource::from_draws(vec![0]);
    let out = r.step(0, 0, 800_000, 600_000, &mut rng);
    assert_eq!(out, StepOutcome::Continue);
    assert_eq!(r.lives, 3);
    assert_eq!(r.balls.len(), 1);
}

#[test]
fn fresh_round_has_thirty_bricks_two_of_them_special() {
    let mut rng = RandomSource::from_draws(vec![500, 3, 3]);
    let r = Round::new(800_000, 600_000, &mut rng);
    assert_eq!(r.score, 0);
    assert_eq!(r.lives, 3);
    assert_eq!(r.balls.len(), 1);
    assert_eq!(r.blocks.len(), 30);
    let special: Vec<usize> = (0..r.blocks.len())
        .filter(|&i| r.blocks[i].kind == BlockKind::SpawnBallOnDeath)
        .collect();
    assert_eq!(special, vec![3, 4]);
    for b in r.blocks.iter() {
        assert_eq!(b.lives, 2);
        assert_eq!(b.rect.w, 120_000);
        assert_eq!(b.rect.h, 40_000);
    }
    // Row-major grid, horizontally centred, under the board top.
    assert_eq!(r.blocks[0].rect.x, 25_000);
    assert_eq!(r.blocks[0].rect.y, 50_000);
    assert_eq!(r.blocks[7].rect.x, 150_000);
    assert_eq!(r.blocks[7].rect.y, 95_000);
    // The served ball: centred, direction normalized from the raw draw.
    assert_eq!(r.balls[0].rect, Rect { x: 375_000, y: 300_000, w: 50_000, h: 50_000 });
    assert_eq!(r.balls[0].vel, Vec2i { x: -447, y: 894 });
}

#[test]
fn retagging_never_collapses_onto_one_brick() {
    // Both index draws come out equal; the second is drawn without
    // replacement, so two distinct bricks are still retagged.
    let mut rng = RandomSource::from_draws(vec![0, 10, 10]);
    let r = Round::new(800_000, 600_000, &mut rng);
    let special: Vec<usize> = (0..r.blocks.len())
        .filter(|&i| r.blocks[i].kind == BlockKind::SpawnBallOnDeath)
        .collect();
    assert_eq!(special.len(), 2);
    assert_eq!(special, vec![10, 11]);
}

#[test]
fn paddle_redirects_without_destroying_anything() {
    // A ball overlapping the paddle bounces and nothing is removed.
    let mut b = ball_at(350_000, 470_000, 100, 1000);
    b.rect = Rect { x: 350_000, y: 470_000, w: 50_000, h: 50_000 };
    let mut r = round_with(vec![b], vec![far_block()]);
    let mut rng = RandomSource::from_draws(vec![200]);
    let out = r.step(0, 0, 800_000, 600_000, &mut rng);
    assert_eq!(out, StepOutcome::Continue);
    assert_eq!(r.balls.len(), 1);
    assert_eq!(r.blocks.len(), 1);
    assert_eq!(r.lives, 3);
    assert_eq!(r.score, 0);
    // Paddle top is at 500_000; overlap is 20_000 tall and wide enough to
    // count as vertical, so the ball is pushed up and bounces upward.
    assert_eq!(r.balls[0].rect.y, 450_000);
    assert!(r.balls[0].vel.y < 0);
}
