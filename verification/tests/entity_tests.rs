//! Tests of the entities: paddle clamping, ball serving and wall
//! overrides, brick construction, and the injected random source.
use breakout_core::ball::Ball;
use breakout_core::block::{Block, BlockKind};
use breakout_core::geom::{Rect, Vec2i};
use breakout_core::player::Player;
use breakout_core::rng::RandomSource;

#[test]
fn random_source_is_deterministic_and_wraps() {
    let mut rng = RandomSource::from_draws(vec![5, 10]);
    assert_eq!(rng.next_in(0, 9), 5);
    assert_eq!(rng.next_in(0, 9), 0);
    // The cursor wrapped back to the first draw.
    assert_eq!(rng.next_in(0, 9), 5);
}

#[test]
fn empty_random_source_yields_the_low_end() {
    let mut rng = RandomSource::from_draws(Vec::new());
    assert_eq!(rng.next_in(3, 7), 3);
    assert_eq!(rng.next_in(-200, 200), -200);
}

#[test]
fn player_starts_centred_above_the_bottom() {
    let p = Player::new(800_000, 600_000);
    assert_eq!(p.rect, Rect { x: 325_000, y: 500_000, w: 150_000, h: 40_000 });
    assert_eq!(p.speed, 550_000);
}

#[test]
fn player_moves_by_intent_times_speed_times_time() {
    let mut p = Player::new(800_000, 600_000);
    p.rect.x = 100_000;
    p.update(100, 1, 800_000);
    assert_eq!(p.rect.x, 155_000);
    p.update(100, -1, 800_000);
    assert_eq!(p.rect.x, 100_000);
    p.update(100, 0, 800_000);
    assert_eq!(p.rect.x, 100_000);
}

#[test]
fn player_is_clamped_into_the_playfield() {
    let mut p = Player::new(800_000, 600_000);
    p.rect.x = 700_000;
    // A long rightward move stops at the right edge.
    p.update(10_000, 1, 800_000);
    assert_eq!(p.rect.x, 650_000);
    // A long leftward move stops at the left edge.
    p.update(10_000, -1, 800_000);
    assert_eq!(p.rect.x, 0);
}

#[test]
fn ball_served_straight_down_from_a_zero_draw() {
    let b = Ball::new(Vec2i { x: 10_000, y: 20_000 }, 0);
    assert_eq!(b.rect, Rect { x: 10_000, y: 20_000, w: 50_000, h: 50_000 });
    assert_eq!(b.vel, Vec2i { x: 0, y: 1000 });
    assert_eq!(b.speed, 400_000);
}

#[test]
fn ball_direction_is_normalized() {
    // The raw vector (1000, 1000) has integer length 1414.
    let b = Ball::new(Vec2i { x: 0, y: 0 }, 1000);
    assert_eq!(b.vel, Vec2i { x: 707, y: 707 });
    let c = Ball::new(Vec2i { x: 0, y: 0 }, -1000);
    assert_eq!(c.vel, Vec2i { x: -707, y: 707 });
    // Either way the ball starts moving downward.
    assert!(b.vel.y > 0 && c.vel.y > 0);
}

#[test]
fn ball_integrates_velocity_over_time() {
    let mut b = Ball::new(Vec2i { x: 0, y: 0 }, 0);
    b.vel = Vec2i { x: 1000, y: 1000 };
    b.update(100, 800_000);
    assert_eq!(b.rect.x, 40_000);
    assert_eq!(b.rect.y, 40_000);
    assert_eq!(b.vel, Vec2i { x: 1000, y: 1000 });
}

#[test]
fn left_wall_overrides_direction_rightward() {
    let mut b = Ball::new(Vec2i { x: -10_000, y: 100_000 }, 0);
    b.vel = Vec2i { x: -1000, y: 500 };
    b.update(0, 800_000);
    // The override sets an absolute sign; it does not reflect.
    assert_eq!(b.vel, Vec2i { x: 1000, y: 500 });
    assert_eq!(b.rect.x, -10_000);
}

#[test]
fn right_wall_overrides_direction_leftward() {
    let mut b = Ball::new(Vec2i { x: 760_000, y: 100_000 }, 0);
    b.vel = Vec2i { x: 1000, y: 500 };
    b.update(0, 800_000);
    assert_eq!(b.vel, Vec2i { x: -1000, y: 500 });
}

#[test]
fn ceiling_overrides_direction_downward() {
    let mut b = Ball::new(Vec2i { x: 100_000, y: -5_000 }, 0);
    b.vel = Vec2i { x: 400, y: -900 };
    b.update(0, 800_000);
    assert_eq!(b.vel, Vec2i { x: 400, y: 1000 });
}

#[test]
fn bottom_edge_is_not_a_wall() {
    // Falling past the bottom leaves the velocity alone: removal is the
    // round's business, not the ball's.
    let mut b = Ball::new(Vec2i { x: 100_000, y: 700_000 }, 0);
    b.vel = Vec2i { x: 400, y: 900 };
    b.update(0, 800_000);
    assert_eq!(b.vel, Vec2i { x: 400, y: 900 });
}

#[test]
fn fresh_brick_has_full_lives() {
    let blk = Block::new(Vec2i { x: 30_000, y: 40_000 }, BlockKind::Regular);
    assert_eq!(blk.rect, Rect { x: 30_000, y: 40_000, w: 120_000, h: 40_000 });
    assert_eq!(blk.lives, 2);
    assert_eq!(blk.kind, BlockKind::Regular);
}
