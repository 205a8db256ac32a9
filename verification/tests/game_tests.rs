//! Tests of the game-state machine: the menu, playing, level-completed
//! and dead screens, and the full restart from the dead screen.
use breakout_core::ball::Ball;
use breakout_core::block::{Block, BlockKind};
use breakout_core::game::{Game, GameState};
use breakout_core::geom::{Rect, Vec2i};
use breakout_core::player::Player;
use breakout_core::rng::RandomSource;
use breakout_core::round::Round;

fn playing_round() -> Round {
    Round {
        score: 70,
        lives: 2,
        player: Player::new(800_000, 600_000),
        balls: vec![Ball::new(Vec2i { x: 100_000, y: 100_000 }, 0)],
        blocks: vec![Block::new(Vec2i { x: 600_000, y: 40_000 }, BlockKind::Regular)],
    }
}

#[test]
fn a_fresh_game_waits_on_the_menu() {
    let mut rng = RandomSource::from_draws(vec![0, 1, 2]);
    let g = Game::new(800_000, 600_000, &mut rng);
    assert_eq!(g.state, GameState::Menu);
    assert_eq!(g.round.blocks.len(), 30);
}

#[test]
fn confirm_leaves_the_menu_without_touching_the_round() {
    let mut rng = RandomSource::from_draws(vec![0]);
    let mut g = Game { state: GameState::Menu, round: playing_round() };
    g.frame(false, 0, 0, 800_000, 600_000, &mut rng);
    assert_eq!(g.state, GameState::Menu);
    g.frame(true, 0, 0, 800_000, 600_000, &mut rng);
    assert_eq!(g.state, GameState::Playing);
    assert_eq!(g.round.score, 70);
    assert_eq!(g.round.lives, 2);
}

#[test]
fn a_quiet_playing_frame_stays_playing() {
    let mut rng = RandomSource::from_draws(vec![0]);
    let mut g = Game { state: GameState::Playing, round: playing_round() };
    g.frame(false, 16, 0, 800_000, 600_000, &mut rng);
    assert_eq!(g.state, GameState::Playing);
    assert_eq!(g.round.score, 70);
}

#[test]
fn losing_the_round_shows_the_dead_screen() {
    let mut rng = RandomSource::from_draws(vec![0]);
    let mut round = playing_round();
    round.lives = 1;
    round.balls[0].rect = Rect { x: 100_000, y: 700_000, w: 50_000, h: 50_000 };
    let mut g = Game { state: GameState::Playing, round };
    g.frame(false, 0, 0, 800_000, 600_000, &mut rng);
    assert_eq!(g.state, GameState::Dead);
    assert_eq!(g.round.lives, 0);
}

#[test]
fn clearing_the_last_brick_completes_the_level() {
    let mut rng = RandomSource::from_draws(vec![0]);
    let mut round = playing_round();
    round.blocks[0] = Block {
        rect: Rect { x: 10_000, y: 40_000, w: 120_000, h: 40_000 },
        lives: 1,
        kind: BlockKind::Regular,
    };
    round.balls[0].rect = Rect { x: 0, y: 0, w: 50_000, h: 50_000 };
    round.balls[0].vel = Vec2i { x: 1000, y: 500 };
    let mut g = Game { state: GameState::Playing, round };
    g.frame(false, 0, 0, 800_000, 600_000, &mut rng);
    assert_eq!(g.state, GameState::LevelCompleted);
    assert_eq!(g.round.blocks.len(), 0);
    assert_eq!(g.round.score, 80);
    // Confirm resumes play with the same round.
    g.frame(true, 0, 0, 800_000, 600_000, &mut rng);
    assert_eq!(g.state, GameState::Playing);
    assert_eq!(g.round.score, 80);
}

#[test]
fn restart_from_dead_rebuilds_everything() {
    let mut rng = RandomSource::from_draws(vec![500, 3, 3]);
    let mut dead_round = playing_round();
    dead_round.lives = 0;
    dead_round.balls.clear();
    let mut g = Game { state: GameState::Dead, round: dead_round };
    // Without confirm the dead screen stays.
    g.frame(false, 0, 0, 800_000, 600_000, &mut rng);
    assert_eq!(g.state, GameState::Dead);
    assert_eq!(g.round.score, 70);
    // Confirm rebuilds the round from scratch.
    g.frame(true, 0, 0, 800_000, 600_000, &mut rng);
    assert_eq!(g.state, GameState::Playing);
    assert_eq!(g.round.score, 0);
    assert_eq!(g.round.lives, 3);
    assert_eq!(g.round.balls.len(), 1);
    assert_eq!(g.round.blocks.len(), 30);
    let special: Vec<usize> = (0..g.round.blocks.len())
        .filter(|&i| g.round.blocks[i].kind == BlockKind::SpawnBallOnDeath)
        .collect();
    assert_eq!(special.len(), 2);
    assert_eq!(special, vec![3, 4]);
}
