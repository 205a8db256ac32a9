//! The game-state machine: menu, playing, level-completed and dead, with
//! every transition in one place.
//!
//! The machine owns exactly one round at a time. Confirm advances out of
//! the menu and the level-completed screen without touching the round;
//! a playing frame steps the round and follows its outcome; confirm on
//! the dead screen replaces the round wholesale with a fresh one.
use vstd::prelude::*;

use crate::geom::{DELTA_LIMIT, SCREEN_LIMIT};
use crate::rng::{rng_wf, RandomSource, RngModel};
use crate::round::{
    round_new_spec, round_wf, step_spec, Round, RoundModel, StepOutcome,
};

verus! {

/// Which screen the game is on.
#[derive(Clone, Copy, PartialEq, Eq, Structural, Debug)]
pub enum GameState {
    /// Waiting to start.
    Menu,
    /// A round is in play.
    Playing,
    /// Every brick is gone; waiting for confirm to resume.
    LevelCompleted,
    /// The round is over; confirm restarts from scratch.
    Dead,
}

/// Mathematical model of the whole game.
#[verifier::ext_equal]
pub ghost struct GameModel {
    pub state: GameState,
    pub round: RoundModel,
}

/// A well-formed game holds a well-formed round.
pub open spec fn game_wf(g: GameModel) -> bool {
    round_wf(g.round)
}

/// One frame of the state machine. In the menu and on the
/// level-completed screen, confirm resumes play and nothing else
/// changes. While playing, the round advances one step: a lost round
/// goes to the dead screen, a cleared one to the level-completed
/// screen. On the dead screen, confirm rebuilds the round from scratch
/// and resumes play.
pub open spec fn frame_spec(
    g: GameModel,
    confirm: bool,
    delta: int,
    intent: int,
    screen_w: int,
    screen_h: int,
    r: RngModel,
) -> (GameModel, RngModel) {
    match g.state {
        GameState::Menu => (
            GameModel {
                state: if confirm {
                    GameState::Playing
                } else {
                    GameState::Menu
                },
                ..g
            },
            r,
        ),
        GameState::Playing => {
            let (m4, r4, out) = step_spec(g.round, delta, intent, screen_w, screen_h, r);
            let st = match out {
                StepOutcome::Lost => GameState::Dead,
                StepOutcome::Cleared => GameState::LevelCompleted,
                StepOutcome::Continue => GameState::Playing,
            };
            (GameModel { state: st, round: m4 }, r4)
        },
        GameState::LevelCompleted => (
            GameModel {
                state: if confirm {
                    GameState::Playing
                } else {
                    GameState::LevelCompleted
                },
                ..g
            },
            r,
        ),
        GameState::Dead => {
            if confirm {
                let (m, r1) = round_new_spec(screen_w, screen_h, r);
                (GameModel { state: GameState::Playing, round: m }, r1)
            } else {
                (g, r)
            }
        },
    }
}

/// The whole game: the current screen and the one owned round.
pub struct Game {
    pub state: GameState,
    pub round: Round,
}

impl View for Game {
    type V = GameModel;

    open spec fn view(&self) -> GameModel {
        GameModel { state: self.state, round: self.round@ }
    }
}

impl Game {
    /// A fresh game: on the menu, with a round already set up and
    /// waiting.
    pub fn new(screen_w: i64, screen_h: i64, rng: &mut RandomSource) -> (g: Game)
        requires
            0 <= screen_w <= SCREEN_LIMIT,
            0 <= screen_h <= SCREEN_LIMIT,
            rng_wf(old(rng)@),
        ensures
            g@.state == GameState::Menu,
            (g@.round, final(rng)@) == round_new_spec(
                screen_w as int,
                screen_h as int,
                old(rng)@,
            ),
            game_wf(g@),
            rng_wf(final(rng)@),
    {
        let round = Round::new(screen_w, screen_h, rng);
        Game { state: GameState::Menu, round }
    }

    /// Advance the game by one frame, exactly as `frame_spec` says.
    pub fn frame(
        &mut self,
        confirm: bool,
        delta: i64,
        intent: i64,
        screen_w: i64,
        screen_h: i64,
        rng: &mut RandomSource,
    )
        requires
            game_wf(old(self)@),
            rng_wf(old(rng)@),
            0 <= delta <= DELTA_LIMIT,
            -1 <= intent <= 1,
            0 <= screen_w <= SCREEN_LIMIT,
            0 <= screen_h <= SCREEN_LIMIT,
        ensures
            (final(self)@, final(rng)@) == frame_spec(
                old(self)@,
                confirm,
                delta as int,
                intent as int,
                screen_w as int,
                screen_h as int,
                old(rng)@,
            ),
            game_wf(final(self)@),
            rng_wf(final(rng)@),
    {
        match self.state {
            GameState::Menu => {
                if confirm {
                    self.state = GameState::Playing;
                }
            },
            GameState::Playing => {
                let out = self.round.step(delta, intent, screen_w, screen_h, rng);
                match out {
                    StepOutcome::Lost => {
                        self.state = GameState::Dead;
                    },
                    StepOutcome::Cleared => {
                        self.state = GameState::LevelCompleted;
                    },
                    StepOutcome::Continue => {},
                }
            },
            GameState::LevelCompleted => {
                if confirm {
                    self.state = GameState::Playing;
                }
            },
            GameState::Dead => {
                if confirm {
                    self.round = Round::new(screen_w, screen_h, rng);
                    self.state = GameState::Playing;
                }
            },
        }
    }
}

} // verus!
