//! Simulation core of a single-screen brick-breaking arcade game.
//!
//! The crate holds the collision/physics engine and the entity-interaction
//! rules: ball-paddle, ball-brick and ball-wall bounce resolution, brick
//! destruction, ball spawning and loss, scoring, lives tracking, and the
//! small game-state machine that drives a round. Rendering, input polling,
//! frame timing and the host event loop are external collaborators: they
//! hand the core plain values (elapsed time, movement intent, playfield
//! bounds, random draws) and read back snapshots to draw.
//!
//! All geometry is integer fixed-point: positions and sizes are measured in
//! thousandths of a pixel, velocity directions in thousandths of a unit.
pub mod ball;
pub mod block;
pub mod collision;
pub mod game;
pub mod geom;
pub mod laws;
pub mod player;
pub mod rng;
pub mod round;
