//! A deterministic Pac-Man rules engine on a fixed 28 x 31 maze.
//!
//! The engine is a state-transition function: a game state and a time step
//! give the next state. It draws nothing and reads no input device; a host
//! drives it through [`GameState`].
//!
//! All quantities are whole numbers, so that a game replays exactly on every
//! machine. Time is counted in microseconds and positions in units of which
//! [`entities::TILE`] make one tile.
//!
//! - [`entities`]: directions, positions, Pac-Man and the ghosts
//! - [`maze`]: the grid of cells and what is walkable
//! - [`movement`]: one step of a mover: turn, advance, stop at walls, tunnel
//! - [`ghost_ai`]: a ghost's target and its choice of way at a tile center
//! - [`state`]: the game state and its tick
//! - [`host`]: the interface for a host, by words and snapshots
//! - [`text`]: reading words without regard to case
//! - [`track`], [`laws`]: what is proved of movers and of the game

pub mod entities;
pub mod ghost_ai;
pub mod host;
pub mod laws;
pub mod maze;
pub mod movement;
pub mod state;
pub mod text;
pub mod track;

pub use host::{greet, GameState};
