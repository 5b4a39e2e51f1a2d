//! Simulation core of a grid-based Snake game.
//!
//! The engine owns the playing field: a row-major grid of occupancy flags,
//! the snake as a head-first sequence of segments, the food cell, the score
//! and the game-over flag. `SnakeEngine::tick` is the only operation that
//! changes it. Drawing, input handling and the source of random numbers are
//! left to the host: a tick takes the requested direction and one random
//! draw, and the host reads the result back through the accessors.
//!
//! `state` holds the mathematical model that the contracts speak of, and
//! `laws` what is proved of every state the engine can reach.

pub mod config;
pub mod direction;
pub mod engine;
pub mod error;
pub mod food;
pub mod grid;
pub mod laws;
pub mod segment;
pub mod state;

pub use config::Config;
pub use direction::Direction;
pub use engine::SnakeEngine;
pub use error::{ConfigError, OutOfBoundsError, TickError};
pub use food::place_food;
pub use segment::{MeatPositionTuple, SnakeCell};
