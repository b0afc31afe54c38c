//! Core engine of a sugoroku (roll-and-move) board game.
//!
//! Players advance along a linear sequence of areas; each area may carry
//! effects that mutate player state when a player lands on it.  The engine
//! resolves a single externally supplied die value into a new game state,
//! including cascading area effects and goal detection.

pub mod area;
pub mod error;
pub mod player_status;
pub mod preferences;
pub mod tex;
pub mod text;
pub mod ui;
pub mod world;
