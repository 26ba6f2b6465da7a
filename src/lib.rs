//! A game-result leaderboard: a per-player record table, a running game
//! count and a score-ordered ranking, driven by instantiate / execute /
//! query messages.
pub mod arrival;
pub mod contract;
pub mod counter;
pub mod error;
pub mod model;
pub mod msg;
pub mod ranking;
pub mod scoreboard;

pub use crate::error::ContractError;
