//! Deterministic economy, director and save-game logic of the Detterot prototype.

pub mod bounds;
pub mod bytes;
pub mod economy;
pub mod gameplay;
pub mod logs;
pub mod replay;
pub mod replay_laws;
pub mod runtime;
pub mod save;
pub mod scheduling;
pub mod sim;
pub mod cargo;
pub mod cli;
pub mod command_queue;
pub mod director;
pub mod weather;
