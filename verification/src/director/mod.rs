//! Director: mission and spawn seeding, spawn budgets, missions and the pause wheel.

pub mod rng;
pub mod config;
pub mod spawn;
pub mod econ_intent;
pub mod pause_wheel;
pub mod input;
pub mod missions;
pub mod state;
