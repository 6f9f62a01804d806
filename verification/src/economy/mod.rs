//! Fixed-point economy: money, rounding, pricing, interest, indices and daily stepping.

pub mod types;
pub mod money;
pub mod rounding;
pub mod pricing;
pub mod rulepack;
pub mod interest;
pub mod rng;
pub mod table;
pub mod rot;
pub mod basis;
pub mod di;
pub mod planting;
pub mod state;
pub mod log;
