//! Save files: the version 1, 1.1 and 1.2 layouts, their upgrades, and the snapshot of
//! the application state.

use vstd::prelude::*;
use crate::economy::money::MoneyCents;
use crate::economy::planting::PendingPlanting;
use crate::economy::state::RngCursor;
use crate::economy::types::{EconomyDay, Pp};

pub mod v1_1;
pub mod v1_2;
pub mod snapshot;
pub mod app_save;
pub mod normalize;

use v1_1::{BasisSave, CommoditySave, InventorySlot};

verus! {

/// Version 1 of the save file, before schema headers, wallets and cargo.
#[derive(Debug, Clone)]
pub struct SaveV1 {
    pub econ_version: u32,
    pub world_seed: u64,
    pub day: EconomyDay,
    pub di: Vec<CommoditySave>,
    pub di_overlay_bp: i32,
    pub basis: Vec<BasisSave>,
    pub pp: Pp,
    pub rot: u16,
    pub debt_cents: MoneyCents,
    pub inventory: Vec<InventorySlot>,
    pub pending_planting: Vec<PendingPlanting>,
    pub rng_cursors: Vec<RngCursor>,
}

} // verus!
