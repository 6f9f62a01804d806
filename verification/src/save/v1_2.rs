use vstd::prelude::*;
use crate::economy::money::MoneyCents;
use crate::economy::planting::PendingPlanting;
use crate::economy::state::RngCursor;
use crate::economy::types::{CommodityId, EconomyDay, HubId, Pp, RouteId};
use super::v1_1::{BasisSave, CommoditySave, InventorySlot, SchemaVersion};
use super::SaveV1;

verus! {

/// Units of one commodity in saved cargo.
#[derive(Debug, Clone, Copy, PartialEq, Eq, Structural)]
pub struct CargoItemSave {
    pub commodity: CommodityId,
    pub units: u32,
}

/// Saved cargo: capacity by mass and volume and the items carried.
#[derive(Debug, Clone)]
pub struct CargoSave {
    pub capacity_mass_kg: u32,
    pub capacity_volume_l: u32,
    pub items: Vec<CargoItemSave>,
}

/// Version 1.1 save layout with a last hub, a wallet and cargo.
#[derive(Debug, Clone)]
pub struct SaveV11 {
    pub econ_version: u32,
    pub world_seed: u64,
    pub day: EconomyDay,
    pub last_hub: HubId,
    pub di: Vec<CommoditySave>,
    pub di_overlay_bp: i32,
    pub basis: Vec<BasisSave>,
    pub pp: Pp,
    pub rot: u16,
    pub debt_cents: MoneyCents,
    pub inventory: Vec<InventorySlot>,
    pub wallet_cents: MoneyCents,
    pub cargo: CargoSave,
    pub pending_planting: Vec<PendingPlanting>,
    pub rng_cursors: Vec<RngCursor>,
}

/// Version 1.2 save layout: version 1.1 plus the last board hash and visited links.
#[derive(Debug, Clone)]
pub struct SaveV12 {
    pub econ_version: u32,
    pub world_seed: u64,
    pub day: EconomyDay,
    pub last_hub: HubId,
    pub di: Vec<CommoditySave>,
    pub di_overlay_bp: i32,
    pub basis: Vec<BasisSave>,
    pub pp: Pp,
    pub rot: u16,
    pub debt_cents: MoneyCents,
    pub inventory: Vec<InventorySlot>,
    pub wallet_cents: MoneyCents,
    pub cargo: CargoSave,
    pub pending_planting: Vec<PendingPlanting>,
    pub rng_cursors: Vec<RngCursor>,
    pub last_board_hash: u64,
    pub visited_links: Vec<RouteId>,
}

/// Upgrades a version 1.1 save to 1.2: every field is kept, the board hash starts at 0
/// and no link has been visited.
pub fn migrate_v11_to_v12(v11: SaveV11) -> (r: SaveV12)
    ensures
        r.econ_version == v11.econ_version,
        r.world_seed == v11.world_seed,
        r.day == v11.day,
        r.last_hub == v11.last_hub,
        r.di == v11.di,
        r.di_overlay_bp == v11.di_overlay_bp,
        r.basis == v11.basis,
        r.pp == v11.pp,
        r.rot == v11.rot,
        r.debt_cents == v11.debt_cents,
        r.inventory == v11.inventory,
        r.wallet_cents == v11.wallet_cents,
        r.cargo == v11.cargo,
        r.pending_planting == v11.pending_planting,
        r.rng_cursors == v11.rng_cursors,
        r.last_board_hash == 0,
        r.visited_links@.len() == 0,
{
    SaveV12 {
        econ_version: v11.econ_version,
        world_seed: v11.world_seed,
        day: v11.day,
        last_hub: v11.last_hub,
        di: v11.di,
        di_overlay_bp: v11.di_overlay_bp,
        basis: v11.basis,
        pp: v11.pp,
        rot: v11.rot,
        debt_cents: v11.debt_cents,
        inventory: v11.inventory,
        wallet_cents: v11.wallet_cents,
        cargo: v11.cargo,
        pending_planting: v11.pending_planting,
        rng_cursors: v11.rng_cursors,
        last_board_hash: 0,
        visited_links: Vec::new(),
    }
}

/// Upgrades a version 1 save to the 1.1 layout: every field is kept, the last hub is
/// hub 0, the wallet is empty and so is the cargo.
pub fn migrate_v1_to_v11(v1: SaveV1) -> (r: SaveV11)
    ensures
        r.econ_version == v1.econ_version,
        r.world_seed == v1.world_seed,
        r.day == v1.day,
        r.last_hub == HubId(0),
        r.di == v1.di,
        r.di_overlay_bp == v1.di_overlay_bp,
        r.basis == v1.basis,
        r.pp == v1.pp,
        r.rot == v1.rot,
        r.debt_cents == v1.debt_cents,
        r.inventory == v1.inventory,
        r.wallet_cents == MoneyCents(0),
        r.cargo.capacity_mass_kg == 0 && r.cargo.capacity_volume_l == 0 && r.cargo.items@.len() == 0,
        r.pending_planting == v1.pending_planting,
        r.rng_cursors == v1.rng_cursors,
{
    SaveV11 {
        econ_version: v1.econ_version,
        world_seed: v1.world_seed,
        day: v1.day,
        last_hub: HubId(0),
        di: v1.di,
        di_overlay_bp: v1.di_overlay_bp,
        basis: v1.basis,
        pp: v1.pp,
        rot: v1.rot,
        debt_cents: v1.debt_cents,
        inventory: v1.inventory,
        wallet_cents: MoneyCents(0),
        cargo: CargoSave { capacity_mass_kg: 0, capacity_volume_l: 0, items: Vec::new() },
        pending_planting: v1.pending_planting,
        rng_cursors: v1.rng_cursors,
    }
}

/// Layout of a stored save, told apart by the fields present: a board hash and visited
/// links mark 1.2, cargo or a last hub mark 1.1, anything else is version 1.
#[derive(Debug, Clone, Copy, PartialEq, Eq, Structural)]
pub enum SaveLayout {
    V1,
    V11,
    V12,
}

/// Which layout a stored save has, from the top-level fields it holds.
pub fn detect_layout(has_board_hash: bool, has_visited_links: bool, has_cargo: bool, has_last_hub: bool) -> (r: SaveLayout)
    ensures
        r == (if has_board_hash && has_visited_links {
            SaveLayout::V12
        } else if has_cargo || has_last_hub {
            SaveLayout::V11
        } else {
            SaveLayout::V1
        }),
{
    if has_board_hash && has_visited_links {
        SaveLayout::V12
    } else if has_cargo || has_last_hub {
        SaveLayout::V11
    } else {
        SaveLayout::V1
    }
}

/// Why a stored save cannot be brought to the current version.
#[derive(Debug, Clone, Copy, PartialEq, Eq, Structural)]
pub enum MigrateError {
    /// The save names a schema version this library does not read.
    UnsupportedVersion { major: u32, minor: u32 },
}

/// Accepts a save whose schema version (when it names one) has major version 1; any other
/// major version is refused with that version.
pub fn check_schema_version(version: Option<SchemaVersion>) -> (r: Result<(), MigrateError>)
    ensures
        (version matches Some(v) && v.major != 1) ==> r == Err::<(), MigrateError>(
            MigrateError::UnsupportedVersion { major: version->0.major, minor: version->0.minor },
        ),
        !(version matches Some(v) && v.major != 1) ==> r is Ok,
{
    match version {
        Some(v) => {
            if v.major != 1 {
                Err(MigrateError::UnsupportedVersion { major: v.major, minor: v.minor })
            } else {
                Ok(())
            }
        },
        None => Ok(()),
    }
}

} // verus!
