use vstd::prelude::*;
use crate::cargo::{lemma_units_rebuild, units_insert_all, Cargo, UnitEntry, UnitTable};
use crate::economy::money::MoneyCents;
use crate::economy::state::{copy_cursors, cursor_views, EconState, RngCursor};
use crate::economy::table::{insert_all_sorted, lemma_rebuild_sorted, BpEntry, BpTable};
use crate::economy::types::{EconomyDay, HubId, Pp};
use super::v1_1::{
    basis_entries_of, basis_from_saves, basis_saves_of, basis_to_saves, copy_inventory,
    copy_plantings, di_entries_of, di_from_saves, di_saves_of, di_to_saves, InventorySlot,
};
use super::v1_2::{CargoItemSave, CargoSave, SaveV11};

verus! {

/// Everything the game keeps between sessions.
pub struct AppState {
    pub econ_version: u32,
    pub world_seed: u64,
    pub econ: EconState,
    pub last_hub: HubId,
    pub inventory: Vec<InventorySlot>,
    pub cargo: Cargo,
    pub rng_cursors: Vec<RngCursor>,
    pub wallet: MoneyCents,
}

impl AppState {
    /// The economy and the cargo table are well formed.
    pub open spec fn wf(&self) -> bool {
        self.econ.wf() && self.cargo.wf()
    }
}

impl AppState {
    /// Whether the economy and the cargo table are well formed.
    pub fn check_wf(&self) -> (r: bool)
        ensures
            r == self.wf(),
    {
        self.econ.check_wf() && self.cargo.items.check_wf()
    }
}

impl Default for AppState {
    fn default() -> (r: Self)
        ensures
            r.wf(),
            r.econ_version == 1,
            r.world_seed == 0,
            r.last_hub == HubId(0),
            r.inventory@.len() == 0,
            r.rng_cursors@.len() == 0,
            r.wallet == MoneyCents(0),
            r.econ.di_bp@.len() == 0 && r.econ.basis_bp@.len() == 0,
            r.cargo.items@.len() == 0,
    {
        AppState {
            econ_version: 1,
            world_seed: 0,
            econ: EconState::default(),
            last_hub: HubId(0),
            inventory: Vec::new(),
            cargo: Cargo::default(),
            rng_cursors: Vec::new(),
            wallet: MoneyCents(0),
        }
    }
}

/// The units entries of saved cargo items.
pub open spec fn item_entries_of(items: Seq<CargoItemSave>) -> Seq<UnitEntry> {
    items.map_values(|i: CargoItemSave| UnitEntry { commodity: i.commodity, units: i.units })
}

/// The saved form of cargo: its capacities and its items in commodity order.
pub fn cargo_to_save(cargo: &Cargo) -> (r: CargoSave)
    ensures
        r.capacity_mass_kg == cargo.capacity_mass_kg,
        r.capacity_volume_l == cargo.capacity_volume_l,
        item_entries_of(r.items@) == cargo.items@,
{
    let entries = cargo.items.to_vec();
    let mut items: Vec<CargoItemSave> = Vec::new();
    let mut i: usize = 0;
    while i < entries.len()
        invariant
            i <= entries@.len(),
            item_entries_of(items@) == entries@.take(i as int),
        decreases entries.len() - i,
    {
        let e = entries[i];
        let ghost before = items@;
        items.push(CargoItemSave { commodity: e.commodity, units: e.units });
        assert(item_entries_of(items@) =~= item_entries_of(before).push(e));
        assert(entries@.take(i + 1) =~= entries@.take(i as int).push(entries@[i as int]));
        i = i + 1;
    }
    assert(entries@.take(entries@.len() as int) == entries@);
    CargoSave { capacity_mass_kg: cargo.capacity_mass_kg, capacity_volume_l: cargo.capacity_volume_l, items }
}

/// Cargo restored from its saved form (a later item for a commodity wins).
pub fn cargo_from_save(save: CargoSave) -> (r: Cargo)
    ensures
        r.wf(),
        r.capacity_mass_kg == save.capacity_mass_kg,
        r.capacity_volume_l == save.capacity_volume_l,
        r.items@ == units_insert_all(Seq::empty(), item_entries_of(save.items@)),
{
    let mut entries: Vec<UnitEntry> = Vec::new();
    let mut i: usize = 0;
    while i < save.items.len()
        invariant
            i <= save.items@.len(),
            entries@ == item_entries_of(save.items@.take(i as int)),
        decreases save.items.len() - i,
    {
        let it = save.items[i];
        entries.push(UnitEntry { commodity: it.commodity, units: it.units });
        assert(save.items@.take(i + 1) =~= save.items@.take(i as int).push(save.items@[i as int]));
        assert(entries@ =~= item_entries_of(save.items@.take(i + 1)));
        i = i + 1;
    }
    assert(save.items@.take(save.items@.len() as int) == save.items@);
    let mut items = UnitTable::new();
    items.set_all(&entries);
    Cargo { capacity_mass_kg: save.capacity_mass_kg, capacity_volume_l: save.capacity_volume_l, items }
}

/// `snap` records `state`: every field carried over, the tables listed in key order.
pub open spec fn snapshot_of(state: AppState, snap: SaveV11) -> bool {
    &&& snap.econ_version == state.econ_version
    &&& snap.world_seed == state.world_seed
    &&& snap.day == state.econ.day
    &&& snap.last_hub == state.last_hub
    &&& snap.di@ == di_saves_of(state.econ.di_bp@)
    &&& snap.di_overlay_bp == state.econ.di_overlay_bp
    &&& snap.basis@ == basis_saves_of(state.econ.basis_bp@)
    &&& snap.pp == state.econ.pp
    &&& snap.rot == state.econ.rot_u16
    &&& snap.debt_cents == state.econ.debt_cents
    &&& snap.inventory@ == state.inventory@
    &&& snap.wallet_cents == state.wallet
    &&& snap.cargo.capacity_mass_kg == state.cargo.capacity_mass_kg
    &&& snap.cargo.capacity_volume_l == state.cargo.capacity_volume_l
    &&& item_entries_of(snap.cargo.items@) == state.cargo.items@
    &&& snap.pending_planting@ == state.econ.pending_planting@
    &&& cursor_views(snap.rng_cursors@) == cursor_views(state.rng_cursors@)
}

/// `state` is restored from `snap`: tables rebuilt from the saved lists, every other
/// field carried over, and no clamp recorded.
pub open spec fn restored_from(snap: SaveV11, state: AppState) -> bool {
    &&& state.econ_version == snap.econ_version
    &&& state.world_seed == snap.world_seed
    &&& state.econ.day == snap.day
    &&& state.last_hub == snap.last_hub
    &&& state.econ.di_bp@ == insert_all_sorted(Seq::empty(), di_entries_of(snap.di@))
    &&& state.econ.di_overlay_bp == snap.di_overlay_bp
    &&& state.econ.basis_bp@ == insert_all_sorted(Seq::empty(), basis_entries_of(snap.basis@))
    &&& state.econ.pp == snap.pp
    &&& state.econ.rot_u16 == snap.rot
    &&& state.econ.debt_cents == snap.debt_cents
    &&& !state.econ.last_clamp_hit
    &&& state.inventory@ == snap.inventory@
    &&& state.wallet == snap.wallet_cents
    &&& state.cargo.capacity_mass_kg == snap.cargo.capacity_mass_kg
    &&& state.cargo.capacity_volume_l == snap.cargo.capacity_volume_l
    &&& state.cargo.items@ == units_insert_all(Seq::empty(), item_entries_of(snap.cargo.items@))
    &&& state.econ.pending_planting@ == snap.pending_planting@
    &&& cursor_views(state.rng_cursors@) == cursor_views(snap.rng_cursors@)
}

/// The save snapshot of the application state.
pub fn snapshot_from_app_state(state: &AppState) -> (r: SaveV11)
    requires
        state.wf(),
    ensures
        snapshot_of(*state, r),
{
    let di = di_to_saves(&state.econ.di_bp);
    let basis = basis_to_saves(&state.econ.basis_bp);
    SaveV11 {
        econ_version: state.econ_version,
        world_seed: state.world_seed,
        day: state.econ.day,
        last_hub: state.last_hub,
        di,
        di_overlay_bp: state.econ.di_overlay_bp,
        basis,
        pp: state.econ.pp,
        rot: state.econ.rot_u16,
        debt_cents: state.econ.debt_cents,
        inventory: copy_inventory(&state.inventory),
        wallet_cents: state.wallet,
        cargo: cargo_to_save(&state.cargo),
        pending_planting: copy_plantings(&state.econ.pending_planting),
        rng_cursors: copy_cursors(&state.rng_cursors),
    }
}

/// The application state restored from a save snapshot.
pub fn app_state_from_snapshot(snapshot: SaveV11) -> (r: AppState)
    ensures
        r.wf(),
        restored_from(snapshot, r),
{
    let di_bp = di_from_saves(&snapshot.di);
    proof {
        super::v1_1::lemma_di_keys_after_insert(di_entries_of(snapshot.di@));
    }
    let basis_bp = basis_from_saves(&snapshot.basis);
    let econ = EconState {
        day: snapshot.day,
        di_bp,
        di_overlay_bp: snapshot.di_overlay_bp,
        basis_bp,
        pp: snapshot.pp,
        rot_u16: snapshot.rot,
        pending_planting: copy_plantings(&snapshot.pending_planting),
        debt_cents: snapshot.debt_cents,
        last_clamp_hit: false,
    };
    let rng_cursors = copy_cursors(&snapshot.rng_cursors);
    let inventory = copy_inventory(&snapshot.inventory);
    AppState {
        econ_version: snapshot.econ_version,
        world_seed: snapshot.world_seed,
        econ,
        last_hub: snapshot.last_hub,
        inventory,
        cargo: cargo_from_save(snapshot.cargo),
        rng_cursors,
        wallet: snapshot.wallet_cents,
    }
}

/// Restoring a snapshot gives back the state it was taken from, except that no clamp is
/// recorded: tables, cargo, cursors and every other field come back unchanged.
pub proof fn lemma_snapshot_round_trip(state: AppState, snap: SaveV11, back: AppState)
    requires
        state.wf(),
        snapshot_of(state, snap),
        restored_from(snap, back),
    ensures
        back.econ_version == state.econ_version,
        back.world_seed == state.world_seed,
        back.last_hub == state.last_hub,
        back.econ.day == state.econ.day,
        back.econ.di_bp@ == state.econ.di_bp@,
        back.econ.di_overlay_bp == state.econ.di_overlay_bp,
        back.econ.basis_bp@ == state.econ.basis_bp@,
        back.econ.pp == state.econ.pp,
        back.econ.rot_u16 == state.econ.rot_u16,
        back.econ.pending_planting@ == state.econ.pending_planting@,
        back.econ.debt_cents == state.econ.debt_cents,
        !back.econ.last_clamp_hit,
        back.inventory@ == state.inventory@,
        back.cargo.capacity_mass_kg == state.cargo.capacity_mass_kg,
        back.cargo.capacity_volume_l == state.cargo.capacity_volume_l,
        back.cargo.items@ == state.cargo.items@,
        cursor_views(back.rng_cursors@) == cursor_views(state.rng_cursors@),
        back.wallet == state.wallet,
{
    let di = state.econ.di_bp@;
    state.econ.di_bp.lemma_wf();
    assert(di_entries_of(di_saves_of(di)) =~= di);
    lemma_rebuild_sorted(di);
    let basis = state.econ.basis_bp@;
    state.econ.basis_bp.lemma_wf();
    assert forall|i: int| 0 <= i < basis.len() implies #[trigger] basis_entries_of(basis_saves_of(basis))[i]
        == basis[i] by {
        let k = basis[i].key;
        assert(k / 65536 < 65536);
        assert((k / 65536) * 65536 + k % 65536 == k);
    }
    assert(basis_entries_of(basis_saves_of(basis)) =~= basis);
    lemma_rebuild_sorted(basis);
    state.cargo.items.lemma_wf();
    lemma_units_rebuild(state.cargo.items@);
}


fn entries_equal(a: &Vec<BpEntry>, b: &Vec<BpEntry>) -> (r: bool)
    ensures
        r == (a@ == b@),
{
    if a.len() != b.len() {
        return false;
    }
    let mut i: usize = 0;
    while i < a.len()
        invariant
            i <= a@.len(),
            a@.len() == b@.len(),
            forall|j: int| 0 <= j < i ==> a@[j] == b@[j],
        decreases a.len() - i,
    {
        if a[i] != b[i] {
            return false;
        }
        i = i + 1;
    }
    assert(a@ =~= b@);
    true
}

fn plantings_equal(a: &Vec<crate::economy::planting::PendingPlanting>, b: &Vec<crate::economy::planting::PendingPlanting>) -> (r: bool)
    ensures
        r == (a@ == b@),
{
    if a.len() != b.len() {
        return false;
    }
    let mut i: usize = 0;
    while i < a.len()
        invariant
            i <= a@.len(),
            a@.len() == b@.len(),
            forall|j: int| 0 <= j < i ==> a@[j] == b@[j],
        decreases a.len() - i,
    {
        if a[i] != b[i] {
            return false;
        }
        i = i + 1;
    }
    assert(a@ =~= b@);
    true
}

fn inventory_equal(a: &Vec<InventorySlot>, b: &Vec<InventorySlot>) -> (r: bool)
    ensures
        r == (a@ == b@),
{
    if a.len() != b.len() {
        return false;
    }
    let mut i: usize = 0;
    while i < a.len()
        invariant
            i <= a@.len(),
            a@.len() == b@.len(),
            forall|j: int| 0 <= j < i ==> a@[j] == b@[j],
        decreases a.len() - i,
    {
        if a[i] != b[i] {
            return false;
        }
        i = i + 1;
    }
    assert(a@ =~= b@);
    true
}

fn units_equal(a: &Vec<UnitEntry>, b: &Vec<UnitEntry>) -> (r: bool)
    ensures
        r == (a@ == b@),
{
    if a.len() != b.len() {
        return false;
    }
    let mut i: usize = 0;
    while i < a.len()
        invariant
            i <= a@.len(),
            a@.len() == b@.len(),
            forall|j: int| 0 <= j < i ==> a@[j] == b@[j],
        decreases a.len() - i,
    {
        if a[i] != b[i] {
            return false;
        }
        i = i + 1;
    }
    assert(a@ =~= b@);
    true
}

fn cursors_equal(a: &Vec<RngCursor>, b: &Vec<RngCursor>) -> (r: bool)
    ensures
        r == (cursor_views(a@) == cursor_views(b@)),
{
    if a.len() != b.len() {
        assert(cursor_views(a@).len() != cursor_views(b@).len());
        return false;
    }
    let mut i: usize = 0;
    while i < a.len()
        invariant
            i <= a@.len(),
            a@.len() == b@.len(),
            forall|j: int| 0 <= j < i ==> cursor_views(a@)[j] == cursor_views(b@)[j],
        decreases a.len() - i,
    {
        if !(a[i].label == b[i].label && a[i].draws == b[i].draws) {
            assert(cursor_views(a@)[i as int] != cursor_views(b@)[i as int]);
            return false;
        }
        i = i + 1;
    }
    assert(cursor_views(a@) =~= cursor_views(b@));
    true
}

/// Two economies agree on everything that is saved (the clamp flag is not compared).
pub open spec fn econ_same(a: EconState, b: EconState) -> bool {
    &&& a.day == b.day
    &&& a.di_bp@ == b.di_bp@
    &&& a.di_overlay_bp == b.di_overlay_bp
    &&& a.basis_bp@ == b.basis_bp@
    &&& a.pp == b.pp
    &&& a.rot_u16 == b.rot_u16
    &&& a.pending_planting@ == b.pending_planting@
    &&& a.debt_cents == b.debt_cents
}

/// Whether two economies agree on everything that is saved.
pub fn econ_eq(a: &EconState, b: &EconState) -> (r: bool)
    ensures
        r == econ_same(*a, *b),
{
    a.day == b.day && entries_equal(&a.di_bp.to_vec(), &b.di_bp.to_vec()) && a.di_overlay_bp
        == b.di_overlay_bp && entries_equal(&a.basis_bp.to_vec(), &b.basis_bp.to_vec()) && a.pp == b.pp
        && a.rot_u16 == b.rot_u16 && plantings_equal(&a.pending_planting, &b.pending_planting)
        && a.debt_cents == b.debt_cents
}

/// Two application states agree field by field, the economies as `econ_same` says.
pub open spec fn app_state_same(a: AppState, b: AppState) -> bool {
    &&& a.econ_version == b.econ_version
    &&& a.world_seed == b.world_seed
    &&& a.last_hub == b.last_hub
    &&& a.inventory@ == b.inventory@
    &&& a.cargo.capacity_mass_kg == b.cargo.capacity_mass_kg
    &&& a.cargo.capacity_volume_l == b.cargo.capacity_volume_l
    &&& a.cargo.items@ == b.cargo.items@
    &&& cursor_views(a.rng_cursors@) == cursor_views(b.rng_cursors@)
    &&& a.wallet == b.wallet
    &&& econ_same(a.econ, b.econ)
}

impl AppState {
    /// Whether two application states agree field by field.
    pub fn same_as(&self, other: &AppState) -> (r: bool)
        ensures
            r == app_state_same(*self, *other),
    {
        self.econ_version == other.econ_version && self.world_seed == other.world_seed
            && self.last_hub == other.last_hub && inventory_equal(&self.inventory, &other.inventory)
            && self.cargo.capacity_mass_kg == other.cargo.capacity_mass_kg
            && self.cargo.capacity_volume_l == other.cargo.capacity_volume_l && units_equal(
            &self.cargo.items.to_vec(),
            &other.cargo.items.to_vec(),
        ) && cursors_equal(&self.rng_cursors, &other.rng_cursors) && self.wallet == other.wallet
            && econ_eq(&self.econ, &other.econ)
    }
}

/// A state restored from its own snapshot agrees with it field by field.
pub proof fn lemma_round_trip_same(state: AppState, snap: SaveV11, back: AppState)
    requires
        state.wf(),
        snapshot_of(state, snap),
        restored_from(snap, back),
    ensures
        app_state_same(back, state),
{
    lemma_snapshot_round_trip(state, snap, back);
}

} // verus!
