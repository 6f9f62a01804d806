use vstd::prelude::*;
use crate::cargo::{units_insert_all, CargoHold, UnitEntry};
use crate::economy::money::MoneyCents;
use crate::economy::planting::PendingPlanting;
use crate::economy::state::{copy_cursors, cursor_views, EconState, RngCursor};
use crate::economy::table::{insert_all_sorted, lemma_rebuild_sorted, BpEntry, BpTable};
use crate::economy::types::{BasisBp, CommodityId, EconomyDay, HubId, Pp};
use super::SaveV1;

verus! {

/// Version of the save schema.
#[derive(Debug, Clone, Copy, PartialEq, Eq, Structural)]
pub struct SchemaVersion {
    pub major: u32,
    pub minor: u32,
}

impl SchemaVersion {
    /// Version `major.minor`.
    pub fn new(major: u32, minor: u32) -> (r: Self)
        ensures
            r == (SchemaVersion { major, minor }),
    {
        SchemaVersion { major, minor }
    }

    /// Version 1.1.
    pub fn v1_1() -> (r: Self)
        ensures
            r == (SchemaVersion { major: 1, minor: 1 }),
    {
        Self::new(1, 1)
    }
}

/// Schema header of a save.
#[derive(Debug, Clone, Copy, PartialEq, Eq, Structural)]
pub struct SaveSchema {
    pub version: SchemaVersion,
}

impl SaveSchema {
    /// The header of a version 1.1 save.
    pub fn v1_1() -> (r: Self)
        ensures
            r == (SaveSchema { version: SchemaVersion { major: 1, minor: 1 } }),
    {
        SaveSchema { version: SchemaVersion::v1_1() }
    }
}

/// A saved daily index of one commodity.
#[derive(Debug, Clone, Copy, PartialEq, Eq, Structural)]
pub struct CommoditySave {
    pub commodity: CommodityId,
    pub value: BasisBp,
}

/// A saved basis of one hub and commodity.
#[derive(Debug, Clone, Copy, PartialEq, Eq, Structural)]
pub struct BasisSave {
    pub hub: HubId,
    pub commodity: CommodityId,
    pub value: BasisBp,
}

/// Amount held of one commodity in the inventory.
#[derive(Debug, Clone, Copy, PartialEq, Eq, Structural)]
pub struct InventorySlot {
    pub commodity: CommodityId,
    pub amount: u32,
}

impl Default for InventorySlot {
    fn default() -> (r: Self)
        ensures
            r == (InventorySlot { commodity: CommodityId(0), amount: 0 }),
    {
        InventorySlot { commodity: CommodityId(0), amount: 0 }
    }
}

/// Units of one commodity in a saved cargo manifest.
#[derive(Debug, Clone, Copy, PartialEq, Eq, Structural)]
pub struct CargoSlot {
    pub commodity: CommodityId,
    pub units: u32,
}

/// A saved cargo hold.
#[derive(Debug, Clone)]
pub struct CargoSave {
    pub capacity_total: u32,
    pub capacity_used: u32,
    pub mass_capacity_total: u32,
    pub mass_capacity_used: u32,
    pub manifest: Vec<CargoSlot>,
}

impl Default for CargoSave {
    fn default() -> (r: Self)
        ensures
            r.capacity_total == 0 && r.capacity_used == 0 && r.mass_capacity_total == 0
                && r.mass_capacity_used == 0,
            r.manifest@.len() == 0,
    {
        CargoSave {
            capacity_total: 0,
            capacity_used: 0,
            mass_capacity_total: 0,
            mass_capacity_used: 0,
            manifest: Vec::new(),
        }
    }
}

/// Version 1.1 of the save file.
#[derive(Debug, Clone)]
pub struct SaveV1_1 {
    pub schema: SaveSchema,
    pub econ_version: u32,
    pub world_seed: u64,
    pub day: EconomyDay,
    pub di: Vec<CommoditySave>,
    pub di_overlay_bp: i32,
    pub basis: Vec<BasisSave>,
    pub pp: Pp,
    pub rot: u16,
    pub debt_cents: MoneyCents,
    pub wallet_cents: MoneyCents,
    pub inventory: Vec<InventorySlot>,
    pub pending_planting: Vec<PendingPlanting>,
    pub rng_cursors: Vec<RngCursor>,
    pub last_hub: Option<HubId>,
    pub cargo: CargoSave,
    pub last_clamp_hit: bool,
}

/// The saved form of a daily-index table: one entry per key, in key order.
pub open spec fn di_saves_of(s: Seq<BpEntry>) -> Seq<CommoditySave> {
    s.map_values(|e: BpEntry| CommoditySave { commodity: CommodityId(e.key as u16), value: e.value })
}

/// The table entries of saved daily indices, keyed by commodity.
pub open spec fn di_entries_of(saves: Seq<CommoditySave>) -> Seq<BpEntry> {
    saves.map_values(|c: CommoditySave| BpEntry { key: c.commodity.0 as u32, value: c.value })
}

/// The saved form of a basis table: hub and commodity read back from each key.
pub open spec fn basis_saves_of(s: Seq<BpEntry>) -> Seq<BasisSave> {
    s.map_values(
        |e: BpEntry|
            BasisSave {
                hub: HubId((e.key / 65536) as u16),
                commodity: CommodityId((e.key % 65536) as u16),
                value: e.value,
            },
    )
}

/// The table entries of saved bases, keyed by hub and commodity.
pub open spec fn basis_entries_of(saves: Seq<BasisSave>) -> Seq<BpEntry> {
    saves.map_values(
        |b: BasisSave| BpEntry { key: (b.hub.0 as int * 65536 + b.commodity.0 as int) as u32, value: b.value },
    )
}

/// Every key of a daily-index table is a commodity id.
pub open spec fn di_keys_fit(s: Seq<BpEntry>) -> bool {
    forall|i: int| 0 <= i < s.len() ==> #[trigger] s[i].key <= u16::MAX
}

/// The saved form of a daily-index table.
pub fn di_to_saves(table: &BpTable) -> (r: Vec<CommoditySave>)
    requires
        di_keys_fit(table@),
    ensures
        r@ == di_saves_of(table@),
{
    let mut out: Vec<CommoditySave> = Vec::new();
    let mut i: usize = 0;
    let n = table.len();
    while i < n
        invariant
            i <= n,
            n == table@.len(),
            di_keys_fit(table@),
            out@ == di_saves_of(table@.take(i as int)),
        decreases n - i,
    {
        let e = table.entry_at(i);
        assert(e.key <= u16::MAX);
        out.push(CommoditySave { commodity: CommodityId(e.key as u16), value: e.value });
        assert(table@.take(i + 1) == table@.take(i as int).push(table@[i as int]));
        assert(out@ =~= di_saves_of(table@.take(i + 1)));
        i = i + 1;
    }
    assert(table@.take(n as int) == table@);
    out
}

/// The saved form of a basis table.
pub fn basis_to_saves(table: &BpTable) -> (r: Vec<BasisSave>)
    ensures
        r@ == basis_saves_of(table@),
{
    let mut out: Vec<BasisSave> = Vec::new();
    let mut i: usize = 0;
    let n = table.len();
    while i < n
        invariant
            i <= n,
            n == table@.len(),
            out@ == basis_saves_of(table@.take(i as int)),
        decreases n - i,
    {
        let e = table.entry_at(i);
        out.push(
            BasisSave {
                hub: HubId((e.key / 65536) as u16),
                commodity: CommodityId((e.key % 65536) as u16),
                value: e.value,
            },
        );
        assert(table@.take(i + 1) == table@.take(i as int).push(table@[i as int]));
        assert(out@ =~= basis_saves_of(table@.take(i + 1)));
        i = i + 1;
    }
    assert(table@.take(n as int) == table@);
    out
}

/// The daily-index table of saved indices (a later entry for a commodity wins).
pub fn di_from_saves(saves: &Vec<CommoditySave>) -> (r: BpTable)
    ensures
        r.wf(),
        r@ == insert_all_sorted(Seq::empty(), di_entries_of(saves@)),
{
    let mut entries: Vec<BpEntry> = Vec::new();
    let mut i: usize = 0;
    while i < saves.len()
        invariant
            i <= saves@.len(),
            entries@ == di_entries_of(saves@.take(i as int)),
        decreases saves.len() - i,
    {
        let c = saves[i];
        entries.push(BpEntry { key: c.commodity.0 as u32, value: c.value });
        assert(saves@.take(i + 1) == saves@.take(i as int).push(saves@[i as int]));
        assert(entries@ =~= di_entries_of(saves@.take(i + 1)));
        i = i + 1;
    }
    assert(saves@.take(saves@.len() as int) == saves@);
    let mut table = BpTable::new();
    table.insert_all(&entries);
    table
}

/// The basis table of saved bases (a later entry for a hub and commodity wins).
pub fn basis_from_saves(saves: &Vec<BasisSave>) -> (r: BpTable)
    ensures
        r.wf(),
        r@ == insert_all_sorted(Seq::empty(), basis_entries_of(saves@)),
{
    let mut entries: Vec<BpEntry> = Vec::new();
    let mut i: usize = 0;
    while i < saves.len()
        invariant
            i <= saves@.len(),
            entries@ == basis_entries_of(saves@.take(i as int)),
        decreases saves.len() - i,
    {
        let b = saves[i];
        let key = (b.hub.0 as u32) * 65536 + b.commodity.0 as u32;
        entries.push(BpEntry { key, value: b.value });
        assert(saves@.take(i + 1) == saves@.take(i as int).push(saves@[i as int]));
        assert(entries@ =~= basis_entries_of(saves@.take(i + 1)));
        i = i + 1;
    }
    assert(saves@.take(saves@.len() as int) == saves@);
    let mut table = BpTable::new();
    table.insert_all(&entries);
    table
}

/// A copy of a list of plantings.
pub fn copy_plantings(v: &Vec<PendingPlanting>) -> (r: Vec<PendingPlanting>)
    ensures
        r@ == v@,
{
    let r = v.clone();
    assert(r@ =~= v@);
    r
}

/// A copy of an inventory.
pub fn copy_inventory(v: &Vec<InventorySlot>) -> (r: Vec<InventorySlot>)
    ensures
        r@ == v@,
{
    let r = v.clone();
    assert(r@ =~= v@);
    r
}

/// The units entries of a saved manifest.
pub open spec fn slot_entries_of(slots: Seq<CargoSlot>) -> Seq<UnitEntry> {
    slots.map_values(|s: CargoSlot| UnitEntry { commodity: s.commodity, units: s.units })
}

impl SaveV1_1 {
    /// Upgrades a version 1 save: the schema becomes 1.1, the wallet starts empty, there
    /// is no last hub, the cargo hold is empty and no clamp was hit.
    pub fn upgrade_from_v1(value: SaveV1) -> (r: Self)
        ensures
            r.schema == SaveSchema::v1_1_spec(),
            r.econ_version == value.econ_version,
            r.world_seed == value.world_seed,
            r.day == value.day,
            r.di@ == value.di@,
            r.di_overlay_bp == value.di_overlay_bp,
            r.basis@ == value.basis@,
            r.pp == value.pp,
            r.rot == value.rot,
            r.debt_cents == value.debt_cents,
            r.wallet_cents == MoneyCents(0),
            r.inventory@ == value.inventory@,
            r.pending_planting@ == value.pending_planting@,
            r.rng_cursors@ == value.rng_cursors@,
            r.last_hub.is_none(),
            r.cargo.capacity_total == 0 && r.cargo.capacity_used == 0 && r.cargo.mass_capacity_total
                == 0 && r.cargo.mass_capacity_used == 0 && r.cargo.manifest@.len() == 0,
            !r.last_clamp_hit,
    {
        SaveV1_1 {
            schema: SaveSchema::v1_1(),
            econ_version: value.econ_version,
            world_seed: value.world_seed,
            day: value.day,
            di: value.di,
            di_overlay_bp: value.di_overlay_bp,
            basis: value.basis,
            pp: value.pp,
            rot: value.rot,
            debt_cents: value.debt_cents,
            wallet_cents: MoneyCents(0),
            inventory: value.inventory,
            pending_planting: value.pending_planting,
            rng_cursors: value.rng_cursors,
            last_hub: None,
            cargo: CargoSave::default(),
            last_clamp_hit: false,
        }
    }

    /// Writes the saved economy into `econ`; the tables are rebuilt from the saved lists
    /// (a later entry for a key wins).
    pub fn hydrate_econ_state(&self, econ: &mut EconState)
        ensures
            final(econ).wf(),
            final(econ).day == self.day,
            final(econ).di_bp@ == insert_all_sorted(Seq::empty(), di_entries_of(self.di@)),
            final(econ).di_overlay_bp == self.di_overlay_bp,
            final(econ).basis_bp@ == insert_all_sorted(Seq::empty(), basis_entries_of(self.basis@)),
            final(econ).pp == self.pp,
            final(econ).rot_u16 == self.rot,
            final(econ).pending_planting@ == self.pending_planting@,
            final(econ).debt_cents == self.debt_cents,
            final(econ).last_clamp_hit == self.last_clamp_hit,
    {
        econ.day = self.day;
        econ.di_bp = di_from_saves(&self.di);
        proof {
            lemma_di_keys_after_insert(di_entries_of(self.di@));
        }
        econ.di_overlay_bp = self.di_overlay_bp;
        econ.basis_bp = basis_from_saves(&self.basis);
        econ.pp = self.pp;
        econ.rot_u16 = self.rot;
        econ.pending_planting = copy_plantings(&self.pending_planting);
        econ.debt_cents = self.debt_cents;
        econ.last_clamp_hit = self.last_clamp_hit;
    }

    /// Copies the economy into the save; the lists come out in key order.
    pub fn update_from_econ_state(&mut self, econ: &EconState)
        requires
            econ.wf(),
        ensures
            final(self).day == econ.day,
            final(self).di@ == di_saves_of(econ.di_bp@),
            final(self).di_overlay_bp == econ.di_overlay_bp,
            final(self).basis@ == basis_saves_of(econ.basis_bp@),
            final(self).pp == econ.pp,
            final(self).rot == econ.rot_u16,
            final(self).debt_cents == econ.debt_cents,
            final(self).pending_planting@ == econ.pending_planting@,
            final(self).last_clamp_hit == econ.last_clamp_hit,
            final(self).schema == old(self).schema,
            final(self).econ_version == old(self).econ_version,
            final(self).world_seed == old(self).world_seed,
            final(self).wallet_cents == old(self).wallet_cents,
            final(self).inventory@ == old(self).inventory@,
            final(self).rng_cursors@ == old(self).rng_cursors@,
            final(self).last_hub == old(self).last_hub,
            final(self).cargo == old(self).cargo,
    {
        self.day = econ.day;
        self.di = di_to_saves(&econ.di_bp);
        self.di_overlay_bp = econ.di_overlay_bp;
        self.basis = basis_to_saves(&econ.basis_bp);
        self.pp = econ.pp;
        self.rot = econ.rot_u16;
        self.debt_cents = econ.debt_cents;
        self.pending_planting = copy_plantings(&econ.pending_planting);
        self.last_clamp_hit = econ.last_clamp_hit;
    }

    /// Empties `cargo` and fills it from the saved hold (a later slot for a commodity wins).
    pub fn hydrate_cargo(&self, cargo: &mut CargoHold)
        ensures
            final(cargo).wf(),
            final(cargo).capacity_total == self.cargo.capacity_total,
            final(cargo).capacity_used == self.cargo.capacity_used,
            final(cargo).mass_capacity_total == self.cargo.mass_capacity_total,
            final(cargo).mass_capacity_used == self.cargo.mass_capacity_used,
            final(cargo).units@ == units_insert_all(Seq::empty(), slot_entries_of(self.cargo.manifest@)),
    {
        cargo.clear();
        cargo.capacity_total = self.cargo.capacity_total;
        cargo.capacity_used = self.cargo.capacity_used;
        cargo.mass_capacity_total = self.cargo.mass_capacity_total;
        cargo.mass_capacity_used = self.cargo.mass_capacity_used;
        let ghost start = cargo.units@;
        let mut i: usize = 0;
        while i < self.cargo.manifest.len()
            invariant
                i <= self.cargo.manifest@.len(),
                cargo.wf(),
                cargo.capacity_total == self.cargo.capacity_total,
                cargo.capacity_used == self.cargo.capacity_used,
                cargo.mass_capacity_total == self.cargo.mass_capacity_total,
                cargo.mass_capacity_used == self.cargo.mass_capacity_used,
                cargo.units@ == units_insert_all(
                    Seq::empty(),
                    slot_entries_of(self.cargo.manifest@.take(i as int)),
                ),
            decreases self.cargo.manifest.len() - i,
        {
            let slot = self.cargo.manifest[i];
            assert(slot_entries_of(self.cargo.manifest@.take(i + 1)).drop_last() =~= slot_entries_of(
                self.cargo.manifest@.take(i as int),
            ));
            cargo.set_units(slot.commodity, slot.units);
            i = i + 1;
        }
        assert(self.cargo.manifest@.take(self.cargo.manifest@.len() as int) == self.cargo.manifest@);
    }

    /// Copies the hold into the save; the manifest comes out in commodity order.
    pub fn update_from_cargo(&mut self, cargo: &CargoHold)
        ensures
            final(self).cargo.capacity_total == cargo.capacity_total,
            final(self).cargo.capacity_used == cargo.capacity_used,
            final(self).cargo.mass_capacity_total == cargo.mass_capacity_total,
            final(self).cargo.mass_capacity_used == cargo.mass_capacity_used,
            slot_entries_of(final(self).cargo.manifest@) == cargo.units@,
            *final(self) == (SaveV1_1 { cargo: final(self).cargo, ..*old(self) }),
    {
        self.cargo.capacity_total = cargo.capacity_total;
        self.cargo.capacity_used = cargo.capacity_used;
        self.cargo.mass_capacity_total = cargo.mass_capacity_total;
        self.cargo.mass_capacity_used = cargo.mass_capacity_used;
        let snapshot = cargo.manifest_snapshot();
        let mut manifest: Vec<CargoSlot> = Vec::new();
        let mut i: usize = 0;
        while i < snapshot.len()
            invariant
                i <= snapshot@.len(),
                slot_entries_of(manifest@) == snapshot@.take(i as int),
            decreases snapshot.len() - i,
        {
            let e = snapshot[i];
            let ghost before = manifest@;
            manifest.push(CargoSlot { commodity: e.commodity, units: e.units });
            assert(slot_entries_of(manifest@) =~= slot_entries_of(before).push(
                UnitEntry { commodity: e.commodity, units: e.units },
            ));
            assert(snapshot@.take(i + 1) =~= snapshot@.take(i as int).push(snapshot@[i as int]));
            i = i + 1;
        }
        assert(snapshot@.take(snapshot@.len() as int) == snapshot@);
        self.cargo.manifest = manifest;
    }

    /// The wallet balance.
    pub fn wallet_balance(&self) -> (r: MoneyCents)
        ensures
            r == self.wallet_cents,
    {
        self.wallet_cents
    }

    /// Sets the wallet balance.
    pub fn set_wallet_balance(&mut self, balance: MoneyCents)
        ensures
            *final(self) == (SaveV1_1 { wallet_cents: balance, ..*old(self) }),
    {
        self.wallet_cents = balance;
    }

    /// Sets the last hub visited.
    pub fn set_last_hub(&mut self, hub: Option<HubId>)
        ensures
            *final(self) == (SaveV1_1 { last_hub: hub, ..*old(self) }),
    {
        self.last_hub = hub;
    }
}

impl SaveSchema {
    /// The header of a version 1.1 save.
    pub open spec fn v1_1_spec() -> SaveSchema {
        SaveSchema { version: SchemaVersion { major: 1, minor: 1 } }
    }
}

impl Default for SaveV1_1 {
    fn default() -> (r: Self)
        ensures
            r.schema == SaveSchema::v1_1_spec(),
            r.econ_version == 0 && r.world_seed == 0 && r.day == EconomyDay(0),
            r.di@.len() == 0 && r.basis@.len() == 0 && r.inventory@.len() == 0,
            r.di_overlay_bp == 0 && r.pp == Pp(0) && r.rot == 0,
            r.debt_cents == MoneyCents(0) && r.wallet_cents == MoneyCents(0),
            r.pending_planting@.len() == 0 && r.rng_cursors@.len() == 0,
            r.last_hub.is_none() && !r.last_clamp_hit,
            r.cargo.manifest@.len() == 0 && r.cargo.capacity_total == 0,
    {
        SaveV1_1 {
            schema: SaveSchema::v1_1(),
            econ_version: 0,
            world_seed: 0,
            day: EconomyDay(0),
            di: Vec::new(),
            di_overlay_bp: 0,
            basis: Vec::new(),
            pp: Pp(0),
            rot: 0,
            debt_cents: MoneyCents(0),
            wallet_cents: MoneyCents(0),
            inventory: Vec::new(),
            pending_planting: Vec::new(),
            rng_cursors: Vec::new(),
            last_hub: None,
            cargo: CargoSave::default(),
            last_clamp_hit: false,
        }
    }
}

/// Rebuilding a table from entries whose keys are all commodity ids keeps them so.
pub proof fn lemma_di_keys_after_insert(entries: Seq<BpEntry>)
    requires
        forall|i: int| 0 <= i < entries.len() ==> #[trigger] entries[i].key <= u16::MAX,
    ensures
        di_keys_fit(insert_all_sorted(Seq::empty(), entries)),
    decreases entries.len(),
{
    if entries.len() > 0 {
        let init = entries.drop_last();
        lemma_di_keys_after_insert(init);
        lemma_keys_fit_insert(insert_all_sorted(Seq::empty(), init), entries.last().key, entries.last().value);
    }
}

proof fn lemma_keys_fit_insert(s: Seq<BpEntry>, k: u32, v: BasisBp)
    requires
        di_keys_fit(s),
        k <= u16::MAX,
    ensures
        di_keys_fit(crate::economy::table::insert_sorted(s, k, v)),
    decreases s.len(),
{
    if s.len() > 0 && s[0].key != k && !(s[0].key > k) {
        let t = s.drop_first();
        assert(di_keys_fit(t)) by {
            assert forall|i: int| 0 <= i < t.len() implies #[trigger] t[i].key <= u16::MAX by {
                assert(t[i] == s[i + 1]);
            }
        }
        lemma_keys_fit_insert(t, k, v);
        let r = crate::economy::table::insert_sorted(s, k, v);
        assert forall|i: int| 0 <= i < r.len() implies #[trigger] r[i].key <= u16::MAX by {
            if i > 0 {
                assert(r[i] == crate::economy::table::insert_sorted(t, k, v)[i - 1]);
            }
        }
    } else if s.len() > 0 && s[0].key == k {
        let r = crate::economy::table::insert_sorted(s, k, v);
        assert forall|i: int| 0 <= i < r.len() implies #[trigger] r[i].key <= u16::MAX by {
            if i > 0 {
                assert(r[i] == s[i]);
            }
        }
    } else if s.len() > 0 {
        let r = crate::economy::table::insert_sorted(s, k, v);
        assert forall|i: int| 0 <= i < r.len() implies #[trigger] r[i].key <= u16::MAX by {
            if i > 0 {
                assert(r[i] == s[i - 1]);
            }
        }
    }
}

/// Saving an economy into a v1.1 save and hydrating it back gives the same index and
/// basis tables: what `update_from_econ_state` writes, `hydrate_econ_state` reads back.
pub proof fn lemma_econ_save_round_trip(econ: EconState)
    requires
        econ.wf(),
    ensures
        insert_all_sorted(Seq::empty(), di_entries_of(di_saves_of(econ.di_bp@))) == econ.di_bp@,
        insert_all_sorted(Seq::empty(), basis_entries_of(basis_saves_of(econ.basis_bp@)))
            == econ.basis_bp@,
{
    let di = econ.di_bp@;
    econ.di_bp.lemma_wf();
    assert(di_entries_of(di_saves_of(di)) =~= di);
    lemma_rebuild_sorted(di);
    let basis = econ.basis_bp@;
    econ.basis_bp.lemma_wf();
    assert forall|i: int| 0 <= i < basis.len() implies #[trigger] basis_entries_of(basis_saves_of(basis))[i]
        == basis[i] by {
        let k = basis[i].key;
        assert(k / 65536 < 65536);
        assert((k / 65536) * 65536 + k % 65536 == k);
    }
    assert(basis_entries_of(basis_saves_of(basis)) =~= basis);
    lemma_rebuild_sorted(basis);
}

} // verus!
