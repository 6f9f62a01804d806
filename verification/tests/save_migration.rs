use detterot::cargo::{Cargo, CargoHold, UnitTable};
use detterot::economy::money::MoneyCents;
use detterot::economy::planting::PendingPlanting;
use detterot::economy::state::{EconState, RngCursor};
use detterot::economy::table::BpTable;
use detterot::economy::types::{BasisBp, CommodityId, EconomyDay, HubId, Pp, RouteId};
use detterot::save::snapshot::{app_state_from_snapshot, cargo_from_save, cargo_to_save, snapshot_from_app_state, AppState};
use detterot::save::v1_1::{BasisSave, CargoSlot, CommoditySave, InventorySlot, SaveSchema, SaveV1_1, SchemaVersion};
use detterot::save::v1_2::{check_schema_version, detect_layout, migrate_v11_to_v12, CargoItemSave, CargoSave, MigrateError, SaveLayout, SaveV11};
use detterot::save::SaveV1;
use detterot::save::normalize::{normalize_v11, normalize_v1_1};

#[test]
fn migrate_v11_to_v12_preserves_data() {
    let v11 = SaveV11 {
        econ_version: 1,
        world_seed: 12345,
        day: EconomyDay(100),
        last_hub: HubId(5),
        di: vec![],
        di_overlay_bp: 50,
        basis: vec![],
        pp: Pp(1000),
        rot: 500,
        debt_cents: MoneyCents(10000),
        inventory: vec![],
        wallet_cents: MoneyCents(5000),
        cargo: CargoSave { capacity_mass_kg: 1000, capacity_volume_l: 500, items: vec![] },
        pending_planting: vec![],
        rng_cursors: vec![],
    };

    let v12 = migrate_v11_to_v12(v11.clone());

    assert_eq!(v12.econ_version, v11.econ_version);
    assert_eq!(v12.world_seed, v11.world_seed);
    assert_eq!(v12.day, v11.day);
    assert_eq!(v12.last_hub, v11.last_hub);
    assert_eq!(v12.di_overlay_bp, v11.di_overlay_bp);
    assert_eq!(v12.pp, v11.pp);
    assert_eq!(v12.rot, v11.rot);
    assert_eq!(v12.debt_cents, v11.debt_cents);
    assert_eq!(v12.wallet_cents, v11.wallet_cents);

    assert_eq!(v12.last_board_hash, 0);
    assert_eq!(v12.visited_links, Vec::<RouteId>::new());
}

fn legacy() -> SaveV1 {
    SaveV1 {
        econ_version: 3,
        world_seed: 99,
        day: EconomyDay(12),
        di: vec![],
        di_overlay_bp: 0,
        basis: vec![],
        pp: Pp(0),
        rot: 0,
        debt_cents: MoneyCents(0),
        inventory: vec![],
        pending_planting: vec![],
        rng_cursors: vec![],
    }
}

#[test]
fn legacy_payloads_upgrade_with_defaults() {
    let snapshot = SaveV1_1::upgrade_from_v1(legacy());
    assert_eq!(snapshot.schema.version, SchemaVersion::v1_1());
    assert_eq!(snapshot.schema, SaveSchema::v1_1());
    assert_eq!(snapshot.world_seed, 99);
    assert_eq!(snapshot.day.0, 12);
    assert!(snapshot.last_hub.is_none());
    assert_eq!(snapshot.cargo.capacity_total, 0);
    assert_eq!(snapshot.cargo.capacity_used, 0);
    assert!(snapshot.cargo.manifest.is_empty());
    assert_eq!(snapshot.wallet_balance(), MoneyCents(0));
    assert!(snapshot.di.is_empty());
}

#[test]
fn layout_detection_follows_fields() {
    assert_eq!(detect_layout(true, true, true, true), SaveLayout::V12);
    assert_eq!(detect_layout(true, false, true, false), SaveLayout::V11);
    assert_eq!(detect_layout(false, false, false, true), SaveLayout::V11);
    assert_eq!(detect_layout(false, false, false, false), SaveLayout::V1);
}

fn sample_state() -> AppState {
    let mut state = AppState::default();
    state.world_seed = 77;
    state.last_hub = HubId(4);
    state.wallet = MoneyCents(1234);
    state.econ.day = EconomyDay(9);
    state.econ.di_bp.insert(2, BasisBp(-40));
    state.econ.di_bp.insert(1, BasisBp(15));
    state.econ.basis_bp.insert(3 * 65536 + 2, BasisBp(25));
    state.econ.basis_bp.insert(1 * 65536 + 7, BasisBp(-5));
    state.econ.pp = Pp(4800);
    state.econ.rot_u16 = 33;
    state.econ.debt_cents = MoneyCents(500);
    state.econ.pending_planting.push(PendingPlanting { hub: HubId(1), size: 5, age_days: 2 });
    state.inventory.push(InventorySlot { commodity: CommodityId(2), amount: 8 });
    state.cargo.capacity_mass_kg = 900;
    state.cargo.capacity_volume_l = 300;
    state.cargo.items.set_units(CommodityId(5), 2);
    state.cargo.items.set_units(CommodityId(1), 6);
    state.rng_cursors.push(RngCursor::new("di", 12));
    state
}

#[test]
fn snapshot_round_trip_restores_state() {
    let state = sample_state();
    let snapshot = snapshot_from_app_state(&state);
    assert_eq!(snapshot.di, vec![
        CommoditySave { commodity: CommodityId(1), value: BasisBp(15) },
        CommoditySave { commodity: CommodityId(2), value: BasisBp(-40) },
    ]);
    assert_eq!(snapshot.basis, vec![
        BasisSave { hub: HubId(1), commodity: CommodityId(7), value: BasisBp(-5) },
        BasisSave { hub: HubId(3), commodity: CommodityId(2), value: BasisBp(25) },
    ]);
    assert_eq!(snapshot.cargo.items, vec![
        CargoItemSave { commodity: CommodityId(1), units: 6 },
        CargoItemSave { commodity: CommodityId(5), units: 2 },
    ]);
    let restored = app_state_from_snapshot(snapshot);
    assert!(restored.same_as(&state));
    let mut other = sample_state();
    other.econ.rot_u16 = 34;
    assert!(!other.same_as(&state));
}

#[test]
fn cargo_round_trip_keeps_last_duplicate() {
    let save = CargoSave {
        capacity_mass_kg: 10,
        capacity_volume_l: 20,
        items: vec![
            CargoItemSave { commodity: CommodityId(3), units: 1 },
            CargoItemSave { commodity: CommodityId(3), units: 4 },
        ],
    };
    let cargo: Cargo = cargo_from_save(save);
    assert_eq!(cargo.items.get(CommodityId(3)), Some(4));
    let back = cargo_to_save(&cargo);
    assert_eq!(back.items, vec![CargoItemSave { commodity: CommodityId(3), units: 4 }]);
}

#[test]
fn econ_state_hydrates_and_updates() {
    let mut save = SaveV1_1::default();
    save.day = EconomyDay(4);
    save.di = vec![
        CommoditySave { commodity: CommodityId(2), value: BasisBp(5) },
        CommoditySave { commodity: CommodityId(1), value: BasisBp(6) },
    ];
    save.basis = vec![BasisSave { hub: HubId(2), commodity: CommodityId(1), value: BasisBp(-9) }];
    save.last_clamp_hit = true;
    let mut econ = EconState::default();
    save.hydrate_econ_state(&mut econ);
    assert_eq!(econ.day, EconomyDay(4));
    assert_eq!(econ.di_bp.get(1), Some(BasisBp(6)));
    assert_eq!(econ.basis_bp.get(2 * 65536 + 1), Some(BasisBp(-9)));
    assert!(econ.last_clamp_hit);
    let mut out = SaveV1_1::default();
    out.update_from_econ_state(&econ);
    assert_eq!(out.di, vec![
        CommoditySave { commodity: CommodityId(1), value: BasisBp(6) },
        CommoditySave { commodity: CommodityId(2), value: BasisBp(5) },
    ]);
    assert_eq!(out.basis, save.basis);
    out.set_wallet_balance(MoneyCents(77));
    out.set_last_hub(Some(HubId(3)));
    assert_eq!(out.wallet_balance(), MoneyCents(77));
    assert_eq!(out.last_hub, Some(HubId(3)));
}

#[test]
fn cargo_hold_hydrates_and_updates() {
    let mut save = SaveV1_1::default();
    save.cargo.capacity_total = 50;
    save.cargo.capacity_used = 12;
    save.cargo.manifest = vec![CargoSlot { commodity: CommodityId(9), units: 3 }, CargoSlot { commodity: CommodityId(2), units: 9 }];
    let mut hold = CargoHold::new();
    hold.set_units(CommodityId(4), 1);
    save.hydrate_cargo(&mut hold);
    assert_eq!(hold.capacity_total, 50);
    assert_eq!(hold.units.get(CommodityId(4)), None);
    let mut out = SaveV1_1::default();
    out.update_from_cargo(&hold);
    assert_eq!(out.cargo.manifest, vec![CargoSlot { commodity: CommodityId(2), units: 9 }, CargoSlot { commodity: CommodityId(9), units: 3 }]);
    let _ = UnitTable::new();
    let _ = BpTable::new();
}

#[test]
fn normalizing_sorts_lists_stably() {
    let mut v11 = SaveV11 {
        econ_version: 1,
        world_seed: 1,
        day: EconomyDay(0),
        last_hub: HubId(0),
        di: vec![
            CommoditySave { commodity: CommodityId(3), value: BasisBp(1) },
            CommoditySave { commodity: CommodityId(1), value: BasisBp(2) },
            CommoditySave { commodity: CommodityId(3), value: BasisBp(3) },
        ],
        di_overlay_bp: 0,
        basis: vec![
            BasisSave { hub: HubId(2), commodity: CommodityId(1), value: BasisBp(0) },
            BasisSave { hub: HubId(1), commodity: CommodityId(9), value: BasisBp(0) },
        ],
        pp: Pp(0),
        rot: 0,
        debt_cents: MoneyCents(0),
        inventory: vec![InventorySlot { commodity: CommodityId(5), amount: 1 }, InventorySlot { commodity: CommodityId(4), amount: 2 }],
        wallet_cents: MoneyCents(0),
        cargo: CargoSave { capacity_mass_kg: 0, capacity_volume_l: 0, items: vec![CargoItemSave { commodity: CommodityId(8), units: 1 }, CargoItemSave { commodity: CommodityId(2), units: 1 }] },
        pending_planting: vec![],
        rng_cursors: vec![],
    };
    v11 = normalize_v11(v11);
    assert_eq!(v11.di, vec![
        CommoditySave { commodity: CommodityId(1), value: BasisBp(2) },
        CommoditySave { commodity: CommodityId(3), value: BasisBp(1) },
        CommoditySave { commodity: CommodityId(3), value: BasisBp(3) },
    ]);
    assert_eq!(v11.basis[0].hub, HubId(1));
    assert_eq!(v11.inventory[0].commodity, CommodityId(4));
    assert_eq!(v11.cargo.items[0].commodity, CommodityId(2));

    let mut v1_1 = SaveV1_1::default();
    v1_1.schema.version.minor = 7;
    v1_1.cargo.manifest = vec![CargoSlot { commodity: CommodityId(6), units: 1 }, CargoSlot { commodity: CommodityId(1), units: 1 }];
    let v1_1 = normalize_v1_1(v1_1);
    assert_eq!(v1_1.schema, SaveSchema::v1_1());
    assert_eq!(v1_1.cargo.manifest[0].commodity, CommodityId(1));
}

#[test]
fn rejects_unknown_schema_versions() {
    // The payload names schema 2.0 and otherwise has the version-1 layout.
    assert_eq!(detect_layout(false, false, false, false), SaveLayout::V1);
    let err = check_schema_version(Some(SchemaVersion { major: 2, minor: 0 })).expect_err("unsupported version fails");
    match err {
        MigrateError::UnsupportedVersion { major, minor } => {
            assert_eq!((major, minor), (2, 0));
        }
    }
}

#[test]
fn schema_one_and_unversioned_saves_are_accepted() {
    assert!(check_schema_version(None).is_ok());
    assert!(check_schema_version(Some(SchemaVersion::v1_1())).is_ok());
    assert!(check_schema_version(Some(SchemaVersion { major: 1, minor: 7 })).is_ok());
    assert_eq!(
        check_schema_version(Some(SchemaVersion { major: 0, minor: 9 })),
        Err(MigrateError::UnsupportedVersion { major: 0, minor: 9 })
    );
}
