use detterot::cargo::CargoHold;
use detterot::cli::WeatherArg;
use detterot::director::econ_intent::EconIntent;
use detterot::director::spawn::SpawnBudget;
use detterot::director::config::SpawnCfg;
use detterot::director::state::{cleanup_step, director_tick, DirectorInputs, DirectorRequests, DirectorState, LegProgress, LegStatus, Outcome};
use detterot::command_queue::{Command, CommandQueue};
use detterot::economy::log::log_econ_tick;
use detterot::economy::money::MoneyCents;
use detterot::economy::pricing::compute_price;
use detterot::economy::state::{CommodityDelta, EconDelta};
use detterot::economy::types::{BasisBp, CommodityId, EconomyDay, HubId, Pp, RouteId, Weather};
use detterot::gameplay::{get_drift_offset_mm, get_los_distance_m, try_drift_offset_mm};
use detterot::logs::m2::{log_post_leg_summary, log_replay_mismatch, log_spawn_budget, set_enabled, write_replay_mismatch, LogSwitch};
use detterot::logs::world::{log_weather_state, WeatherLogData, WorldLogSwitch};
use detterot::runtime::{apply_case, case_for_path, GoldenCase, LegParameters};
use detterot::save::app_save::AppSaveState;
use detterot::save::v1_1::SaveV1_1;
use detterot::scheduling::{fixed_update_order, FixedStage};
use detterot::sim::{hub_rows, pick_value, seed_states};
use detterot::weather::{WeatherConfig, WeatherEffects};

fn config() -> WeatherConfig {
    WeatherConfig {
        clear: WeatherEffects { los_m: 400, drift_mm: 0, agg_pct: 0 },
        rains: WeatherEffects { los_m: 250, drift_mm: 40, agg_pct: 5 },
        fog: WeatherEffects { los_m: 120, drift_mm: 0, agg_pct: 8 },
        windy: WeatherEffects { los_m: 300, drift_mm: 80, agg_pct: 0 },
    }
}

#[test]
fn drift_stability() {
    let config = config();
    let tick = 100;
    let offset1 = get_drift_offset_mm(Weather::Windy, &config, tick, None);
    let offset2 = get_drift_offset_mm(Weather::Windy, &config, tick, None);
    assert_eq!(offset1, offset2, "Drift should be deterministic for same inputs");
    let offset3 = get_drift_offset_mm(Weather::Windy, &config, tick + 1, None);
    let offset4 = get_drift_offset_mm(Weather::Windy, &config, tick + 1, None);
    assert_eq!(offset3, offset4, "Same tick should produce same offset");
}

#[test]
fn drift_zero_for_clear_weather() {
    let config = config();
    assert_eq!(get_drift_offset_mm(Weather::Clear, &config, 100, None), 0, "Clear weather should have zero drift");
    assert_eq!(get_drift_offset_mm(Weather::Fog, &config, 100, None), 0, "Fog drift should be 0 per config");
    for tick in 0..200 {
        let rains = get_drift_offset_mm(Weather::Rains, &config, tick, Some(3));
        assert!((-40..=40).contains(&rains));
        let windy = get_drift_offset_mm(Weather::Windy, &config, tick, None);
        assert!((-80..=80).contains(&windy));
    }
}

#[test]
fn los_bounds() {
    let config = config();
    let clear_los = get_los_distance_m(Weather::Clear, &config, None);
    assert!(get_los_distance_m(Weather::Fog, &config, None) <= clear_los, "Fog should not increase LOS distance");
    assert!(clear_los > 0);
    assert!(get_los_distance_m(Weather::Rains, &config, None) <= clear_los);
    assert!(get_los_distance_m(Weather::Windy, &config, None) <= clear_los);
    assert_eq!(config.get_agg_pct(Weather::Fog), 8);
}

#[test]
fn weather_arg_converts() {
    assert_eq!(Weather::from(WeatherArg::Clear), Weather::Clear);
    assert_eq!(Weather::from(WeatherArg::Rains), Weather::Rains);
    assert_eq!(Weather::from(WeatherArg::Fog), Weather::Fog);
    assert_eq!(Weather::from(WeatherArg::Windy), Weather::Windy);
}

#[test]
fn logs_follow_their_switch() {
    let mut switch = LogSwitch { enabled: false };
    let budget = SpawnBudget::new(3, 0);
    assert!(log_spawn_budget(&switch, 1, 2, 3, "Fog", &budget).is_none());
    set_enabled(&mut switch, true);
    let entry = log_spawn_budget(&switch, 1, 2, 3, "Fog", &budget).expect("entry");
    assert_eq!((entry.tick, entry.link_id, entry.pp, entry.weather.as_str()), (1, 2, 3, "Fog"));
    let summary = log_post_leg_summary(&switch, -5, 1, 2, 3, 4).expect("summary");
    assert_eq!(summary.danger_delta, -5);
    let world = WorldLogSwitch { enabled: false };
    let data = WeatherLogData { route_id: 1, weather: "Fog".to_string(), los_m: 1, drift_mm: 0, aggression_pct: 8, timestamp: 0 };
    assert!(!log_weather_state(&world, &data));
}

#[test]
fn econ_tick_records_price_each_index() {
    let delta = EconDelta {
        day: EconomyDay(4),
        hub: HubId(2),
        di: vec![
            CommodityDelta { commodity: CommodityId(1), value: BasisBp(100) },
            CommodityDelta { commodity: CommodityId(2), value: BasisBp(-50) },
        ],
        basis: vec![
            CommodityDelta { commodity: CommodityId(1), value: BasisBp(10) },
            CommodityDelta { commodity: CommodityId(1), value: BasisBp(30) },
        ],
        pp_before: Pp(10),
        pp_after: Pp(12),
        rot_before: 0,
        rot_after: 0,
        debt_before: MoneyCents(0),
        interest_delta: MoneyCents(0),
        debt_after: MoneyCents(0),
        clamps_hit: Vec::new(),
        rng_cursors: Vec::new(),
    };
    let records = log_econ_tick(&delta);
    assert_eq!(records.len(), 2);
    assert_eq!(records[0].basis_bp, 30);
    assert_eq!(records[0].price_cents, compute_price(MoneyCents(10_000), BasisBp(100), BasisBp(30)).0);
    assert_eq!(records[0].price_cents, 10_130);
    assert_eq!(records[1].basis_bp, 0);
    assert_eq!(records[1].price_cents, 9_950);
    assert_eq!(records[1].pp, 12);
}

#[test]
fn cleanup_completes_finished_legs() {
    let mut state = DirectorState::default();
    state.prior_danger_score = 100;
    let mut progress = LegProgress {
        missions_ready: true,
        missions_total: 2,
        missions_resolved: 2,
        any_failure: true,
        current_danger_score: 130,
        has_prior_danger: false,
        spawns_emitted: true,
        needs_budget_refresh: false,
        spawn_budget: Some(SpawnBudget::new(4, 0)),
        prior_enemies: Some(4),
        last_link_id: Some(RouteId(1)),
        spawn_seed: 0,
    };
    let mut econ = EconIntent { pending_pp_delta: 3, pending_basis_overlay_bp: -2 };
    assert!(cleanup_step(&mut state, &mut progress, &mut econ, true).is_none());
    assert_eq!(state.leg_tick, 0);
    let summary = cleanup_step(&mut state, &mut progress, &mut econ, false).expect("summary");
    assert_eq!(summary.danger_delta, 30);
    assert_eq!((summary.applied_pp_delta, summary.applied_basis_overlay), (3, -2));
    assert_eq!(state.status, LegStatus::Completed(Outcome::Failure));
    assert_eq!(state.prior_danger_score, 130);
    assert_eq!(state.leg_tick, 1);
    assert_eq!(econ, EconIntent::default());
    assert!(progress.has_prior_danger && progress.spawn_budget.is_none());
    assert!(cleanup_step(&mut state, &mut progress, &mut econ, false).is_none());
    assert_eq!(state.leg_tick, 2);
    assert_eq!(DirectorInputs::default().pp, Pp(5000));
}

fn params() -> LegParameters {
    LegParameters {
        world_seed: "1".to_string(),
        link_label: "L1".to_string(),
        rng_salt: "s".to_string(),
        rulepack: "day".to_string(),
        weather: Weather::Clear,
        pp: Pp(5),
        prior_enemies: Some(4),
        prior_danger_score: Some(9),
        mission_minutes: 8,
        density_per_10k: 5,
        cadence_per_min: 3,
        player_rating: 50,
        mission_sequence: vec![],
    }
}

fn case(file: &str, weather: Option<&str>) -> GoldenCase {
    GoldenCase {
        file: file.to_string(),
        world_seed: Some("42".to_string()),
        link_id: None,
        weather: weather.map(|w| w.to_string()),
        rng_salt: None,
        rulepack: None,
        pp: Some(77),
        prior_enemies: None,
        prior_danger_score: Some(1),
        mission_minutes: None,
        density_per_10k: Some(9),
        cadence_per_min: None,
        player_rating: None,
        mission_sequence: Some(vec!["rain_flag".to_string()]),
        max_ticks: None,
    }
}

#[test]
fn golden_cases_override_parameters() {
    let mut p = params();
    apply_case(&mut p, &case("a.ron", Some("Fog"))).expect("applies");
    assert_eq!(p.world_seed, "42");
    assert_eq!(p.link_label, "L1");
    assert_eq!(p.weather, Weather::Fog);
    assert_eq!(p.pp, Pp(77));
    assert_eq!(p.prior_enemies, None);
    assert_eq!(p.prior_danger_score, Some(1));
    assert_eq!(p.density_per_10k, 9);
    assert_eq!(p.mission_sequence, vec!["rain_flag".to_string()]);

    let mut q = params();
    let err = apply_case(&mut q, &case("b.ron", Some("Hail"))).expect_err("unknown weather");
    assert_eq!(err.label, "Hail");
    assert_eq!(q.world_seed, "42");
    assert_eq!(q.pp, Pp(5));

    let cases = vec![case("a.ron", None), case("b.ron", None)];
    assert_eq!(case_for_path(&cases, "b.ron"), Some(1));
    assert_eq!(case_for_path(&cases, "c.ron"), None);
}

#[test]
fn sim_seeds_and_rows() {
    assert_eq!(pick_value(1, &[10u16, 20], 5), 20);
    assert_eq!(pick_value(2, &[10u16, 20], 5), 5);
    let states = seed_states(3, &[1500, 9000], &[0, 50_000_000], 5000);
    assert_eq!(states.len(), 3);
    assert_eq!(states[2].pp, Pp(5000));
    assert_eq!(states[1].debt_cents, MoneyCents(50_000_000));
    assert_eq!(states[0].di_bp.len(), 2);
    let rows = hub_rows(0, HubId(1), &states[0], MoneyCents(7));
    assert_eq!(rows.len(), 2);
    assert_eq!((rows[0].com, rows[1].com), (1, 2));
    assert_eq!(rows[0].price_cents, 10_000);
    assert_eq!(rows[0].interest_cents, 7);
}

#[test]
fn trading_view_exit_persists_hold() {
    let mut save_state = AppSaveState::from_snapshot(SaveV1_1::default());
    let mut hold = CargoHold::new();
    let (wallet, hub) = save_state.hydrate_hub_resources(&mut hold, Some(true));
    assert_eq!((wallet, hub), (MoneyCents(0), None));
    hold.capacity_total = 40;
    hold.set_units(CommodityId(3), 5);
    save_state.persist_hub_resources(Some(true), Some(&hold), Some(MoneyCents(9)), Some(HubId(2)));
    assert_eq!(save_state.snapshot().wallet_cents, MoneyCents(0));
    save_state.persist_hub_resources(Some(false), Some(&hold), Some(MoneyCents(9)), Some(HubId(2)));
    assert_eq!(save_state.snapshot().wallet_cents, MoneyCents(9));
    assert_eq!(save_state.snapshot().last_hub, Some(HubId(2)));
    assert_eq!(save_state.snapshot().cargo.capacity_total, 40);
    assert_eq!(save_state.snapshot().cargo.manifest.len(), 1);
}

#[test]
fn fixed_update_runs_stages_in_order() {
    assert_eq!(
        fixed_update_order(),
        vec![FixedStage::Director, FixedStage::Missions, FixedStage::Spawns, FixedStage::PhysicsStep, FixedStage::Cleanup]
    );
}

#[test]
fn director_tick_prepares_and_refreshes() {
    let mut state = DirectorState::default();
    let mut progress = LegProgress {
        missions_ready: false,
        missions_total: 0,
        missions_resolved: 0,
        any_failure: false,
        current_danger_score: 0,
        has_prior_danger: true,
        spawns_emitted: false,
        needs_budget_refresh: true,
        spawn_budget: None,
        prior_enemies: Some(9),
        last_link_id: Some(RouteId(1)),
        spawn_seed: 0,
    };
    let inputs = DirectorInputs { link_id: RouteId(4), ..DirectorInputs::default() };
    let mut requests = DirectorRequests { queue_new_leg: true };
    let cfg = SpawnCfg { base: 3, alpha_pp_per_100: 0, beta_weather: Vec::new(), growth_cap_per_leg: 2, clamp_min: 1, clamp_max: 10 };
    let mut queue = CommandQueue::new();
    director_tick(&mut state, &mut progress, &inputs, &mut requests, false, None, 2, 77, &mut queue);
    assert!(requests.queue_new_leg);
    director_tick(&mut state, &mut progress, &inputs, &mut requests, false, Some(&cfg), 2, 77, &mut queue);
    assert!(!requests.queue_new_leg);
    assert_eq!(state.status, LegStatus::Running);
    assert_eq!(state.link_id, RouteId(4));
    assert_eq!(state.rng_salt, 77);
    assert_eq!(progress.missions_total, 2);
    // The link changed, so the prior budget was forgotten: 3 enemies.
    assert_eq!(progress.spawn_budget, Some(SpawnBudget::new(3, 0)));
    // 1000*3 + 400*5 + 300*3 + 50*12 = 6500
    assert_eq!(progress.current_danger_score, 6500);
    assert_eq!(queue.buf.len(), 2);
    assert!(queue.buf[0].same_as(&Command::meter("danger_score", 6500)));
    assert!(queue.buf[1].same_as(&Command::meter("danger_diff", 1)));
}

#[test]
fn replay_mismatch_entry_carries_both_commands() {
    let off = LogSwitch { enabled: false };
    let recorded = Command::meter("danger_score", 4);
    assert!(log_replay_mismatch(&off, 9, Some(&recorded), None).is_none());
    let on = LogSwitch { enabled: true };
    let entry = log_replay_mismatch(&on, 9, Some(&recorded), None).expect("logging is on");
    assert_eq!(entry.tick, 9);
    assert!(entry.expected.as_ref().map(|c| c.same_as(&recorded)).unwrap_or(false));
    assert!(entry.got.is_none());
    assert!(write_replay_mismatch(entry).is_ok());
}

#[test]
fn checked_drift_agrees_and_refuses_huge_drift() {
    let cfg = config();
    for tick in 0..20u64 {
        assert_eq!(try_drift_offset_mm(Weather::Windy, &cfg, tick, None), Some(get_drift_offset_mm(Weather::Windy, &cfg, tick, None)));
    }
    let mut huge = config();
    huge.windy.drift_mm = 0x8000_0000;
    assert_eq!(try_drift_offset_mm(Weather::Windy, &huge, 7, None), None);
    let mut large = config();
    large.windy.drift_mm = 0x4000_0000;
    if let Some(v) = try_drift_offset_mm(Weather::Windy, &large, 7, None) {
        assert!(v >= -0x4000_0000 && v <= 0x4000_0000);
    }
}
