use detterot::director::config::SpawnCfg;
use detterot::director::rng::{hash_mission_name, mission_seed, spawn_subseed, DetRng};
use detterot::director::spawn::{
    choose_spawn_type, compute_spawn_budget, danger_diff_sign, danger_score, parse_weather,
    SpawnBudget, SpawnTypeTable, SpawnTypeTables,
};
use detterot::economy::types::{Pp, RouteId, Weather};
use detterot::weather::{WeatherConfig, WeatherEffects};

fn effects(agg_pct: i32) -> WeatherEffects {
    WeatherEffects { los_m: 100, drift_mm: 0, agg_pct }
}

fn weather_config() -> WeatherConfig {
    WeatherConfig { clear: effects(0), rains: effects(5), fog: effects(8), windy: effects(0) }
}

fn spawn_cfg(base: u32, growth_cap_per_leg: u32, clamp_min: u32, clamp_max: u32) -> SpawnCfg {
    SpawnCfg { base, alpha_pp_per_100: 0, beta_weather: Vec::new(), growth_cap_per_leg, clamp_min, clamp_max }
}

#[test]
fn spawn_table_prefers_higher_weights() {
    let weights = vec![("alpha".to_string(), 1000u32), ("beta".to_string(), 3000u32)];
    let table = SpawnTypeTable::from_scaled_weights(&weights);
    let mut alpha_hits = 0;
    let mut beta_hits = 0;
    for idx in 0..256 {
        let pick = table.choose_kind(&mut DetRng::from_seed(spawn_subseed(0xABCD_EF01, idx)));
        match pick.as_str() {
            "alpha" => alpha_hits += 1,
            "beta" => beta_hits += 1,
            _ => {}
        }
    }
    assert!(beta_hits > alpha_hits);
}

#[test]
fn tables_fall_back_to_default() {
    let tables = SpawnTypeTables::from_tables(SpawnTypeTable::empty(), Vec::new());
    let pick = choose_spawn_type(&tables, Weather::Clear, 0xDEAD_BEEF, 0);
    assert_eq!(pick, "bandit");
}

#[test]
fn agg_budget_delta() {
    let mut cfg = spawn_cfg(10, 10, 1, 100);
    let weather_config = weather_config();
    let pp = Pp(0);

    let budget_clear = compute_spawn_budget(pp, Weather::Clear, None, &cfg, Some(&weather_config));
    let budget_fog = compute_spawn_budget(pp, Weather::Fog, None, &cfg, Some(&weather_config));
    let budget_rains = compute_spawn_budget(pp, Weather::Rains, None, &cfg, Some(&weather_config));
    assert_eq!(budget_clear.enemies, 10);
    assert!(budget_fog.enemies >= budget_rains.enemies, "Fog should have higher or equal spawn budget than Rains");

    cfg.base = 100;
    let budget_clear_large = compute_spawn_budget(pp, Weather::Clear, None, &cfg, Some(&weather_config));
    assert_eq!(budget_clear_large.enemies, 100);

    let mut cfg_high_clamp = cfg.clone();
    cfg_high_clamp.clamp_max = 200;
    let budget_clear_unclamped =
        compute_spawn_budget(pp, Weather::Clear, None, &cfg_high_clamp, Some(&weather_config));
    let budget_fog_unclamped =
        compute_spawn_budget(pp, Weather::Fog, None, &cfg_high_clamp, Some(&weather_config));
    let budget_rains_unclamped =
        compute_spawn_budget(pp, Weather::Rains, None, &cfg_high_clamp, Some(&weather_config));
    assert_eq!(budget_clear_unclamped.enemies, 100);
    assert_eq!(budget_fog_unclamped.enemies, 108, "Fog should increase spawn budget by 8%");
    assert_eq!(budget_rains_unclamped.enemies, 105, "Rains should increase spawn budget by 5%");
    assert!(budget_fog_unclamped.enemies > budget_clear_unclamped.enemies, "Fog weather should increase spawn budget");
    assert!(budget_rains_unclamped.enemies > budget_clear_unclamped.enemies, "Rains weather should increase spawn budget");
}

#[test]
fn budget_growth_is_capped_from_prior() {
    let cfg = spawn_cfg(50, 3, 1, 100);
    let budget = compute_spawn_budget(Pp(0), Weather::Clear, Some(10), &cfg, None);
    assert_eq!(budget, SpawnBudget::new(13, 0));
    let budget = compute_spawn_budget(Pp(0), Weather::Clear, Some(80), &cfg, None);
    assert_eq!(budget.enemies, 80);
    let budget = compute_spawn_budget(Pp(0), Weather::Clear, Some(500), &cfg, None);
    assert_eq!(budget.enemies, 100);
}

#[test]
fn budget_uses_power_band_and_weather_adjustment() {
    let cfg = SpawnCfg {
        base: 3,
        alpha_pp_per_100: 1,
        beta_weather: vec![("Clear".to_string(), 0), ("Fog".to_string(), 2)],
        growth_cap_per_leg: 100,
        clamp_min: 0,
        clamp_max: 1000,
    };
    assert_eq!(compute_spawn_budget(Pp(250), Weather::Fog, None, &cfg, None).enemies, 7);
    assert_eq!(compute_spawn_budget(Pp(250), Weather::Clear, None, &cfg, None).enemies, 5);
    assert_eq!(compute_spawn_budget(Pp(250), Weather::Windy, None, &cfg, None).enemies, 5);
}

#[test]
fn negative_budget_is_raised_to_minimum() {
    let cfg = SpawnCfg {
        base: 0,
        alpha_pp_per_100: -5,
        beta_weather: Vec::new(),
        growth_cap_per_leg: 10,
        clamp_min: 2,
        clamp_max: 10,
    };
    assert_eq!(compute_spawn_budget(Pp(1000), Weather::Clear, None, &cfg, None).enemies, 2);
}

#[test]
fn danger_score_scales_with_rating() {
    let budget = SpawnBudget::new(2, 0);
    // 1000*2 + 400*5 + 300*3 + 50*8 = 5300
    assert_eq!(danger_score(&budget, 8, 5, 3, 50), 5300);
    // 5300 * 300 / 250 = 6360
    assert_eq!(danger_score(&budget, 8, 5, 3, 100), 6360);
    assert_eq!(danger_score(&budget, 8, 5, 3, 200), 6360);
    // (5300 * 200 + 125) / 250 = 4240
    assert_eq!(danger_score(&budget, 8, 5, 3, 0), 4240);
}

#[test]
fn danger_diff_sign_orders() {
    assert_eq!(danger_diff_sign(1, 2), -1);
    assert_eq!(danger_diff_sign(2, 2), 0);
    assert_eq!(danger_diff_sign(3, 2), 1);
}

#[test]
fn weather_names_parse() {
    assert_eq!(parse_weather("Clear"), Some(Weather::Clear));
    assert_eq!(parse_weather("Rains"), Some(Weather::Rains));
    assert_eq!(parse_weather("Fog"), Some(Weather::Fog));
    assert_eq!(parse_weather("Windy"), Some(Weather::Windy));
    assert_eq!(parse_weather("fog"), None);
}

#[test]
fn weather_tables_override_fallback() {
    let fallback = SpawnTypeTable::from_scaled_weights(&vec![("bandit".to_string(), 1000u32)]);
    let fog = SpawnTypeTable::from_scaled_weights(&vec![("wraith".to_string(), 500u32), ("ghoul".to_string(), 0u32)]);
    let tables = SpawnTypeTables::from_tables(
        fallback,
        vec![("Fog".to_string(), fog), ("Nonsense".to_string(), SpawnTypeTable::empty())],
    );
    for idx in 0..16 {
        assert_eq!(choose_spawn_type(&tables, Weather::Fog, 7, idx), "wraith");
        assert_eq!(choose_spawn_type(&tables, Weather::Clear, 7, idx), "bandit");
    }
}

#[test]
fn mission_names_hash_with_fnv1a() {
    assert_eq!(hash_mission_name(""), 0xcbf29ce484222325);
    assert_eq!(hash_mission_name("a"), 0xaf63dc4c8601ec8c);
}

#[test]
fn spawn_subseed_is_splitmix() {
    assert_eq!(spawn_subseed(0, 0), 0xe220a8397b1dcdaf);
    assert_eq!(spawn_subseed(5, 5), 0xe220a8397b1dcdaf);
    assert_ne!(spawn_subseed(0, 1), spawn_subseed(0, 2));
}

#[test]
fn mission_seed_depends_on_every_input() {
    let base = mission_seed(1, RouteId(2), 3, 4);
    assert_eq!(base, mission_seed(1, RouteId(2), 3, 4));
    assert_ne!(base, mission_seed(9, RouteId(2), 3, 4));
    assert_ne!(base, mission_seed(1, RouteId(9), 3, 4));
    assert_ne!(base, mission_seed(1, RouteId(2), 9, 4));
    assert_ne!(base, mission_seed(1, RouteId(2), 3, 9));
}

#[test]
fn det_rng_ranges_stay_in_bounds() {
    let mut rng = DetRng::from_seed(42);
    for _ in 0..200 {
        let v = rng.range_u32(10, 20);
        assert!((10..=20).contains(&v));
        let w = rng.range_i32(-5, 5);
        assert!((-5..=5).contains(&w));
    }
    let mut same = DetRng::from_seed(42);
    assert_eq!(same.range_u32(7, 7), 7);
    assert_eq!(same.next_u32(), DetRng::from_seed(42).next_u32());
    let mut parent = DetRng::from_seed(11);
    let mut child = parent.split_for_spawn(3);
    assert_eq!(child.next_u32(), DetRng::from_seed(spawn_subseed(11, 3)).next_u32());
    assert_eq!(parent.next_u32(), DetRng::from_seed(11).next_u32());
}
