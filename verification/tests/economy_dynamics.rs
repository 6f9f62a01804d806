use detterot::economy::basis::{basis_step, update_basis, BasisDrivers};
use detterot::economy::di::{step_di, DiState};
use detterot::economy::interest::accrue_interest_per_leg;
use detterot::economy::pricing::compute_price;
use detterot::economy::table::{BpEntry, BpTable};
use detterot::economy::money::MoneyCents;
use detterot::economy::planting::{apply_planting_pull, schedule_planting, PendingPlanting};
use detterot::economy::rng::DetRng;
use detterot::economy::rot::convert_rot_to_debt;
use detterot::economy::rulepack::{BasisCfg, BasisWeatherCfg, DiCfg, InterestCfg, PpCfg, PricingCfg, RotCfg, Rulepack};
use detterot::economy::state::{step_economy_day, step_static_fits, try_step_economy_day, ClampHit, ClampKind, ClampSource, EconStepScope, EconState};
use detterot::sim::{seed_states, simulate_day};
use detterot::economy::types::{BasisBp, CommodityId, EconomyDay, HubId, Pp, Weather};

// A hand-written rulepack shared by these tests.
fn rulepack() -> Rulepack {
    Rulepack {
        di: DiCfg {
            long_run_mean_bp: 0,
            retention_bp: 7000,
            noise_sigma_bp: 80,
            noise_clamp_bp: 300,
            per_day_clamp_bp: 150,
            absolute_min_bp: -2000,
            absolute_max_bp: 2000,
            overlay_decay_bp: 20,
            overlay_min_bp: -500,
            overlay_max_bp: 500,
        },
        basis: BasisCfg {
            beta_pp_bp: 10,
            beta_routes_bp: 25,
            beta_stock_bp: 1,
            noise_sigma_bp: 50,
            noise_clamp_bp: 150,
            per_day_clamp_bp: 200,
            absolute_min_bp: -1500,
            absolute_max_bp: 1500,
            weather: BasisWeatherCfg { clear_bp: 0, rains_bp: 40, fog_bp: -20, windy_bp: 60 },
        },
        interest: InterestCfg {
            base_leg_bp: 150,
            linear_leg_bp: 0,
            linear_scale_cents: 100_000,
            convex_leg_bp: 0,
            convex_gamma_q16: 0,
            per_leg_cap_bp: 500,
        },
        rot: RotCfg {
            rot_floor: 50,
            rot_ceiling: 1060,
            rot_decay_per_day: 10,
            conversion_chunk: 100,
            debt_per_chunk_cents: 2500,
        },
        pp: PpCfg {
            min_pp: 0,
            max_pp: 10000,
            neutral_pp: 5000,
            planting_size_to_pp_bp: 200,
            planting_max_age_days: 10,
            decay_per_day_bp: 500,
            pull_strength_bp: 5000,
            pull_decay_bp: 1000,
        },
        pricing: PricingCfg { min_multiplier_bp: 0, max_multiplier_bp: 30000 },
    }
}

#[test]
fn deterministic_seed_reproducible() {
    let hub = HubId(7);
    let day = EconomyDay(3);
    let mut rng_a = DetRng::from_seed(42, 1, hub, day, 99);
    let mut rng_b = DetRng::from_seed(42, 1, hub, day, 99);
    let mut rng_c = DetRng::from_seed(42, 1, hub, EconomyDay(4), 99);

    let seq_a: Vec<u32> = (0..4).map(|_| rng_a.u32()).collect();
    let seq_b: Vec<u32> = (0..4).map(|_| rng_b.u32()).collect();
    let seq_c: Vec<u32> = (0..4).map(|_| rng_c.u32()).collect();

    assert_eq!(seq_a, seq_b);
    assert_ne!(seq_a, seq_c);
}

#[test]
fn norm_samples_clamped_and_stable() {
    let mut rng = DetRng::from_seed(7, 2, HubId(3), EconomyDay(55), 0);
    let samples: Vec<i32> = (0..5).map(|_| rng.norm_bounded_bp(50, 400, 900).0).collect();
    assert_eq!(samples, vec![-83, -703, 4, 260, 6]);

    let mut rng = DetRng::from_seed(9, 1, HubId(1), EconomyDay(1), 1);
    for _ in 0..256 {
        let sample = rng.norm_bounded_bp(-25, 1200, 600);
        assert!(sample.0 >= -600 && sample.0 <= 600);
    }
}

#[test]
fn convert_respects_floor_and_chunks() {
    let cfg = rulepack().rot;
    let (rot_after, delta) = convert_rot_to_debt(cfg.rot_floor.saturating_sub(1), &cfg);
    assert_eq!(rot_after, cfg.rot_floor);
    assert_eq!(delta, MoneyCents::zero());

    let start = cfg.rot_floor + cfg.rot_decay_per_day + cfg.conversion_chunk * 3;
    let (rot_after, delta) = convert_rot_to_debt(start, &cfg);
    assert_eq!(rot_after, cfg.rot_floor);
    assert_eq!(delta.as_i64(), cfg.debt_per_chunk_cents * 3);
}

#[test]
fn conversion_is_idempotent_once_drained() {
    let cfg = rulepack().rot;
    let start = cfg.rot_ceiling;
    let (rot_after, delta) = convert_rot_to_debt(start, &cfg);
    assert!(delta.as_i64() > 0);
    let (rot_again, delta_again) = convert_rot_to_debt(rot_after, &cfg);
    assert_eq!(rot_again, rot_after);
    assert_eq!(delta_again, MoneyCents::zero());
}

#[test]
fn decay_applies_before_conversion() {
    let cfg = rulepack().rot;
    let start = cfg.rot_floor + cfg.rot_decay_per_day.saturating_sub(1);
    let (rot_after, delta) = convert_rot_to_debt(start, &cfg);
    assert_eq!(rot_after, cfg.rot_floor);
    assert_eq!(delta, MoneyCents::zero());
}

fn state_with_pp(pp: u16) -> EconState {
    let mut state = EconState::default();
    state.pp = Pp(pp);
    state
}

#[test]
fn planting_pull_decays_over_time() {
    let cfg = rulepack().pp;
    let mut state = state_with_pp(cfg.neutral_pp);
    schedule_planting(PendingPlanting { hub: HubId(1), size: 10, age_days: 0 }, &mut state);

    let mut pp = state.pp;
    let mut series = Vec::new();
    for _ in 0..cfg.planting_max_age_days + 5 {
        pp = apply_planting_pull(pp, &mut state, &cfg);
        series.push(pp.0);
    }

    assert!(series[0] > cfg.neutral_pp);
    assert!(series.iter().all(|v| *v <= cfg.max_pp));
    assert!(series.windows(2).any(|w| w[1] <= w[0]));
}

#[test]
fn neutral_pp_without_plantings_is_stable() {
    let cfg = rulepack().pp;
    let mut state = state_with_pp(cfg.neutral_pp);
    let result = apply_planting_pull(state.pp, &mut state, &cfg);
    assert_eq!(result.0, cfg.neutral_pp);
    assert!(state.pending_planting.is_empty());
}

#[test]
fn passive_decay_and_pull_decay_follow_basis_points() {
    let cfg = rulepack().pp;
    let mut state = state_with_pp(cfg.neutral_pp + 1_000);
    schedule_planting(PendingPlanting { hub: HubId(42), size: 10, age_days: 0 }, &mut state);

    let result = apply_planting_pull(state.pp, &mut state, &cfg);

    let total_pull = i64::from(cfg.planting_size_to_pp_bp) * 10;
    let pull_decay_bp = i64::from(cfg.pull_decay_bp).clamp(-10_000, 10_000);
    let effective_pull = total_pull * (10_000 - pull_decay_bp) / 10_000;
    let pull_delta = effective_pull * i64::from(cfg.pull_strength_bp) / 10_000;
    let gap = i64::from(state.pp.0) - i64::from(cfg.neutral_pp);
    let passive_decay = gap * i64::from(cfg.decay_per_day_bp) / 10_000;
    let expected = (i64::from(state.pp.0) - passive_decay + pull_delta)
        .clamp(i64::from(cfg.min_pp), i64::from(cfg.max_pp));

    assert_eq!(result.0 as i64, expected);
}

#[test]
fn multiple_plantings_clamp_and_clear() {
    let cfg = rulepack().pp;
    let mut state = state_with_pp(cfg.max_pp - 50);
    for size in [5, 8, 12] {
        schedule_planting(PendingPlanting { hub: HubId(2), size, age_days: 0 }, &mut state);
    }

    let mut pp = state.pp;
    for _ in 0..cfg.planting_max_age_days + 5 {
        pp = apply_planting_pull(pp, &mut state, &cfg);
    }

    assert!(pp.0 <= cfg.max_pp);
    assert!(state.pending_planting.is_empty());
}

#[test]
fn basis_step_applies_drivers_cap_and_bounds() {
    let rp = rulepack();
    let drivers = BasisDrivers { pp: Pp(6500), weather: Weather::Rains, closed_routes: 2, stock_dev: 30 };
    // pp: 15 * 10 = 150, weather 40, routes 50, stock 30, noise -20 => +250, capped at +200.
    assert_eq!(basis_step(BasisBp(100), &drivers, &rp, BasisBp(-20)), BasisBp(300));
    // Without the cap's bite: noise -70 => +200 exactly.
    assert_eq!(basis_step(BasisBp(100), &drivers, &rp, BasisBp(-70)), BasisBp(300));
    assert_eq!(basis_step(BasisBp(100), &drivers, &rp, BasisBp(-120)), BasisBp(250));
    // The absolute bound wins over the daily move.
    assert_eq!(basis_step(BasisBp(1450), &drivers, &rp, BasisBp(0)), BasisBp(1500));
}

#[test]
fn interest_never_exceeds_cap() {
    let mut cfg = rulepack().interest;
    cfg.base_leg_bp = 900;
    for debt in [1i64, 99, 10_000, 5_000_000, 2_000_000_000] {
        let (delta, next) = accrue_interest_per_leg(MoneyCents(debt), &cfg);
        assert!(delta.0 >= 0);
        assert!(delta.0 * 10_000 <= debt * i64::from(cfg.per_leg_cap_bp) + 5_000);
        assert_eq!(next.0, debt + delta.0);
    }
    let (delta, next) = accrue_interest_per_leg(MoneyCents(-500), &cfg);
    assert_eq!((delta, next), (MoneyCents(0), MoneyCents(-500)));
    let (delta, _) = accrue_interest_per_leg(MoneyCents(2_000_000_000), &cfg);
    assert_eq!(delta.0, 100_000_000);
}

#[test]
fn neutral_drivers_quote_the_base_price() {
    for base in [0i64, 1, 999, 10_000, -37] {
        assert_eq!(compute_price(MoneyCents(base), BasisBp(0), BasisBp(0)), MoneyCents(base));
    }
}

#[test]
fn indices_and_bases_stay_within_bounds() {
    let rp = rulepack();
    let table = BpTable::from_sorted(vec![
        BpEntry { key: 1, value: BasisBp(1_990) },
        BpEntry { key: 2, value: BasisBp(-1_990) },
    ]);
    let mut state = DiState { per_com: table, overlay_bp: 120 };
    let mut rng = DetRng::from_seed(777, 1, HubId(3), EconomyDay(0), 0);
    for day in 0..60u32 {
        step_di(EconomyDay(day), &mut state, &rp, &mut rng);
        for i in 0..state.per_com.len() {
            let v = state.per_com.entry_at(i).value.0;
            assert!((rp.di.absolute_min_bp..=rp.di.absolute_max_bp).contains(&v));
        }
        assert!(state.overlay_bp.abs() <= 120);
    }
    let drivers = BasisDrivers { pp: Pp(9000), weather: Weather::Windy, closed_routes: 3, stock_dev: 200 };
    let mut basis = BasisBp(0);
    let mut rng = DetRng::from_seed(1, 1, HubId(1), EconomyDay(0), 1);
    for _ in 0..40 {
        let next = update_basis(basis, &drivers, &rp, &mut rng);
        assert!((next.0 - basis.0).abs() <= rp.basis.per_day_clamp_bp);
        assert!((rp.basis.absolute_min_bp..=rp.basis.absolute_max_bp).contains(&next.0));
        basis = next;
    }
}

fn seeded_rng(tag: u32) -> DetRng {
    DetRng::from_seed(900, 1, HubId(2), EconomyDay(0), tag)
}

#[test]
fn pp_driver_is_monotone() {
    let rp = rulepack();
    let base = BasisBp(200);
    let drivers_low = BasisDrivers { pp: Pp(rp.pp.neutral_pp - 1500), weather: Weather::Clear, closed_routes: 0, stock_dev: 0 };
    let drivers_high = BasisDrivers { pp: Pp(rp.pp.neutral_pp + 1500), ..drivers_low };

    let mut rng_low = seeded_rng(1);
    let mut rng_high = seeded_rng(1);
    let low = update_basis(base, &drivers_low, &rp, &mut rng_low);
    let high = update_basis(base, &drivers_high, &rp, &mut rng_high);

    assert!(low.0 < base.0);
    assert!(high.0 > base.0);
    assert!(high.0 - base.0 > base.0 - low.0);
}

#[test]
fn stock_driver_is_monotone() {
    let rp = rulepack();
    let base = BasisBp(-100);
    let drivers_low = BasisDrivers { pp: Pp(rp.pp.neutral_pp), weather: Weather::Fog, closed_routes: 0, stock_dev: -500 };
    let drivers_high = BasisDrivers { stock_dev: 500, ..drivers_low };

    let mut rng_low = seeded_rng(2);
    let mut rng_high = seeded_rng(2);
    let low = update_basis(base, &drivers_low, &rp, &mut rng_low);
    let high = update_basis(base, &drivers_high, &rp, &mut rng_high);

    assert!(low.0 < high.0);
}

#[test]
fn basis_delta_hits_clamps() {
    let rp = rulepack();
    let clamp = rp.basis.per_day_clamp_bp;

    let drivers_push_up = BasisDrivers { pp: Pp(rp.pp.max_pp), weather: Weather::Windy, closed_routes: 12, stock_dev: 2_000 };
    let drivers_push_down = BasisDrivers { pp: Pp(rp.pp.min_pp), weather: Weather::Rains, closed_routes: 0, stock_dev: -2_000 };

    let mut rng_up = seeded_rng(3);
    let mut rng_down = seeded_rng(4);

    let up = update_basis(BasisBp(0), &drivers_push_up, &rp, &mut rng_up);
    let down = update_basis(BasisBp(0), &drivers_push_down, &rp, &mut rng_down);

    assert_eq!(up.0, clamp);
    assert_eq!(down.0, -clamp);
}

#[test]
fn generator_advances_between_draws() {
    let mut rng = DetRng::from_seed(42, 1, HubId(7), EconomyDay(3), 99);
    let first = rng.u32();
    let second = rng.u32();
    assert_ne!(first, second);
    assert_eq!(rng.cursor(), 2);
}

#[test]
fn economy_step_is_reproducible() {
    let rp = rulepack();
    let mut a = seed_states(1, &[5200], &[10_000], rp.pp.neutral_pp).remove(0);
    let mut b = seed_states(1, &[5200], &[10_000], rp.pp.neutral_pp).remove(0);
    for _ in 0..5 {
        let da = step_economy_day(&rp, 1234, 1, HubId(0), &mut a, EconStepScope::GlobalAndHub);
        let db = step_economy_day(&rp, 1234, 1, HubId(0), &mut b, EconStepScope::GlobalAndHub);
        assert_eq!(da.di, db.di);
        assert_eq!(da.basis, db.basis);
        assert_eq!(da.debt_after, db.debt_after);
    }
    let mut c = seed_states(1, &[5200], &[10_000], rp.pp.neutral_pp).remove(0);
    let dc = step_economy_day(&rp, 99, 1, HubId(0), &mut c, EconStepScope::GlobalAndHub);
    let mut d = seed_states(1, &[5200], &[10_000], rp.pp.neutral_pp).remove(0);
    let dd = step_economy_day(&rp, 1234, 1, HubId(0), &mut d, EconStepScope::GlobalAndHub);
    assert_ne!(dc.di, dd.di);
}

#[test]
fn checked_step_matches_the_step() {
    let rp = rulepack();
    let mut a = seed_states(1, &[5200], &[10_000], rp.pp.neutral_pp).remove(0);
    let mut b = seed_states(1, &[5200], &[10_000], rp.pp.neutral_pp).remove(0);
    for _ in 0..3 {
        let da = try_step_economy_day(&rp, 77, 1, HubId(2), &mut a, EconStepScope::GlobalAndHub).expect("step fits");
        let db = step_economy_day(&rp, 77, 1, HubId(2), &mut b, EconStepScope::GlobalAndHub);
        assert_eq!(da.di, db.di);
        assert_eq!(da.basis, db.basis);
        assert_eq!(da.clamps_hit, db.clamps_hit);
    }
}

#[test]
fn hub_only_step_ignores_global_bounds() {
    let mut rp = rulepack();
    rp.di.overlay_min_bp = 10;
    rp.di.overlay_max_bp = -10;
    rp.rot.rot_floor = 2000;
    rp.rot.rot_ceiling = 10;
    let mut s = seed_states(1, &[5000], &[0], rp.pp.neutral_pp).remove(0);
    assert!(!step_static_fits(&rp, &s, EconStepScope::GlobalAndHub));
    assert!(try_step_economy_day(&rp, 5, 1, HubId(1), &mut s, EconStepScope::GlobalAndHub).is_none());
    assert_eq!(s.day, EconomyDay(0));
    let delta = try_step_economy_day(&rp, 5, 1, HubId(1), &mut s, EconStepScope::HubOnly).expect("hub-only step runs");
    assert_eq!(delta.basis.len(), 2);
    assert!(delta.di.is_empty());
}

#[test]
fn empty_economy_needs_no_index_bounds() {
    let mut rp = rulepack();
    rp.di.absolute_min_bp = 100;
    rp.di.absolute_max_bp = -100;
    rp.basis.absolute_min_bp = 100;
    rp.basis.absolute_max_bp = -100;
    let mut s = EconState::default();
    let delta = try_step_economy_day(&rp, 5, 1, HubId(1), &mut s, EconStepScope::GlobalAndHub).expect("no commodity to clamp");
    assert!(delta.di.is_empty() && delta.basis.is_empty());
    assert_eq!(s.day, EconomyDay(1));
}

#[test]
fn clamp_labels_read_source_commodity_kind() {
    let hit = ClampHit { source: ClampSource::Basis, commodity: CommodityId(3), kind: ClampKind::PerDay };
    assert_eq!(hit.label(), "basis:3:per_day");
    let hit = ClampHit { source: ClampSource::Di, commodity: CommodityId(0), kind: ClampKind::AbsMin };
    assert_eq!(hit.label(), "di:0:abs_min");
    let hit = ClampHit { source: ClampSource::Di, commodity: CommodityId(40210), kind: ClampKind::AbsMax };
    assert_eq!(hit.label(), "di:40210:abs_max");
}

#[test]
fn simulated_day_advances_the_economy_once() {
    let rp = rulepack();
    let mut state = seed_states(1, &[1500], &[5_000_000_00], rp.pp.neutral_pp).remove(0);
    for day in 0..15u32 {
        let debt_before = state.debt_cents.0;
        let rows = simulate_day(&rp, 42, 1, day, 3, &mut state).expect("day runs");
        assert_eq!(rows.len(), 6);
        assert_eq!(state.day, EconomyDay(day + 1));
        for row in &rows {
            assert_eq!(row.debt_cents, state.debt_cents.0);
            assert_eq!(row.day, day);
            if row.hub != 1 {
                assert_eq!(row.interest_cents, 0);
            }
        }
        let hub1 = rows.iter().find(|r| r.hub == 1).expect("hub 1 row");
        assert!(hub1.interest_cents > 0);
        assert_eq!(state.debt_cents.0, debt_before + hub1.interest_cents);
        assert_eq!(rows.iter().map(|r| r.hub).collect::<Vec<_>>(), vec![1, 1, 2, 2, 3, 3]);
    }
}
