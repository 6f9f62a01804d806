use detterot::economy::interest::accrue_interest_per_leg;
use detterot::economy::money::MoneyCents;
use detterot::economy::rulepack::InterestCfg;

#[test]
fn interest_rounds_half_cent_boundaries() {
    let mut cfg = InterestCfg {
        base_leg_bp: 0,
        linear_leg_bp: 0,
        linear_scale_cents: 1,
        convex_leg_bp: 0,
        convex_gamma_q16: 0,
        per_leg_cap_bp: i32::MAX,
    };

    cfg.base_leg_bp = 51;
    let (delta_high, _) = accrue_interest_per_leg(MoneyCents(100), &cfg);
    assert_eq!(delta_high, MoneyCents(1));

    cfg.base_leg_bp = 49;
    let (delta_low, _) = accrue_interest_per_leg(MoneyCents(100), &cfg);
    assert_eq!(delta_low, MoneyCents(0));
}

// Stands in for the interest section of the day-one rulepack: 150 bp flat, 14 bp per
// $50,000 of principal, no convex term, capped at 500 bp.
fn fixture_cfg() -> InterestCfg {
    InterestCfg {
        base_leg_bp: 150,
        linear_leg_bp: 14,
        linear_scale_cents: 5_000_000,
        convex_leg_bp: 0,
        convex_gamma_q16: 0,
        per_leg_cap_bp: 500,
    }
}

#[test]
fn interest_is_piecewise_and_caps() {
    let cfg = fixture_cfg();
    let cases = [MoneyCents(10_000), MoneyCents(500_000), MoneyCents(5_000_000)];

    let mut deltas = Vec::new();
    for debt in cases.iter().copied() {
        let (delta, next) = accrue_interest_per_leg(debt, &cfg);
        deltas.push((debt.as_i64(), delta.as_i64(), next.as_i64()));
    }

    let expected = vec![(10000, 150, 10150), (500000, 7500, 507500), (5000000, 82000, 5082000)];
    assert_eq!(deltas, expected);

    let high_debt = MoneyCents(2_000_000_000);
    let (delta, _) = accrue_interest_per_leg(high_debt, &cfg);
    let observed_bp = (delta.as_i64() * 10_000) / high_debt.as_i64();
    assert_eq!(observed_bp, cfg.per_leg_cap_bp as i64);
}
