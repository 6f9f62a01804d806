use vstd::prelude::*;

verus! {

/// Economy tuning parameters, one section per subsystem; values are in basis points
/// (10_000 bp = 100%) unless noted otherwise.
#[derive(Clone, Copy, Debug)]
pub struct Rulepack {
    /// Daily-index configuration.
    pub di: DiCfg,
    /// Basis configuration, including weather overlays.
    pub basis: BasisCfg,
    /// Interest leg configuration.
    pub interest: InterestCfg,
    /// Rot-to-debt conversion settings.
    pub rot: RotCfg,
    /// Player power clamps and dynamics.
    pub pp: PpCfg,
    /// Price multiplier bounds.
    pub pricing: PricingCfg,
}

/// Configuration of the Daily Index (DI) that anchors commodity price levels.
#[derive(Clone, Copy, Debug)]
pub struct DiCfg {
    /// Long-run mean of the DI.
    pub long_run_mean_bp: i32,
    /// Share of yesterday's deviation from the mean that is retained.
    pub retention_bp: i32,
    /// Standard deviation of the daily shock.
    pub noise_sigma_bp: u32,
    /// Absolute clamp on a single shock.
    pub noise_clamp_bp: i32,
    /// Clamp on the per-day movement.
    pub per_day_clamp_bp: i32,
    /// Lowest value the DI can reach.
    pub absolute_min_bp: i32,
    /// Highest value the DI can reach.
    pub absolute_max_bp: i32,
    /// Daily decay of the overlay toward zero.
    pub overlay_decay_bp: i32,
    /// Lowest overlay.
    pub overlay_min_bp: i32,
    /// Highest overlay.
    pub overlay_max_bp: i32,
}

/// Configuration that turns economic signals into a basis spread.
#[derive(Clone, Copy, Debug)]
pub struct BasisCfg {
    /// Sensitivity to player power, per 100 PP of deviation from neutral.
    pub beta_pp_bp: i32,
    /// Sensitivity per closed route.
    pub beta_routes_bp: i32,
    /// Sensitivity per unit of stock deviation.
    pub beta_stock_bp: i32,
    /// Standard deviation of the daily noise.
    pub noise_sigma_bp: u32,
    /// Clamp on the daily noise.
    pub noise_clamp_bp: i32,
    /// Clamp on the per-day movement.
    pub per_day_clamp_bp: i32,
    /// Lowest basis.
    pub absolute_min_bp: i32,
    /// Highest basis.
    pub absolute_max_bp: i32,
    /// Weather offsets.
    pub weather: BasisWeatherCfg,
}

/// Additive basis offsets contributed by each weather condition.
#[derive(Clone, Copy, Debug)]
pub struct BasisWeatherCfg {
    pub clear_bp: i32,
    pub rains_bp: i32,
    pub fog_bp: i32,
    pub windy_bp: i32,
}

/// Parameters of the per-leg interest on debt.
#[derive(Clone, Copy, Debug)]
pub struct InterestCfg {
    /// Flat spread per leg.
    pub base_leg_bp: i32,
    /// Linear spread per `linear_scale_cents` of principal.
    pub linear_leg_bp: i32,
    /// Principal (in cents) that produces one unit of linear spread.
    pub linear_scale_cents: i64,
    /// Convex spread per leg before the gamma ramp.
    pub convex_leg_bp: i32,
    /// Exponent of the convex term, in Q16 fixed point.
    pub convex_gamma_q16: u32,
    /// Cap on the total spread per leg.
    pub per_leg_cap_bp: i32,
}

/// Rot tracking that converts stored rot into debt.
#[derive(Clone, Copy, Debug)]
pub struct RotCfg {
    /// Lowest stored rot kept after decay.
    pub rot_floor: u16,
    /// Highest stored rot.
    pub rot_ceiling: u16,
    /// Passive daily decay.
    pub rot_decay_per_day: u16,
    /// Rot consumed per conversion step.
    pub conversion_chunk: u16,
    /// Debt (in cents) added per converted chunk.
    pub debt_per_chunk_cents: i64,
}

/// Player power dynamics.
#[derive(Clone, Copy, Debug)]
pub struct PpCfg {
    pub min_pp: u16,
    pub max_pp: u16,
    pub neutral_pp: u16,
    /// Pull contributed per unit of planting size.
    pub planting_size_to_pp_bp: i32,
    /// Age (days) at which a planting stops contributing.
    pub planting_max_age_days: u16,
    /// Daily decay of a planting's pull, per day of age.
    pub decay_per_day_bp: i32,
    /// Strength with which the total pull moves PP.
    pub pull_strength_bp: i32,
    /// Passive daily PP decay.
    pub pull_decay_bp: i32,
}

/// Bounds for price multipliers.
#[derive(Clone, Copy, Debug)]
pub struct PricingCfg {
    pub min_multiplier_bp: i32,
    pub max_multiplier_bp: i32,
}

} // verus!
