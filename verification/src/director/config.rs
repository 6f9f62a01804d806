use vstd::prelude::*;

verus! {

/// Spawn-budget tuning of the director.
#[derive(Debug, Clone)]
pub struct SpawnCfg {
    /// Enemies before any adjustment.
    pub base: u32,
    /// Enemies added per 100 points of player power.
    pub alpha_pp_per_100: i32,
    /// Per-weather enemy adjustment, keyed by the weather's name (`"Clear"`, `"Fog"`, ...).
    pub beta_weather: Vec<(String, i32)>,
    /// Largest rise of the budget from one leg to the next.
    pub growth_cap_per_leg: u32,
    /// Lowest budget.
    pub clamp_min: u32,
    /// Highest budget.
    pub clamp_max: u32,
}

/// Economic effect of one mission's outcome.
#[derive(Debug, Clone, Copy, PartialEq, Eq, Structural)]
pub struct MissionCfg {
    pub pp_success: i16,
    pub pp_fail: i16,
    pub basis_bp_success: i16,
    pub basis_bp_fail: i16,
}

impl Default for MissionCfg {
    fn default() -> (r: Self)
        ensures
            r == (MissionCfg { pp_success: 0, pp_fail: 0, basis_bp_success: 0, basis_bp_fail: 0 }),
    {
        MissionCfg { pp_success: 0, pp_fail: 0, basis_bp_success: 0, basis_bp_fail: 0 }
    }
}

} // verus!
