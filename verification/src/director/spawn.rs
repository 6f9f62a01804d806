use vstd::prelude::*;
use crate::bounds::{clamped, clamp_u32};
use crate::economy::rng::trunc_div;
use crate::economy::types::{Pp, Weather};
use crate::weather::WeatherConfig;
use super::config::SpawnCfg;
use super::rng::{range_u32_result, spawn_subseed, subseed, DetRng};

verus! {

/// Enemies and obstacles to spawn on a leg.
#[derive(Debug, Clone, Copy, PartialEq, Eq, Structural)]
pub struct SpawnBudget {
    pub enemies: u32,
    pub obstacles: u32,
}

impl SpawnBudget {
    /// A budget of `enemies` enemies and `obstacles` obstacles.
    pub fn new(enemies: u32, obstacles: u32) -> (r: Self)
        ensures
            r == (SpawnBudget { enemies, obstacles }),
    {
        Self { enemies, obstacles }
    }
}

/// The spawn kind used when a table has no entries.
pub open spec fn default_spawn_kind() -> Seq<char> {
    "bandit"@
}

fn default_kind() -> (r: String)
    ensures
        r@ == default_spawn_kind(),
{
    "bandit".to_owned()
}

/// The name of a weather kind, as written in configuration files.
pub open spec fn weather_name(weather: Weather) -> Seq<char> {
    match weather {
        Weather::Clear => "Clear"@,
        Weather::Rains => "Rains"@,
        Weather::Fog => "Fog"@,
        Weather::Windy => "Windy"@,
    }
}

/// The weather named `key`, if any.
pub open spec fn weather_from_name(key: Seq<char>) -> Option<Weather> {
    if key == "Clear"@ {
        Some(Weather::Clear)
    } else if key == "Rains"@ {
        Some(Weather::Rains)
    } else if key == "Fog"@ {
        Some(Weather::Fog)
    } else if key == "Windy"@ {
        Some(Weather::Windy)
    } else {
        None
    }
}

fn weather_label(weather: Weather) -> (r: String)
    ensures
        r@ == weather_name(weather),
{
    match weather {
        Weather::Clear => "Clear".to_owned(),
        Weather::Rains => "Rains".to_owned(),
        Weather::Fog => "Fog".to_owned(),
        Weather::Windy => "Windy".to_owned(),
    }
}

/// Reads a weather name from a configuration key.
pub fn parse_weather(key: &str) -> (r: Option<Weather>)
    ensures
        r == weather_from_name(key@),
{
    let owned = key.to_owned();
    if owned == "Clear".to_owned() {
        Some(Weather::Clear)
    } else if owned == "Rains".to_owned() {
        Some(Weather::Rains)
    } else if owned == "Fog".to_owned() {
        Some(Weather::Fog)
    } else if owned == "Windy".to_owned() {
        Some(Weather::Windy)
    } else {
        None
    }
}

/// One spawn kind with the running total of weights up to and including it.
#[derive(Debug, Clone)]
pub struct SpawnTypeEntry {
    name: String,
    cumulative_weight: u32,
}

/// Index picked by `draw` in a table with running totals `cums`: the first entry whose
/// total exceeds the draw, else the last entry.
pub open spec fn pick_index(cums: Seq<u32>, draw: u32) -> int
    decreases cums.len(),
{
    if cums.len() <= 1 || draw < cums[0] {
        0
    } else {
        1 + pick_index(cums.drop_first(), draw)
    }
}

proof fn lemma_pick_index(cums: Seq<u32>, draw: u32, k: int)
    requires
        0 <= k < cums.len(),
        forall|j: int| 0 <= j < k ==> draw >= #[trigger] cums[j],
        draw < cums[k] || k == cums.len() - 1,
    ensures
        pick_index(cums, draw) == k,
    decreases k,
{
    if k > 0 {
        let rest = cums.drop_first();
        assert forall|j: int| 0 <= j < k - 1 implies draw >= #[trigger] rest[j] by {
            assert(rest[j] == cums[j + 1]);
        }
        lemma_pick_index(rest, draw, k - 1);
    }
}

/// Names and running totals of the table built from `weights`, and its total weight:
/// entries of weight 0 are left out, totals saturate at `u32::MAX`.
pub open spec fn table_from_weights(weights: Seq<(String, u32)>) -> (Seq<Seq<char>>, Seq<u32>, u32)
    decreases weights.len(),
{
    if weights.len() == 0 {
        (Seq::empty(), Seq::empty(), 0)
    } else {
        let (names, cums, total) = table_from_weights(weights.drop_last());
        let (name, w) = weights.last();
        if w == 0 {
            (names, cums, total)
        } else {
            let t = if total + w > u32::MAX {
                u32::MAX
            } else {
                (total + w) as u32
            };
            (names.push(name@), cums.push(t), t)
        }
    }
}

/// Weighted table of spawn kinds.
#[derive(Debug, Clone)]
pub struct SpawnTypeTable {
    entries: Vec<SpawnTypeEntry>,
    total_weight: u32,
}

impl SpawnTypeTable {
    /// Names of the entries, in table order.
    pub closed spec fn names(&self) -> Seq<Seq<char>> {
        self.entries@.map_values(|e: SpawnTypeEntry| e.name@)
    }

    /// Running weight totals of the entries, in table order.
    pub closed spec fn cumulative(&self) -> Seq<u32> {
        self.entries@.map_values(|e: SpawnTypeEntry| e.cumulative_weight)
    }

    /// Sum of all weights (saturating).
    pub closed spec fn total(&self) -> u32 {
        self.total_weight
    }

    /// The kind chosen by a generator in state `state`.
    pub open spec fn pick(&self, state: u64) -> Seq<char> {
        if self.names().len() == 0 {
            default_spawn_kind()
        } else {
            let hi = if self.total() == 0 {
                0u32
            } else {
                (self.total() - 1) as u32
            };
            self.names()[pick_index(self.cumulative(), range_u32_result(state, 0, hi).1)]
        }
    }

    /// State of a generator in state `state` after a choice from this table.
    pub open spec fn state_after_pick(&self, state: u64) -> u64 {
        if self.names().len() == 0 {
            state
        } else {
            let hi = if self.total() == 0 {
                0u32
            } else {
                (self.total() - 1) as u32
            };
            range_u32_result(state, 0, hi).0
        }
    }

    /// A table with no entries.
    pub fn empty() -> (r: Self)
        ensures
            r.names().len() == 0,
            r.cumulative().len() == 0,
            r.total() == 0,
    {
        SpawnTypeTable { entries: Vec::new(), total_weight: 0 }
    }

    /// Builds the table from `(name, weight)` pairs, weights already scaled to integers
    /// (thousandths) and pairs in name order; weight-0 entries are skipped.
    pub fn from_scaled_weights(weights: &Vec<(String, u32)>) -> (r: Self)
        ensures
            (r.names(), r.cumulative(), r.total()) == table_from_weights(weights@),
    {
        let mut entries: Vec<SpawnTypeEntry> = Vec::new();
        let mut total: u32 = 0;
        let mut i: usize = 0;
        while i < weights.len()
            invariant
                i <= weights@.len(),
                (entries@.map_values(|e: SpawnTypeEntry| e.name@), entries@.map_values(
                    |e: SpawnTypeEntry| e.cumulative_weight,
                ), total) == table_from_weights(weights@.take(i as int)),
            decreases weights.len() - i,
        {
            assert(weights@.take(i + 1).drop_last() == weights@.take(i as int));
            let w = weights[i].1;
            if w != 0 {
                total = total.saturating_add(w);
                let name = weights[i].0.clone();
                let ghost before = entries@;
                entries.push(SpawnTypeEntry { name, cumulative_weight: total });
                assert(entries@.map_values(|e: SpawnTypeEntry| e.name@) == before.map_values(
                    |e: SpawnTypeEntry| e.name@,
                ).push(weights@[i as int].0@));
                assert(entries@.map_values(|e: SpawnTypeEntry| e.cumulative_weight)
                    == before.map_values(|e: SpawnTypeEntry| e.cumulative_weight).push(total));
            }
            i = i + 1;
        }
        assert(weights@.take(weights@.len() as int) == weights@);
        SpawnTypeTable { entries, total_weight: total }
    }

    /// Chooses a spawn kind by weight with one draw of `rng`; an empty table gives
    /// `"bandit"` and leaves `rng` alone.
    pub fn choose_kind(&self, rng: &mut DetRng) -> (r: String)
        ensures
            r@ == self.pick(old(rng).state()),
            final(rng).state() == self.state_after_pick(old(rng).state()),
    {
        let len = self.entries.len();
        if len == 0 {
            return default_kind();
        }
        let hi = self.total_weight.saturating_sub(1);
        let draw = rng.range_u32(0, hi);
        let ghost cums = self.cumulative();
        let mut i: usize = 0;
        while i < len
            invariant
                i <= len,
                len == self.entries@.len(),
                cums == self.cumulative(),
                forall|j: int| 0 <= j < i ==> draw >= #[trigger] cums[j],
                len > 0,
                rng.state() == self.state_after_pick(old(rng).state()),
                self.pick(old(rng).state()) == self.names()[pick_index(cums, draw)],
            decreases len - i,
        {
            assert(cums[i as int] == self.entries@[i as int].cumulative_weight);
            if draw < self.entries[i].cumulative_weight {
                assert(self.names()[i as int] == self.entries@[i as int].name@);
                proof {
                    lemma_pick_index(cums, draw, i as int);
                }
                return self.entries[i].name.clone();
            }
            i = i + 1;
        }
        proof {
            lemma_pick_index(cums, draw, len - 1);
        }
        assert(self.names()[len - 1] == self.entries@[len - 1].name@);
        self.entries[len - 1].name.clone()
    }
}

/// Weather-specific tables after parsing their keys, newest first; keys that name no
/// weather are dropped.
pub open spec fn parsed_tables(pairs: Seq<(String, SpawnTypeTable)>) -> Seq<(Weather, SpawnTypeTable)>
    decreases pairs.len(),
{
    if pairs.len() == 0 {
        Seq::empty()
    } else {
        let rest = parsed_tables(pairs.drop_last());
        match weather_from_name(pairs.last().0@) {
            Some(w) => seq![(w, pairs.last().1)] + rest,
            None => rest,
        }
    }
}

/// The table that `by_weather` holds for `weather` (its first match), else `fallback`.
pub open spec fn table_lookup(
    by_weather: Seq<(Weather, SpawnTypeTable)>,
    weather: Weather,
    fallback: SpawnTypeTable,
) -> SpawnTypeTable
    decreases by_weather.len(),
{
    if by_weather.len() == 0 {
        fallback
    } else if by_weather[0].0 == weather {
        by_weather[0].1
    } else {
        table_lookup(by_weather.drop_first(), weather, fallback)
    }
}

/// Spawn tables: one per configured weather and a fallback.
#[derive(Debug, Clone)]
pub struct SpawnTypeTables {
    fallback: SpawnTypeTable,
    by_weather: Vec<(Weather, SpawnTypeTable)>,
}

impl SpawnTypeTables {
    /// The table used when a weather has none of its own.
    pub closed spec fn fallback(&self) -> SpawnTypeTable {
        self.fallback
    }

    /// The weather-specific tables, searched front to back.
    pub closed spec fn by_weather(&self) -> Seq<(Weather, SpawnTypeTable)> {
        self.by_weather@
    }

    /// Tables from a fallback and `(weather name, table)` pairs; a later pair for the same
    /// weather replaces an earlier one, and names that are no weather are ignored.
    pub fn from_tables(fallback: SpawnTypeTable, weather_tables: Vec<(String, SpawnTypeTable)>) -> (r: Self)
        ensures
            r.fallback() == fallback,
            r.by_weather() == parsed_tables(weather_tables@),
    {
        let ghost orig = weather_tables@;
        let mut rest = weather_tables;
        let mut by_weather: Vec<(Weather, SpawnTypeTable)> = Vec::new();
        assert(by_weather@ + parsed_tables(rest@) =~= parsed_tables(orig));
        while rest.len() > 0
            invariant
                by_weather@ + parsed_tables(rest@) == parsed_tables(orig),
            decreases rest.len(),
        {
            let ghost before_rest = rest@;
            let ghost before = by_weather@;
            let (key, table) = rest.pop().unwrap();
            assert(rest@ == before_rest.drop_last());
            match parse_weather(key.as_str()) {
                Some(w) => {
                    by_weather.push((w, table));
                    assert(by_weather@ + parsed_tables(rest@) == before + (seq![(w, table)]
                        + parsed_tables(rest@)));
                },
                None => {},
            }
        }
        assert(by_weather@ + Seq::empty() == by_weather@);
        SpawnTypeTables { fallback, by_weather }
    }

    /// The table for `weather`, or the fallback when there is none.
    pub fn table_for(&self, weather: Weather) -> (r: &SpawnTypeTable)
        ensures
            *r == table_lookup(self.by_weather(), weather, self.fallback()),
    {
        let mut i: usize = 0;
        assert(self.by_weather@.skip(0) == self.by_weather@);
        while i < self.by_weather.len()
            invariant
                i <= self.by_weather@.len(),
                table_lookup(self.by_weather@, weather, self.fallback) == table_lookup(
                    self.by_weather@.skip(i as int),
                    weather,
                    self.fallback,
                ),
            decreases self.by_weather.len() - i,
        {
            assert(self.by_weather@.skip(i as int).drop_first() == self.by_weather@.skip(i + 1));
            if self.by_weather[i].0 == weather {
                return &self.by_weather[i].1;
            }
            i = i + 1;
        }
        &self.fallback
    }
}

impl Default for SpawnTypeTables {
    fn default() -> (r: Self)
        ensures
            r.fallback().names().len() == 0,
            r.fallback().total() == 0,
            r.by_weather().len() == 0,
    {
        SpawnTypeTables { fallback: SpawnTypeTable::empty(), by_weather: Vec::new() }
    }
}

/// The per-weather enemy adjustment: the value of the first key naming `weather`, else 0.
pub open spec fn beta_for(beta: Seq<(String, i32)>, weather: Weather) -> int
    decreases beta.len(),
{
    if beta.len() == 0 {
        0
    } else if beta[0].0@ == weather_name(weather) {
        beta[0].1 as int
    } else {
        beta_for(beta.drop_first(), weather)
    }
}

fn lookup_beta(beta: &Vec<(String, i32)>, weather: Weather) -> (r: i32)
    ensures
        r as int == beta_for(beta@, weather),
{
    let key = weather_label(weather);
    let mut i: usize = 0;
    assert(beta@.skip(0) == beta@);
    while i < beta.len()
        invariant
            i <= beta@.len(),
            key@ == weather_name(weather),
            beta_for(beta@, weather) == beta_for(beta@.skip(i as int), weather),
        decreases beta.len() - i,
    {
        assert(beta@.skip(i as int).drop_first() == beta@.skip(i + 1));
        if beta[i].0 == key {
            return beta[i].1;
        }
        i = i + 1;
    }
    0
}

/// Enemies before the aggression effect: base, power band and weather adjustment.
pub open spec fn raw_enemies(pp: Pp, weather: Weather, cfg: SpawnCfg) -> int {
    (cfg.base as i32) as int + cfg.alpha_pp_per_100 as int * (pp.0 as int / 100) + beta_for(
        cfg.beta_weather@,
        weather,
    )
}

/// Enemies after the aggression effect `agg_pct` (if any), truncated toward zero.
pub open spec fn aggressive_enemies(pp: Pp, weather: Weather, cfg: SpawnCfg, agg_pct: Option<i32>) -> int {
    let raw = raw_enemies(pp, weather, cfg);
    match agg_pct {
        Some(a) => if a != 0 {
            trunc_div(raw * (100 + a), 100)
        } else {
            raw
        },
        None => raw,
    }
}

/// The inputs on which `compute_spawn_budget` stays within `i32` and its clamps are
/// well-formed.
pub open spec fn spawn_budget_defined(pp: Pp, weather: Weather, cfg: SpawnCfg, agg_pct: Option<i32>) -> bool {
    let band = pp.0 as int / 100;
    let partial = (cfg.base as i32) as int + cfg.alpha_pp_per_100 as int * band;
    let raw = raw_enemies(pp, weather, cfg);
    &&& cfg.clamp_min <= cfg.clamp_max
    &&& i32::MIN <= cfg.alpha_pp_per_100 as int * band <= i32::MAX
    &&& i32::MIN <= partial <= i32::MAX
    &&& i32::MIN <= raw <= i32::MAX
    &&& match agg_pct {
        Some(a) => a != 0 ==> (100 + a <= i32::MAX && i32::MIN <= raw * (100 + a) <= i32::MAX),
        None => true,
    }
}

/// Enemy budget of a leg: the desired count (never below 0) clamped to the configured
/// range, allowed to rise at most `growth_cap_per_leg` above the prior budget (itself
/// clamped; the desired count when there is none), and clamped again.
pub open spec fn budget_enemies(pp: Pp, weather: Weather, prior: Option<u32>, cfg: SpawnCfg, agg_pct: Option<i32>) -> int {
    let raw = aggressive_enemies(pp, weather, cfg, agg_pct);
    let desired = if raw < 0 {
        0
    } else {
        raw
    };
    let desired_c = clamped(desired, cfg.clamp_min as int, cfg.clamp_max as int);
    let prior_e = match prior {
        Some(p) => p as int,
        None => desired_c,
    };
    let capped = clamped(prior_e, cfg.clamp_min as int, cfg.clamp_max as int);
    let increase = if desired_c > capped {
        desired_c - capped
    } else {
        0
    };
    let delta = if increase < cfg.growth_cap_per_leg {
        increase
    } else {
        cfg.growth_cap_per_leg as int
    };
    clamped(capped + delta, cfg.clamp_min as int, cfg.clamp_max as int)
}

/// The spawn budget of a leg from player power, weather, the prior budget and the
/// configuration; `weather_config`, when given, scales enemies by its aggression.
pub fn compute_spawn_budget(
    pp: Pp,
    weather: Weather,
    prior: Option<u32>,
    cfg: &SpawnCfg,
    weather_config: Option<&WeatherConfig>,
) -> (r: SpawnBudget)
    requires
        spawn_budget_defined(
            pp,
            weather,
            *cfg,
            match weather_config {
                Some(wc) => Some(wc.effects(weather).agg_pct),
                None => None,
            },
        ),
    ensures
        r.enemies as int == budget_enemies(
            pp,
            weather,
            prior,
            *cfg,
            match weather_config {
                Some(wc) => Some(wc.effects(weather).agg_pct),
                None => None,
            },
        ),
        r.obstacles == 0,
{
    let pp_band = (pp.0 as i32) / 100;
    let weather_delta = lookup_beta(&cfg.beta_weather, weather);
    let mut enemies_raw = cfg.base as i32 + cfg.alpha_pp_per_100 * pp_band + weather_delta;
    match weather_config {
        Some(wc) => {
            let agg_pct = wc.get_agg_pct(weather);
            if agg_pct != 0 {
                enemies_raw = (enemies_raw * (100 + agg_pct)) / 100;
            }
        },
        None => {},
    }
    if enemies_raw < 0 {
        enemies_raw = 0;
    }
    let desired = enemies_raw as u32;
    let desired_clamped = clamp_u32(desired, cfg.clamp_min, cfg.clamp_max);
    let prior_enemies = match prior {
        Some(p) => p,
        None => desired_clamped,
    };
    let capped_prior = clamp_u32(prior_enemies, cfg.clamp_min, cfg.clamp_max);
    let increase = desired_clamped.saturating_sub(capped_prior);
    let delta = if increase < cfg.growth_cap_per_leg {
        increase
    } else {
        cfg.growth_cap_per_leg
    };
    let enemies = clamp_u32(capped_prior + delta, cfg.clamp_min, cfg.clamp_max);
    SpawnBudget { enemies, obstacles: 0 }
}

/// The spawn kind of spawn `spawn_index` on a leg seeded with `seed`, drawn from the
/// table for `weather`.
pub fn choose_spawn_type(tables: &SpawnTypeTables, weather: Weather, seed: u64, spawn_index: u64) -> (r: String)
    ensures
        r@ == table_lookup(tables.by_weather(), weather, tables.fallback()).pick(
            subseed(seed, spawn_index),
        ),
{
    let mut rng = DetRng::from_seed(spawn_subseed(seed, spawn_index));
    tables.table_for(weather).choose_kind(&mut rng)
}

/// Danger of a leg before the player-rating adjustment.
pub open spec fn danger_raw(enemies: u32, mission_minutes: u32, density_per_10k: u32, cadence_per_min: u32) -> int {
    1000 * (enemies as i32) as int + 400 * (density_per_10k as i32) as int + 300 * (
    cadence_per_min as i32) as int + 50 * (mission_minutes as i32) as int
}

/// The inputs on which every step of the danger sum stays within `i32`.
pub open spec fn danger_defined(enemies: u32, mission_minutes: u32, density_per_10k: u32, cadence_per_min: u32) -> bool {
    let e = 1000 * (enemies as i32) as int;
    let d = 400 * (density_per_10k as i32) as int;
    let c = 300 * (cadence_per_min as i32) as int;
    let m = 50 * (mission_minutes as i32) as int;
    &&& i32::MIN <= e <= i32::MAX
    &&& i32::MIN <= d <= i32::MAX
    &&& i32::MIN <= c <= i32::MAX
    &&& i32::MIN <= m <= i32::MAX
    &&& i32::MIN <= e + d <= i32::MAX
    &&& i32::MIN <= e + d + c <= i32::MAX
    &&& i32::MIN <= e + d + c + m <= i32::MAX
}

/// Danger score: the raw danger scaled by `(250 + rating - 50) / 250`, rounded half up,
/// with the rating limited to 100; the result is read back as an `i32`.
pub open spec fn danger_value(raw: int, rating: u8) -> i32 {
    let r = if rating > 100 {
        100
    } else {
        rating as int
    };
    (trunc_div(raw * (250 + r - 50) + 125, 250)) as i32
}

/// Danger score of a leg from its budget, duration, density, cadence and the player's rating.
pub fn danger_score(
    budget: &SpawnBudget,
    mission_minutes: u32,
    density_per_10k: u32,
    cadence_per_min: u32,
    player_rating_0_100: u8,
) -> (r: i32)
    requires
        danger_defined(budget.enemies, mission_minutes, density_per_10k, cadence_per_min),
    ensures
        r == danger_value(
            danger_raw(budget.enemies, mission_minutes, density_per_10k, cadence_per_min),
            player_rating_0_100,
        ),
{
    let enemies = budget.enemies as i32;
    let density = density_per_10k as i32;
    let cadence = cadence_per_min as i32;
    let minutes = mission_minutes as i32;
    let danger_raw = 1000 * enemies + 400 * density + 300 * cadence + 50 * minutes;
    let rating: i32 = if player_rating_0_100 > 100 {
        100
    } else {
        player_rating_0_100 as i32
    };
    let delta = rating - 50;
    assert((i32::MIN as int) * 300 <= danger_raw as int * (250 + delta as int) <= (
    i32::MAX as int) * 300) by (nonlinear_arith)
        requires
            i32::MIN <= danger_raw <= i32::MAX,
            200 <= 250 + delta <= 300,
    ;
    let numerator = danger_raw as i64 * (250 + delta as i64);
    ((numerator + 125) / 250) as i32
}

/// Sign of the change from `prior` to `current`: -1, 0 or 1.
pub fn danger_diff_sign(current: i32, prior: i32) -> (r: i32)
    ensures
        r == (if current < prior {
            -1i32
        } else if current == prior {
            0i32
        } else {
            1i32
        }),
{
    if current < prior {
        -1
    } else if current == prior {
        0
    } else {
        1
    }
}


/// A spawn budget stays within the configured range and never rises by more than the
/// per-leg growth cap above the (clamped) prior budget.
pub proof fn lemma_budget_bounded(pp: Pp, weather: Weather, prior: Option<u32>, cfg: SpawnCfg, agg_pct: Option<i32>)
    requires
        cfg.clamp_min <= cfg.clamp_max,
    ensures
        cfg.clamp_min <= budget_enemies(pp, weather, prior, cfg, agg_pct) <= cfg.clamp_max,
        prior matches Some(p) ==> budget_enemies(pp, weather, prior, cfg, agg_pct) <= clamped(
            p as int,
            cfg.clamp_min as int,
            cfg.clamp_max as int,
        ) + cfg.growth_cap_per_leg,
{
}

/// With no prior budget, the budget is the desired count clamped to the configured range.
pub proof fn lemma_first_budget_is_desired(pp: Pp, weather: Weather, cfg: SpawnCfg, agg_pct: Option<i32>)
    requires
        cfg.clamp_min <= cfg.clamp_max,
    ensures
        budget_enemies(pp, weather, None, cfg, agg_pct) == clamped(
            if aggressive_enemies(pp, weather, cfg, agg_pct) < 0 {
                0
            } else {
                aggressive_enemies(pp, weather, cfg, agg_pct)
            },
            cfg.clamp_min as int,
            cfg.clamp_max as int,
        ),
{
}

/// A weighted choice from a non-empty table names one of its entries.
pub proof fn lemma_pick_is_entry(table: SpawnTypeTable, state: u64)
    requires
        table.names().len() > 0,
    ensures
        exists|k: int| 0 <= k < table.names().len() && table.pick(state) == #[trigger] table.names()[k],
{
    let hi = if table.total() == 0 {
        0u32
    } else {
        (table.total() - 1) as u32
    };
    let d = range_u32_result(state, 0, hi).1;
    lemma_pick_index_in_range(table.cumulative(), d);
    let k = pick_index(table.cumulative(), d);
    assert(table.pick(state) == table.names()[k]);
}

proof fn lemma_pick_index_in_range(cums: Seq<u32>, draw: u32)
    requires
        cums.len() > 0,
    ensures
        0 <= pick_index(cums, draw) < cums.len(),
    decreases cums.len(),
{
    if !(cums.len() <= 1 || draw < cums[0]) {
        lemma_pick_index_in_range(cums.drop_first(), draw);
    }
}

} // verus!
