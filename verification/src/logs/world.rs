use vstd::prelude::*;

verus! {

/// Whether the world logs are written.
#[derive(Debug, Clone, Copy, PartialEq, Eq, Structural)]
pub struct WorldLogSwitch {
    pub enabled: bool,
}

/// Turns the world logs on or off.
pub fn set_enabled(switch: &mut WorldLogSwitch, enabled: bool)
    ensures
        final(switch).enabled == enabled,
{
    switch.enabled = enabled;
}

/// Weather of a route at one moment, as logged.
#[derive(Debug, Clone)]
pub struct WeatherLogData {
    pub route_id: u16,
    pub weather: String,
    pub los_m: u32,
    pub drift_mm: u32,
    pub aggression_pct: i32,
    pub timestamp: u64,
}

/// A generated board, as logged.
#[derive(Debug, Clone)]
pub struct BoardGenLogData {
    pub link_id: u16,
    pub style: String,
    pub board_hash: u64,
    pub timestamp: u64,
}

/// Whether a weather record is to be written to `weather.jsonl`.
pub fn log_weather_state(switch: &WorldLogSwitch, data: &WeatherLogData) -> (r: bool)
    ensures
        r == switch.enabled,
{
    switch.enabled
}

/// Whether a board record is to be written to `board_gen.jsonl`.
pub fn log_board_gen(switch: &WorldLogSwitch, data: &BoardGenLogData) -> (r: bool)
    ensures
        r == switch.enabled,
{
    switch.enabled
}

} // verus!
