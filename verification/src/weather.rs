use vstd::prelude::*;
use crate::economy::types::Weather;

verus! {

/// What one kind of weather does to a leg.
#[derive(Debug, Clone, Copy, PartialEq, Eq, Structural)]
pub struct WeatherEffects {
    /// Line-of-sight distance in metres.
    pub los_m: u32,
    /// Largest sideways drift in millimetres.
    pub drift_mm: u32,
    /// Enemy aggression change in percent.
    pub agg_pct: i32,
}

/// Weather effects for each kind of weather.
#[derive(Debug, Clone, Copy, PartialEq, Eq, Structural)]
pub struct WeatherConfig {
    pub clear: WeatherEffects,
    pub rains: WeatherEffects,
    pub fog: WeatherEffects,
    pub windy: WeatherEffects,
}

impl WeatherConfig {
    /// The effects configured for `weather`.
    pub open spec fn effects(&self, weather: Weather) -> WeatherEffects {
        match weather {
            Weather::Clear => self.clear,
            Weather::Rains => self.rains,
            Weather::Fog => self.fog,
            Weather::Windy => self.windy,
        }
    }

    fn effects_of(&self, weather: Weather) -> (r: WeatherEffects)
        ensures
            r == self.effects(weather),
    {
        match weather {
            Weather::Clear => self.clear,
            Weather::Rains => self.rains,
            Weather::Fog => self.fog,
            Weather::Windy => self.windy,
        }
    }

    /// Line-of-sight distance under `weather`, in metres.
    pub fn get_los_m(&self, weather: Weather) -> (r: u32)
        ensures
            r == self.effects(weather).los_m,
    {
        self.effects_of(weather).los_m
    }

    /// Largest drift under `weather`, in millimetres.
    pub fn get_drift_mm(&self, weather: Weather) -> (r: u32)
        ensures
            r == self.effects(weather).drift_mm,
    {
        self.effects_of(weather).drift_mm
    }

    /// Aggression change under `weather`, in percent.
    pub fn get_agg_pct(&self, weather: Weather) -> (r: i32)
        ensures
            r == self.effects(weather).agg_pct,
    {
        self.effects_of(weather).agg_pct
    }
}

} // verus!
