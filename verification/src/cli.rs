use vstd::prelude::*;
use crate::economy::types::Weather;

verus! {

/// Weather as given on the command line.
#[derive(Debug, Clone, Copy, PartialEq, Eq, Structural)]
pub enum WeatherArg {
    Clear,
    Rains,
    Fog,
    Windy,
}

/// What the game binary does: play, record a leg or replay a recording.
#[derive(Debug, Clone, Copy, PartialEq, Eq, Structural)]
pub enum Mode {
    Play,
    Record,
    Replay,
}

/// The weather a command-line weather names.
pub open spec fn weather_of_arg(value: WeatherArg) -> Weather {
    match value {
        WeatherArg::Clear => Weather::Clear,
        WeatherArg::Rains => Weather::Rains,
        WeatherArg::Fog => Weather::Fog,
        WeatherArg::Windy => Weather::Windy,
    }
}

impl From<WeatherArg> for Weather {
    fn from(value: WeatherArg) -> (r: Self) {
        match value {
            WeatherArg::Clear => Weather::Clear,
            WeatherArg::Rains => Weather::Rains,
            WeatherArg::Fog => Weather::Fog,
            WeatherArg::Windy => Weather::Windy,
        }
    }
}

impl vstd::std_specs::convert::FromSpecImpl<WeatherArg> for Weather {
    open spec fn obeys_from_spec() -> bool {
        true
    }

    open spec fn from_spec(v: WeatherArg) -> Self {
        weather_of_arg(v)
    }
}

} // verus!
