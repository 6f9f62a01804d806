use vstd::prelude::*;
use rand_core::SeedableRng;
use rand_xoshiro::Xoshiro256PlusPlus;
use crate::bytes::{le_bytes, le_u64_prefix, le_value, push_le};
use crate::economy::rng::{blake3_digest, blake3_hash, xoshiro_next, xoshiro_next_u32, xoshiro_state};
use crate::economy::types::Weather;
use crate::weather::WeatherConfig;

verus! {

/// State words that `Xoshiro256PlusPlus::seed_from_u64` derives from a 64-bit seed.
pub uninterp spec fn xoshiro_seeded_u64(seed: u64) -> Seq<u64>;

/// `SeedableRng::seed_from_u64` of `Xoshiro256PlusPlus`. Trusted: the generator's state
/// words are a function of the seed alone (named `xoshiro_seeded_u64`); how they are
/// derived is not stated.
#[verifier::external_body]
fn xoshiro_seed_from_u64(seed: u64) -> (r: Xoshiro256PlusPlus)
    ensures
        xoshiro_state(r) == xoshiro_seeded_u64(seed),
{
    Xoshiro256PlusPlus::seed_from_u64(seed)
}

/// The byte that stands for a weather kind in drift seeds.
pub open spec fn weather_code(weather: Weather) -> u8 {
    match weather {
        Weather::Clear => 0,
        Weather::Rains => 1,
        Weather::Fog => 2,
        Weather::Windy => 3,
    }
}

fn weather_byte(weather: Weather) -> (r: u8)
    ensures
        r == weather_code(weather),
{
    match weather {
        Weather::Clear => 0,
        Weather::Rains => 1,
        Weather::Fog => 2,
        Weather::Windy => 3,
    }
}

/// Bytes hashed to seed the drift generator: the weather, the tick (little-endian) and
/// a fixed salt.
pub open spec fn drift_preimage(weather: Weather, tick: u64) -> Seq<u8> {
    seq![weather_code(weather)] + le_bytes(tick as nat, 8) + seq![1u8, 2u8, 3u8, 4u8]
}

/// The 32-bit draw behind the drift at `tick` under `weather`: the first draw of a
/// generator seeded with the first eight bytes (little-endian) of the BLAKE3 hash of
/// `drift_preimage`.
pub open spec fn drift_draw(weather: Weather, tick: u64) -> u32 {
    xoshiro_next(
        xoshiro_seeded_u64(le_value(blake3_digest(drift_preimage(weather, tick)).take(8)) as u64),
    ).0
}

/// The offset in `[-drift, drift]` that the 32-bit draw `v` selects.
pub open spec fn drift_from_draw(v: u32, drift: u32) -> int {
    (v as int) % (2 * drift + 1) - drift
}

/// The drift arithmetic stays within `i32` for this weather and tick: the drift is
/// below `2^31`, and either below `2^30` or the draw it selects leaves an unsigned
/// offset below `2^31`.
pub open spec fn drift_fits(weather: Weather, config: WeatherConfig, tick: u64) -> bool {
    let d = config.effects(weather).drift_mm;
    &&& d < 0x8000_0000
    &&& (d < 0x4000_0000 || (drift_draw(weather, tick) as int) % (2 * d + 1) < 0x8000_0000)
}

fn drift_draw_value(weather: Weather, tick: u64) -> (r: u32)
    ensures
        r == drift_draw(weather, tick),
{
    let mut seed_bytes: Vec<u8> = Vec::new();
    seed_bytes.push(weather_byte(weather));
    push_le(&mut seed_bytes, tick, 8);
    seed_bytes.push(1);
    seed_bytes.push(2);
    seed_bytes.push(3);
    seed_bytes.push(4);
    assert(seed_bytes@ =~= drift_preimage(weather, tick));
    let hash = blake3_hash(seed_bytes.as_slice());
    let seed = le_u64_prefix(&hash);
    let mut rng = xoshiro_seed_from_u64(seed);
    xoshiro_next_u32(&mut rng)
}

/// Sideways drift at `tick` under `weather`, in millimetres: 0 when the weather has no
/// drift, else a value in `[-drift, drift]` drawn from a generator seeded with the BLAKE3
/// hash of the weather, the tick and a fixed salt.
pub fn get_drift_offset_mm(weather: Weather, config: &WeatherConfig, tick: u64, route_id: Option<u16>) -> (r: i32)
    requires
        drift_fits(weather, *config, tick),
    ensures
        config.effects(weather).drift_mm == 0 ==> r == 0,
        config.effects(weather).drift_mm > 0 ==> r as int == drift_from_draw(
            drift_draw(weather, tick),
            config.effects(weather).drift_mm,
        ),
        -(config.effects(weather).drift_mm as int) <= r <= config.effects(weather).drift_mm,
{
    let drift_amount = config.get_drift_mm(weather) as i32;
    if drift_amount == 0 {
        return 0;
    }
    let draw = drift_draw_value(weather, tick);
    let span = drift_amount as u32 * 2 + 1;
    let unsigned_offset = (draw % span) as i32;
    assert((unsigned_offset - drift_amount) as int == drift_from_draw(draw, config.effects(weather).drift_mm));
    unsigned_offset - drift_amount
}

/// The drift at `tick` under `weather` where its arithmetic stays within `i32`
/// (`drift_fits`), else `None`.
pub fn try_drift_offset_mm(weather: Weather, config: &WeatherConfig, tick: u64, route_id: Option<u16>) -> (r: Option<i32>)
    ensures
        r is Some <==> drift_fits(weather, *config, tick),
        r matches Some(v) ==> {
            &&& config.effects(weather).drift_mm == 0 ==> v == 0
            &&& config.effects(weather).drift_mm > 0 ==> v as int == drift_from_draw(
                drift_draw(weather, tick),
                config.effects(weather).drift_mm,
            )
        },
{
    let d = config.get_drift_mm(weather);
    if d >= 0x8000_0000 {
        return None;
    }
    if d >= 0x4000_0000 {
        let draw = drift_draw_value(weather, tick);
        if draw % (2 * d + 1) >= 0x8000_0000 {
            return None;
        }
    }
    Some(get_drift_offset_mm(weather, config, tick, route_id))
}

/// Line-of-sight distance under `weather`, in metres.
pub fn get_los_distance_m(weather: Weather, config: &WeatherConfig, route_id: Option<u16>) -> (r: u32)
    ensures
        r == config.effects(weather).los_m,
{
    config.get_los_m(weather)
}

} // verus!
