use vstd::prelude::*;

verus! {

/// A spread or index value in basis points (10_000 bp = 100%).
#[derive(Clone, Copy, Debug, PartialEq, Eq, Structural, PartialOrd, Ord, Hash, Default)]
pub struct BasisBp(pub i32);

/// Player power.
#[derive(Clone, Copy, Debug, PartialEq, Eq, Structural, PartialOrd, Ord, Hash, Default)]
pub struct Pp(pub u16);

/// Day counter of the economy.
#[derive(Clone, Copy, Debug, PartialEq, Eq, Structural, PartialOrd, Ord, Hash, Default)]
pub struct EconomyDay(pub u32);

/// Identifier of a trading hub.
#[derive(Clone, Copy, Debug, PartialEq, Eq, Structural, PartialOrd, Ord, Hash, Default)]
pub struct HubId(pub u16);

/// Identifier of a commodity.
#[derive(Clone, Copy, Debug, PartialEq, Eq, Structural, PartialOrd, Ord, Hash, Default)]
pub struct CommodityId(pub u16);

/// Identifier of a route (link) between hubs.
#[derive(Clone, Copy, Debug, PartialEq, Eq, Structural, PartialOrd, Ord, Hash, Default)]
pub struct RouteId(pub u16);

/// Weather conditions that drive basis overlays and director tuning.
#[derive(Clone, Copy, Debug, PartialEq, Eq, Structural, Hash)]
pub enum Weather {
    Clear,
    Rains,
    Fog,
    Windy,
}

} // verus!
