use vstd::prelude::*;
use vstd::string::StringSliceAdditionalSpecFns;
use crate::bytes::{le_bytes, push_le};
use crate::economy::types::RouteId;

verus! {

/// FNV-1a 64-bit offset basis.
pub const FNV_OFFSET_BASIS: u64 = 0xcbf29ce484222325;

/// FNV-1a 64-bit prime.
pub const FNV_PRIME: u64 = 0x100000001b3;

/// One FNV-1a round: xor the byte in, then multiply by the prime modulo 2^64.
pub open spec fn fnv1a_step(hash: u64, byte: u8) -> u64 {
    vstd::wrapping::u64_specs::wrapping_mul(hash ^ (byte as u64), FNV_PRIME)
}

/// FNV-1a hash of a byte string.
pub open spec fn fnv1a(bytes: Seq<u8>) -> u64
    decreases bytes.len(),
{
    if bytes.len() == 0 {
        FNV_OFFSET_BASIS
    } else {
        fnv1a_step(fnv1a(bytes.drop_last()), bytes.last())
    }
}

/// Identifier of a mission name: FNV-1a over its UTF-8 encoding.
pub open spec fn mission_id_of(name: Seq<char>) -> u64 {
    fnv1a(vstd::utf8::encode_utf8(name))
}

/// Stable 64-bit identifier of a mission name: FNV-1a over its UTF-8 bytes.
pub fn hash_mission_name(name: &str) -> (r: u64)
    ensures
        r == mission_id_of(name@),
        r == fnv1a(name.spec_bytes()),
{
    let bytes = name.as_bytes();
    let mut hash: u64 = FNV_OFFSET_BASIS;
    let mut i: usize = 0;
    while i < bytes.len()
        invariant
            i <= bytes@.len(),
            bytes@ == name.spec_bytes(),
            hash == fnv1a(bytes@.take(i as int)),
        decreases bytes.len() - i,
    {
        assert(bytes@.take(i + 1).drop_last() == bytes@.take(i as int));
        hash = (hash ^ (bytes[i] as u64)).wrapping_mul(FNV_PRIME);
        i = i + 1;
    }
    assert(bytes@.take(bytes@.len() as int) == bytes@);
    hash
}

/// The 64-bit wyhash of `data` under `seed`.
pub uninterp spec fn wyhash_digest(data: Seq<u8>, seed: u64) -> u64;

/// `wyhash::wyhash` of the `wyhash` crate. Trusted: the hash is a function of the bytes
/// and the seed alone (named `wyhash_digest`); nothing else is claimed.
#[verifier::external_body]
fn wyhash_bytes(data: &[u8], seed: u64) -> (r: u64)
    ensures
        r == wyhash_digest(data@, seed),
{
    wyhash::wyhash(data, seed)
}

/// The 32-byte key hashed for a mission seed: world seed, link, day and mission id,
/// each as a little-endian `u64`.
pub open spec fn mission_key(world_seed: u64, link_id: RouteId, day: u32, mission_id: u64) -> Seq<u8> {
    le_bytes(world_seed as nat, 8) + le_bytes(link_id.0 as nat, 8) + le_bytes(day as nat, 8)
        + le_bytes(mission_id as nat, 8)
}

/// Seed of one mission on one link and day: wyhash (seed 0) of the mission key.
pub fn mission_seed(world_seed: u64, link_id: RouteId, day: u32, mission_id: u64) -> (r: u64)
    ensures
        r == wyhash_digest(mission_key(world_seed, link_id, day, mission_id), 0),
{
    let mut key: Vec<u8> = Vec::new();
    push_le(&mut key, world_seed, 8);
    push_le(&mut key, link_id.0 as u64, 8);
    push_le(&mut key, day as u64, 8);
    push_le(&mut key, mission_id, 8);
    wyhash_bytes(key.as_slice(), 0)
}

/// Golden-ratio increment of SplitMix64.
pub const SPLITMIX_GAMMA: u64 = 0x9E3779B97F4A7C15;

/// SplitMix64 state after one step.
pub open spec fn splitmix_advance(state: u64) -> u64 {
    vstd::wrapping::u64_specs::wrapping_add(state, SPLITMIX_GAMMA)
}

/// SplitMix64 output for an advanced state.
pub open spec fn splitmix_mix(z: u64) -> u64 {
    let z1 = vstd::wrapping::u64_specs::wrapping_mul(z ^ (z >> 30u64), 0xBF58476D1CE4E5B9u64);
    let z2 = vstd::wrapping::u64_specs::wrapping_mul(z1 ^ (z1 >> 27u64), 0x94D049BB133111EBu64);
    z2 ^ (z2 >> 31u64)
}

fn splitmix64(state: &mut u64) -> (r: u64)
    ensures
        *final(state) == splitmix_advance(*old(state)),
        r == splitmix_mix(*final(state)),
{
    *state = state.wrapping_add(SPLITMIX_GAMMA);
    let z = *state;
    let z1 = (z ^ (z >> 30u64)).wrapping_mul(0xBF58476D1CE4E5B9u64);
    let z2 = (z1 ^ (z1 >> 27u64)).wrapping_mul(0x94D049BB133111EBu64);
    z2 ^ (z2 >> 31u64)
}

/// Seed of the spawn with index `spawn_index`: one SplitMix64 step from `seed ^ index`.
pub open spec fn subseed(seed64: u64, spawn_index: u64) -> u64 {
    splitmix_mix(splitmix_advance(seed64 ^ spawn_index))
}

/// Derives the seed of one spawn from the leg seed and the spawn's index.
pub fn spawn_subseed(seed64: u64, spawn_index: u64) -> (r: u64)
    ensures
        r == subseed(seed64, spawn_index),
{
    let mut state = seed64 ^ spawn_index;
    splitmix64(&mut state)
}

/// The coin flip drawn from state `s`: the lowest bit of the next 32-bit value.
pub open spec fn coin(s: u64) -> bool {
    (splitmix_mix(splitmix_advance(s)) as u32) & 1u32 == 1u32
}

/// State and value after `range_u32(low, high)` from state `s`: no draw when the range
/// holds one value, else one SplitMix64 draw reduced modulo the range's size.
pub open spec fn range_u32_result(s: u64, low: u32, high: u32) -> (u64, u32) {
    if high == low {
        (s, low)
    } else {
        let s2 = splitmix_advance(s);
        (s2, (low + (splitmix_mix(s2) as u32) % ((high - low + 1) as u32)) as u32)
    }
}

/// Small deterministic SplitMix64 generator used by the director.
#[derive(Clone)]
pub struct DetRng {
    state: u64,
}

impl DetRng {
    /// The generator's 64-bit state.
    pub closed spec fn state(&self) -> u64 {
        self.state
    }

    /// Generator whose state is `seed`.
    pub fn from_seed(seed: u64) -> (r: Self)
        ensures
            r.state() == seed,
    {
        Self { state: seed }
    }

    /// Next 32-bit value: the low half of the next SplitMix64 output.
    pub fn next_u32(&mut self) -> (r: u32)
        ensures
            final(self).state() == splitmix_advance(old(self).state()),
            r == splitmix_mix(final(self).state()) as u32,
    {
        let out = splitmix64(&mut self.state);
        out as u32
    }

    /// Next coin flip: the lowest bit of the next 32-bit value.
    pub fn next_bool(&mut self) -> (r: bool)
        ensures
            final(self).state() == splitmix_advance(old(self).state()),
            r == ((splitmix_mix(final(self).state()) as u32) & 1u32 == 1u32),
    {
        self.next_u32() & 1 == 1
    }

    /// A value in `[low, high]`; a one-value range takes no draw.
    pub fn range_u32(&mut self, low: u32, high: u32) -> (r: u32)
        requires
            low <= high,
            high - low < u32::MAX,
        ensures
            (final(self).state(), r) == range_u32_result(old(self).state(), low, high),
            low <= r <= high,
    {
        let span = high - low;
        if span == 0 {
            return low;
        }
        let draw = self.next_u32() % (span + 1);
        low + draw
    }

    /// A value in `[low, high]`, always taking one draw.
    pub fn range_i32(&mut self, low: i32, high: i32) -> (r: i32)
        requires
            low <= high,
            high - low <= i32::MAX,
        ensures
            final(self).state() == splitmix_advance(old(self).state()),
            r == low + (splitmix_mix(final(self).state()) as u32) % ((high - low + 1) as u32),
            low <= r <= high,
    {
        let span = (high - low) as u32;
        let draw = self.next_u32() % (span + 1);
        low + draw as i32
    }

    /// A generator for the spawn with index `index`; this generator is left unchanged.
    pub fn split_for_spawn(&mut self, index: u64) -> (r: Self)
        ensures
            *final(self) == *old(self),
            r.state() == subseed(old(self).state(), index),
    {
        let seed = spawn_subseed(self.state, index);
        Self::from_seed(seed)
    }
}

} // verus!
