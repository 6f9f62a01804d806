use vstd::prelude::*;
use rand_core::{RngCore, SeedableRng};
use rand_xoshiro::Xoshiro256PlusPlus;
use crate::bounds::{clamp_i64, clamped};
use crate::bytes::{le_bytes, push_all, push_le};
use super::types::{BasisBp, EconomyDay, HubId};

verus! {

/// The xoshiro256++ generator of `rand_xoshiro`, carried as an opaque value.
#[verifier::external_type_specification]
#[verifier::external_body]
pub struct ExXoshiro256PlusPlus(Xoshiro256PlusPlus);

/// The 32-byte BLAKE3 digest of `data`.
pub uninterp spec fn blake3_digest(data: Seq<u8>) -> Seq<u8>;

/// `blake3::hash`: the BLAKE3 digest of `data`, 32 bytes long. Trusted: the digest
/// is a function of the input alone (named `blake3_digest`); nothing else is claimed.
#[verifier::external_body]
pub(crate) fn blake3_hash(data: &[u8]) -> (r: [u8; 32])
    ensures
        r@ == blake3_digest(data@),
{
    *blake3::hash(data).as_bytes()
}

/// The four 64-bit state words that a xoshiro256++ generator holds.
pub uninterp spec fn xoshiro_state(rng: Xoshiro256PlusPlus) -> Seq<u64>;

/// State words that `Xoshiro256PlusPlus::from_seed` derives from a 32-byte seed.
pub uninterp spec fn xoshiro_seeded(seed: Seq<u8>) -> Seq<u64>;

/// What `next_u32` does to a generator with the given state words: the value it
/// returns, and the state words it leaves.
pub uninterp spec fn xoshiro_next(state: Seq<u64>) -> (u32, Seq<u64>);

/// `Xoshiro256PlusPlus::from_seed` of `rand_xoshiro`. Trusted: the generator's state
/// words are a function of the seed alone (named `xoshiro_seeded`); how they are
/// derived is not stated.
#[verifier::external_body]
fn xoshiro_from_seed(seed: [u8; 32]) -> (r: Xoshiro256PlusPlus)
    ensures
        xoshiro_state(r) == xoshiro_seeded(seed@),
{
    Xoshiro256PlusPlus::from_seed(seed)
}

/// `RngCore::next_u32` of `Xoshiro256PlusPlus` (the upper half of the next 64-bit
/// output). Trusted: the value returned and the state left behind are a function of
/// the generator's state words alone (named `xoshiro_next`); the algorithm itself is
/// not stated.
#[verifier::external_body]
pub(crate) fn xoshiro_next_u32(rng: &mut Xoshiro256PlusPlus) -> (r: u32)
    ensures
        r == xoshiro_next(xoshiro_state(*old(rng))).0,
        xoshiro_state(*final(rng)) == xoshiro_next(xoshiro_state(*old(rng))).1,
{
    rng.next_u32()
}

/// State words after `n` calls of `next_u32` from state `s`.
pub open spec fn state_after(s: Seq<u64>, n: nat) -> Seq<u64>
    decreases n,
{
    if n == 0 {
        s
    } else {
        xoshiro_next(state_after(s, (n - 1) as nat)).1
    }
}

/// The `k`-th 32-bit draw (from 0) of a generator that starts in state `s`.
pub open spec fn draw_at(s: Seq<u64>, k: nat) -> u32 {
    xoshiro_next(state_after(s, k)).0
}

/// The first `n` draws of a generator that starts in state `s`.
pub open spec fn draws_from(s: Seq<u64>, n: nat) -> Seq<u32> {
    Seq::new(n, |k: int| draw_at(s, k as nat))
}

/// Taking `a` draws and then `b` more is taking `a + b` draws.
pub proof fn lemma_state_after_add(s: Seq<u64>, a: nat, b: nat)
    ensures
        state_after(state_after(s, a), b) == state_after(s, a + b),
    decreases b,
{
    if b > 0 {
        lemma_state_after_add(s, a, (b - 1) as nat);
    }
}

/// The `i`-th noise sample (mean zero, `sigma_bp`, clamped to `±|clamp_bp|`) of a
/// generator that starts in state `s` and spends six draws per sample.
pub open spec fn noise_sample(s: Seq<u64>, i: nat, sigma_bp: u32, clamp_bp: i32) -> int {
    norm_from_draws(draws_from(state_after(s, 6 * i), 6), 0, sigma_bp, clamp_bp)
}

/// The first `n` noise samples of a generator that starts in state `s`.
pub open spec fn noise_seq(s: Seq<u64>, n: nat, sigma_bp: u32, clamp_bp: i32) -> Seq<int> {
    Seq::new(n, |i: int| noise_sample(s, i as nat, sigma_bp, clamp_bp))
}

/// The domain-separation label hashed in front of every economy seed.
pub open spec fn det_rng_label() -> Seq<u8> {
    seq![100u8, 101u8, 116u8, 95u8, 114u8, 110u8, 103u8, 95u8, 118u8, 49u8]
}

/// Bytes hashed to seed an economy generator: the label, then the world seed, the
/// economy version, the hub (when there is one), the day and the tag, little-endian.
pub open spec fn seed_preimage(
    world_seed: u64,
    econ_version: u32,
    hub: Option<HubId>,
    day: EconomyDay,
    tag: u32,
) -> Seq<u8> {
    det_rng_label() + le_bytes(world_seed as nat, 8) + le_bytes(econ_version as nat, 4) + (
    match hub {
        Some(h) => le_bytes(h.0 as nat, 2),
        None => Seq::empty(),
    }) + le_bytes(day.0 as nat, 4) + le_bytes(tag as nat, 4)
}

/// Starting state of the economy generator for these inputs.
pub open spec fn econ_stream(
    world_seed: u64,
    econ_version: u32,
    hub: Option<HubId>,
    day: EconomyDay,
    tag: u32,
) -> Seq<u64> {
    xoshiro_seeded(blake3_digest(seed_preimage(world_seed, econ_version, hub, day, tag)))
}

/// `a / b` rounded toward zero, as Rust's integer division does (`b > 0`).
pub open spec fn trunc_div(a: int, b: int) -> int {
    if a >= 0 {
        a / b
    } else {
        -((-a) / b)
    }
}

/// Sum of the six centred 16-bit samples taken from `draws`.
pub open spec fn centred_sum(draws: Seq<u32>) -> int {
    (draws[0] as int % 65536 - 32768) + (draws[1] as int % 65536 - 32768) + (draws[2] as int
        % 65536 - 32768) + (draws[3] as int % 65536 - 32768) + (draws[4] as int % 65536 - 32768)
        + (draws[5] as int % 65536 - 32768)
}

/// An `i64` value in `[-2^31, 2^31]` read back as `i32` (wrapping the single value `2^31`).
pub open spec fn wrap_i32(x: int) -> int {
    if x > i32::MAX {
        x - 0x1_0000_0000
    } else {
        x
    }
}

/// Approximately normal sample built from six uniform draws (Irwin-Hall), scaled to
/// `sigma_bp`, shifted by `mu_bp` and clamped to `±|clamp_bp|`.
pub open spec fn norm_from_draws(draws: Seq<u32>, mu_bp: i32, sigma_bp: u32, clamp_bp: i32) -> int {
    let scaled = if sigma_bp == 0 {
        0
    } else {
        trunc_div(centred_sum(draws) * sigma_bp as int, 46341)
    };
    let c = if clamp_bp < 0 {
        -(clamp_bp as int)
    } else {
        clamp_bp as int
    };
    wrap_i32(clamped(mu_bp as int + scaled, -c, c))
}

/// Deterministic economy generator seeded from the world seed, version, hub, day and tag.
pub struct DetRng {
    rng: Xoshiro256PlusPlus,
    draws: u32,
    seed: Ghost<Seq<u8>>,
    drawn: Ghost<nat>,
}

impl DetRng {
    /// Number of 32-bit draws taken so far (saturating).
    pub closed spec fn draws(&self) -> u32 {
        self.draws
    }

    /// The 32-byte seed the generator was created from.
    pub closed spec fn seed(&self) -> Seq<u8> {
        self.seed@
    }

    /// The generator's current state words.
    pub closed spec fn state(&self) -> Seq<u64> {
        xoshiro_state(self.rng)
    }

    /// Number of 32-bit draws taken so far (not saturating).
    pub closed spec fn drawn(&self) -> nat {
        self.drawn@
    }

    /// The generator is where its seed puts it after `drawn()` draws.
    pub closed spec fn inv(&self) -> bool {
        self.state() == state_after(xoshiro_seeded(self.seed()), self.drawn())
    }

    /// Generator for one hub of one day.
    pub fn from_seed(world_seed: u64, econ_version: u32, hub: HubId, day: EconomyDay, tag: u32) -> (r: Self)
        ensures
            r.draws() == 0,
            r.drawn() == 0,
            r.inv(),
            r.seed() == blake3_digest(seed_preimage(world_seed, econ_version, Some(hub), day, tag)),
            r.state() == econ_stream(world_seed, econ_version, Some(hub), day, tag),
    {
        Self::from_seed_inner(world_seed, econ_version, Some(hub), day, tag)
    }

    /// Generator shared by every hub on one day.
    pub fn from_seed_global(world_seed: u64, econ_version: u32, day: EconomyDay, tag: u32) -> (r: Self)
        ensures
            r.draws() == 0,
            r.drawn() == 0,
            r.inv(),
            r.seed() == blake3_digest(seed_preimage(world_seed, econ_version, None, day, tag)),
            r.state() == econ_stream(world_seed, econ_version, None, day, tag),
    {
        Self::from_seed_inner(world_seed, econ_version, None, day, tag)
    }

    fn from_seed_inner(
        world_seed: u64,
        econ_version: u32,
        hub: Option<HubId>,
        day: EconomyDay,
        tag: u32,
    ) -> (r: Self)
        ensures
            r.draws() == 0,
            r.drawn() == 0,
            r.inv(),
            r.seed() == blake3_digest(seed_preimage(world_seed, econ_version, hub, day, tag)),
            r.state() == econ_stream(world_seed, econ_version, hub, day, tag),
    {
        let label: [u8; 10] = [100, 101, 116, 95, 114, 110, 103, 95, 118, 49];
        assert(label@ == det_rng_label());
        let mut bytes: Vec<u8> = Vec::new();
        push_all(&mut bytes, &label);
        push_le(&mut bytes, world_seed, 8);
        push_le(&mut bytes, econ_version as u64, 4);
        match hub {
            Some(h) => push_le(&mut bytes, h.0 as u64, 2),
            None => {},
        }
        push_le(&mut bytes, day.0 as u64, 4);
        push_le(&mut bytes, tag as u64, 4);
        proof {
            let hub_part = match hub {
                Some(h) => le_bytes(h.0 as nat, 2),
                None => Seq::<u8>::empty(),
            };
            assert(bytes@ == seed_preimage(world_seed, econ_version, hub, day, tag));
        }
        let digest = blake3_hash(bytes.as_slice());
        DetRng { rng: xoshiro_from_seed(digest), draws: 0, seed: Ghost(digest@), drawn: Ghost(0) }
    }

    /// Next 32-bit draw; counts the draw.
    pub fn u32(&mut self) -> (r: u32)
        ensures
            r == draw_at(old(self).state(), 0),
            final(self).state() == state_after(old(self).state(), 1),
            final(self).drawn() == old(self).drawn() + 1,
            old(self).inv() ==> final(self).inv(),
            final(self).draws() == (if old(self).draws() == u32::MAX {
                u32::MAX
            } else {
                (old(self).draws() + 1) as u32
            }),
            final(self).seed() == old(self).seed(),
    {
        self.draws = self.draws.saturating_add(1);
        let r = xoshiro_next_u32(&mut self.rng);
        proof {
            self.drawn = Ghost(self.drawn@ + 1);
        }
        assert(state_after(old(self).state(), 0) == old(self).state());
        r
    }

    /// A bounded, approximately normal sample in basis points from six draws: centred at
    /// `mu_bp`, scaled so that `sigma_bp` is about one standard deviation, clamped to
    /// `±|clamp_bp|`.
    pub fn norm_bounded_bp(&mut self, mu_bp: i32, sigma_bp: u32, clamp_bp: i32) -> (r: BasisBp)
        ensures
            r.0 as int == norm_from_draws(draws_from(old(self).state(), 6), mu_bp, sigma_bp, clamp_bp),
            final(self).state() == state_after(old(self).state(), 6),
            final(self).drawn() == old(self).drawn() + 6,
            old(self).inv() ==> final(self).inv(),
            final(self).draws() == (if old(self).draws() as int + 6 > u32::MAX {
                u32::MAX as int
            } else {
                old(self).draws() + 6
            }),
            final(self).seed() == old(self).seed(),
    {
        let mut acc: i64 = 0;
        let mut taken: Vec<u32> = Vec::new();
        let ghost start = self.draws as int;
        let mut i: usize = 0;
        while i < 6
            invariant
                i <= 6,
                taken@.len() == i,
                -32768 * (i as int) <= acc <= 32767 * (i as int),
                acc as int == (if i >= 1 { taken@[0] as int % 65536 - 32768 } else { 0 }) + (if i
                    >= 2 {
                    taken@[1] as int % 65536 - 32768
                } else {
                    0
                }) + (if i >= 3 {
                    taken@[2] as int % 65536 - 32768
                } else {
                    0
                }) + (if i >= 4 {
                    taken@[3] as int % 65536 - 32768
                } else {
                    0
                }) + (if i >= 5 {
                    taken@[4] as int % 65536 - 32768
                } else {
                    0
                }) + (if i >= 6 {
                    taken@[5] as int % 65536 - 32768
                } else {
                    0
                }),
                self.draws == (if start + i > u32::MAX {
                    u32::MAX as int
                } else {
                    start + i
                }),
                self.seed() == old(self).seed(),
                self.state() == state_after(old(self).state(), i as nat),
                taken@ == draws_from(old(self).state(), i as nat),
                self.drawn() == old(self).drawn() + i,
                old(self).inv() ==> self.inv(),
            decreases 6 - i,
        {
            let raw = self.u32();
            let low = raw & 0xFFFF;
            assert(low as int == raw as int % 65536) by (bit_vector)
                requires
                    low == raw & 0xFFFF,
            ;
            let draw = (low as i64) - 32768;
            acc = acc + draw;
            taken.push(raw);
            assert(taken@ =~= draws_from(old(self).state(), (i + 1) as nat));
            i = i + 1;
        }
        assert(acc as int == centred_sum(taken@));
        let scaled: i64 = if sigma_bp == 0 {
            0
        } else {
            assert(-196608 * 0x1_0000_0000 <= acc * (sigma_bp as i64) <= 196602 * 0x1_0000_0000)
                by (nonlinear_arith)
                requires
                    -196608 <= acc <= 196602,
                    0 <= sigma_bp <= 0xFFFF_FFFF,
            ;
            (acc * sigma_bp as i64) / 46341
        };
        let value = mu_bp as i64 + scaled;
        let clamp: i64 = if clamp_bp < 0 {
            -(clamp_bp as i64)
        } else {
            clamp_bp as i64
        };
        let clamped_value = clamp_i64(value, -clamp, clamp);
        let out = clamped_value as i32;
        assert(out as int == wrap_i32(clamped_value as int)) by (bit_vector)
            requires
                out == clamped_value as i32,
                -0x8000_0000 <= clamped_value <= 0x8000_0000,
        ;
        assert(norm_from_draws(taken@, mu_bp, sigma_bp, clamp_bp) == out as int);
        BasisBp(out)
    }

    /// Number of draws taken so far.
    pub fn cursor(&self) -> (r: u32)
        ensures
            r == self.draws(),
    {
        self.draws
    }
}

/// Economy generators are reproducible: two generators with the same seed that have
/// taken the same number of draws are in the same state, so all their later draws agree.
pub proof fn lemma_generators_reproducible(a: DetRng, b: DetRng)
    requires
        a.inv(),
        b.inv(),
        a.seed() == b.seed(),
        a.drawn() == b.drawn(),
    ensures
        a.state() == b.state(),
        forall|k: nat| #[trigger] draw_at(a.state(), k) == draw_at(b.state(), k),
{
}

} // verus!
