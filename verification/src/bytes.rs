use vstd::prelude::*;

verus! {

/// The `n` lowest bytes of `x` in little-endian order.
pub open spec fn le_bytes(x: nat, n: nat) -> Seq<u8>
    decreases n,
{
    if n == 0 {
        Seq::empty()
    } else {
        seq![(x % 256) as u8] + le_bytes(x / 256, (n - 1) as nat)
    }
}

/// Appends the `n` lowest bytes of `x` to `buf`, least significant first
/// (`to_le_bytes` for an `n`-byte integer).
pub fn push_le(buf: &mut Vec<u8>, x: u64, n: usize)
    requires
        n <= 8,
    ensures
        final(buf)@ == old(buf)@ + le_bytes(x as nat, n as nat),
{
    let mut cur = x;
    let mut i: usize = 0;
    let ghost start = buf@;
    assert(buf@ + le_bytes(cur as nat, (n - i) as nat) == start + le_bytes(x as nat, n as nat));
    while i < n
        invariant
            i <= n,
            buf@ + le_bytes(cur as nat, (n - i) as nat) == start + le_bytes(x as nat, n as nat),
        decreases n - i,
    {
        let byte = (cur & 0xFF) as u8;
        assert(byte as int == cur as int % 256) by (bit_vector)
            requires
                byte == (cur & 0xFF) as u8,
        ;
        let next = cur >> 8;
        assert(next as int == cur as int / 256) by (bit_vector)
            requires
                next == cur >> 8,
        ;
        let ghost before = buf@;
        buf.push(byte);
        assert(le_bytes(cur as nat, (n - i) as nat) == seq![byte] + le_bytes(
            next as nat,
            (n - i - 1) as nat,
        ));
        assert(buf@ + le_bytes(next as nat, (n - i - 1) as nat) == before + le_bytes(
            cur as nat,
            (n - i) as nat,
        ));
        cur = next;
        i = i + 1;
    }
}

/// Appends every byte of `src` to `buf`.
pub fn push_all(buf: &mut Vec<u8>, src: &[u8])
    ensures
        final(buf)@ == old(buf)@ + src@,
{
    let ghost start = buf@;
    let mut i: usize = 0;
    while i < src.len()
        invariant
            i <= src.len(),
            buf@ == start + src@.subrange(0, i as int),
        decreases src.len() - i,
    {
        buf.push(src[i]);
        assert(src@.subrange(0, i + 1) == src@.subrange(0, i as int).push(src@[i as int]));
        i = i + 1;
    }
    assert(src@.subrange(0, src@.len() as int) == src@);
}

/// The number whose little-endian bytes are `s` (first byte least significant).
pub open spec fn le_value(s: Seq<u8>) -> nat
    decreases s.len(),
{
    if s.len() == 0 {
        0
    } else {
        s[0] as nat + 256 * le_value(s.drop_first())
    }
}

/// `256` to the power `n`.
pub open spec fn pow256(n: nat) -> nat
    decreases n,
{
    if n == 0 {
        1
    } else {
        256 * pow256((n - 1) as nat)
    }
}

/// A little-endian value is below `256^len`.
pub proof fn lemma_le_value_bound(s: Seq<u8>)
    ensures
        le_value(s) < pow256(s.len()),
    decreases s.len(),
{
    if s.len() > 0 {
        lemma_le_value_bound(s.drop_first());
        let rest = le_value(s.drop_first());
        let p = pow256((s.len() - 1) as nat);
        assert(s[0] as nat + 256 * rest < 256 * p) by (nonlinear_arith)
            requires
                rest < p,
                s[0] < 256,
        ;
    }
}

/// The value of the first eight bytes of `bytes`, read little-endian
/// (`u64::from_le_bytes` of those bytes).
pub fn le_u64_prefix(bytes: &[u8; 32]) -> (r: u64)
    ensures
        r as nat == le_value(bytes@.take(8)),
{
    let mut seed: u64 = 0;
    let mut i: usize = 8;
    assert(bytes@.subrange(8, 8).len() == 0);
    while i > 0
        invariant
            i <= 8,
            seed as nat == le_value(bytes@.subrange(i as int, 8)),
        decreases i,
    {
        i = i - 1;
        let ghost rest = bytes@.subrange(i + 1, 8);
        proof {
            lemma_le_value_bound(rest);
            assert(pow256(rest.len()) <= 0x100_0000_0000_0000) by {
                reveal_with_fuel(pow256, 8);
            }
            assert(bytes@.subrange(i as int, 8).drop_first() =~= rest);
        }
        seed = seed * 256 + bytes[i] as u64;
    }
    assert(bytes@.subrange(0, 8) =~= bytes@.take(8));
    seed
}

} // verus!
