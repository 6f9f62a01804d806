use vstd::prelude::*;
use super::v1_1::{BasisSave, CargoSlot, CommoditySave, InventorySlot, SaveSchema, SaveV1_1};
use super::v1_2::{CargoItemSave, CargoSave, SaveV11};

verus! {

broadcast use vstd::seq_lib::group_to_multiset_ensures;

/// A saved entry with the key it is listed by.
pub trait Keyed {
    /// The entry's sort key.
    spec fn sort_key(&self) -> int;

    /// The entry's sort key.
    fn key_of(&self) -> (r: u64)
        ensures
            r as int == self.sort_key(),
    ;
}

impl Keyed for CommoditySave {
    open spec fn sort_key(&self) -> int {
        self.commodity.0 as int
    }

    fn key_of(&self) -> (r: u64) {
        self.commodity.0 as u64
    }
}

impl Keyed for BasisSave {
    open spec fn sort_key(&self) -> int {
        self.hub.0 as int * 65536 + self.commodity.0 as int
    }

    fn key_of(&self) -> (r: u64) {
        self.hub.0 as u64 * 65536 + self.commodity.0 as u64
    }
}

impl Keyed for InventorySlot {
    open spec fn sort_key(&self) -> int {
        self.commodity.0 as int
    }

    fn key_of(&self) -> (r: u64) {
        self.commodity.0 as u64
    }
}

impl Keyed for CargoItemSave {
    open spec fn sort_key(&self) -> int {
        self.commodity.0 as int
    }

    fn key_of(&self) -> (r: u64) {
        self.commodity.0 as u64
    }
}

impl Keyed for CargoSlot {
    open spec fn sort_key(&self) -> int {
        self.commodity.0 as int
    }

    fn key_of(&self) -> (r: u64) {
        self.commodity.0 as u64
    }
}

/// Keys never decrease along the sequence.
pub open spec fn sorted_by_key<T: Keyed>(s: Seq<T>) -> bool {
    forall|i: int, j: int| 0 <= i < j < s.len() ==> #[trigger] s[i].sort_key() <= #[trigger] s[j].sort_key()
}

/// The entries of `s` whose key is `k`, in order.
pub open spec fn with_key<T: Keyed>(s: Seq<T>, k: int) -> Seq<T>
    decreases s.len(),
{
    if s.len() == 0 {
        Seq::empty()
    } else if s.last().sort_key() == k {
        with_key(s.drop_last(), k).push(s.last())
    } else {
        with_key(s.drop_last(), k)
    }
}

proof fn lemma_with_key_insert<T: Keyed>(s: Seq<T>, p: int, x: T, k: int)
    requires
        0 <= p <= s.len(),
        forall|j: int| p <= j < s.len() ==> #[trigger] s[j].sort_key() > x.sort_key(),
    ensures
        with_key(s.insert(p, x), k) == (if k == x.sort_key() {
            with_key(s, k).push(x)
        } else {
            with_key(s, k)
        }),
    decreases s.len(),
{
    if p == s.len() {
        assert(s.insert(p, x) =~= s.push(x));
        assert(s.push(x).drop_last() =~= s);
    } else {
        let init = s.drop_last();
        assert forall|j: int| p <= j < init.len() implies #[trigger] init[j].sort_key() > x.sort_key() by {
            assert(init[j] == s[j]);
        }
        lemma_with_key_insert(init, p, x, k);
        assert(s.insert(p, x).drop_last() =~= init.insert(p, x));
        assert(s.insert(p, x).last() == s.last());
    }
}

/// The entries of `v` ordered by key; entries with equal keys keep their order.
pub fn sort_by_key<T: Keyed + Copy>(v: &Vec<T>) -> (r: Vec<T>)
    ensures
        sorted_by_key(r@),
        r@.to_multiset() == v@.to_multiset(),
        r@.len() == v@.len(),
        forall|k: int| #[trigger] with_key(r@, k) == with_key(v@, k),
{
    let mut out: Vec<T> = Vec::new();
    let mut i: usize = 0;
    while i < v.len()
        invariant
            i <= v@.len(),
            sorted_by_key(out@),
            out@.to_multiset() == v@.take(i as int).to_multiset(),
            out@.len() == i,
            forall|k: int| #[trigger] with_key(out@, k) == with_key(v@.take(i as int), k),
        decreases v.len() - i,
    {
        let x = v[i];
        let kx = x.key_of();
        let mut p: usize = 0;
        while p < out.len() && out[p].key_of() <= kx
            invariant
                p <= out@.len(),
                forall|j: int| 0 <= j < p ==> #[trigger] out@[j].sort_key() <= x.sort_key(),
                kx as int == x.sort_key(),
            decreases out@.len() - p,
        {
            p = p + 1;
        }
        let ghost before = out@;
        proof {
            if p < before.len() {
                assert(before[p as int].sort_key() > x.sort_key());
            }
            assert forall|j: int| p <= j < before.len() implies #[trigger] before[j].sort_key() > x.sort_key() by {
                if j > p {
                    assert(before[p as int].sort_key() <= before[j].sort_key());
                }
            }
        }
        out.insert(p, x);
        proof {
            assert(v@.take(i + 1).drop_last() =~= v@.take(i as int));
            assert forall|k: int| #[trigger] with_key(out@, k) == with_key(v@.take(i + 1), k) by {
                lemma_with_key_insert(before, p as int, x, k);
            }
        }
        assert(sorted_by_key(out@)) by {
            assert forall|a: int, b: int| 0 <= a < b < out@.len() implies #[trigger] out@[a].sort_key()
                <= #[trigger] out@[b].sort_key() by {
                if b < p {
                    assert(out@[a] == before[a]);
                    assert(out@[b] == before[b]);
                } else if b == p {
                    assert(out@[a] == before[a]);
                } else if a < p {
                    assert(out@[a] == before[a]);
                    assert(out@[b] == before[b - 1]);
                    assert(before[p as int].sort_key() > x.sort_key());
                    if b - 1 > p {
                        assert(before[p as int].sort_key() <= before[b - 1].sort_key());
                    }
                } else if a == p {
                    assert(out@[b] == before[b - 1]);
                    assert(before[p as int].sort_key() > x.sort_key());
                    if b - 1 > p {
                        assert(before[p as int].sort_key() <= before[b - 1].sort_key());
                    }
                } else {
                    assert(out@[a] == before[a - 1]);
                    assert(out@[b] == before[b - 1]);
                }
            }
        }
        assert(v@.take(i + 1) =~= v@.take(i as int).push(x));
        i = i + 1;
    }
    assert(v@.take(v@.len() as int) =~= v@);
    out
}

/// A version 1.1 save laid out for writing: schema 1.1 and every list in key order.
pub fn normalize_v1_1(snapshot: SaveV1_1) -> (r: SaveV1_1)
    ensures
        r.schema == SaveSchema::v1_1_spec(),
        sorted_by_key(r.di@) && r.di@.to_multiset() == snapshot.di@.to_multiset(),
        sorted_by_key(r.basis@) && r.basis@.to_multiset() == snapshot.basis@.to_multiset(),
        sorted_by_key(r.inventory@) && r.inventory@.to_multiset() == snapshot.inventory@.to_multiset(),
        sorted_by_key(r.cargo.manifest@) && r.cargo.manifest@.to_multiset()
            == snapshot.cargo.manifest@.to_multiset(),
        forall|k: int| #[trigger] with_key(r.di@, k) == with_key(snapshot.di@, k),
        forall|k: int| #[trigger] with_key(r.basis@, k) == with_key(snapshot.basis@, k),
        forall|k: int| #[trigger] with_key(r.inventory@, k) == with_key(snapshot.inventory@, k),
        forall|k: int| #[trigger] with_key(r.cargo.manifest@, k) == with_key(snapshot.cargo.manifest@, k),
        r.econ_version == snapshot.econ_version && r.world_seed == snapshot.world_seed && r.day
            == snapshot.day,
        r.di_overlay_bp == snapshot.di_overlay_bp && r.pp == snapshot.pp && r.rot == snapshot.rot,
        r.debt_cents == snapshot.debt_cents && r.wallet_cents == snapshot.wallet_cents,
        r.pending_planting == snapshot.pending_planting && r.rng_cursors == snapshot.rng_cursors,
        r.last_hub == snapshot.last_hub && r.last_clamp_hit == snapshot.last_clamp_hit,
        r.cargo.capacity_total == snapshot.cargo.capacity_total && r.cargo.capacity_used
            == snapshot.cargo.capacity_used,
        r.cargo.mass_capacity_total == snapshot.cargo.mass_capacity_total
            && r.cargo.mass_capacity_used == snapshot.cargo.mass_capacity_used,
{
    let di = sort_by_key(&snapshot.di);
    let basis = sort_by_key(&snapshot.basis);
    let inventory = sort_by_key(&snapshot.inventory);
    let manifest = sort_by_key(&snapshot.cargo.manifest);
    let mut out = snapshot;
    out.schema = SaveSchema::v1_1();
    out.di = di;
    out.basis = basis;
    out.inventory = inventory;
    out.cargo.manifest = manifest;
    out
}

/// A version 1.1 layout save laid out for writing: every list in key order.
pub fn normalize_v11(snapshot: SaveV11) -> (r: SaveV11)
    ensures
        sorted_by_key(r.di@) && r.di@.to_multiset() == snapshot.di@.to_multiset(),
        sorted_by_key(r.basis@) && r.basis@.to_multiset() == snapshot.basis@.to_multiset(),
        sorted_by_key(r.inventory@) && r.inventory@.to_multiset() == snapshot.inventory@.to_multiset(),
        sorted_by_key(r.cargo.items@) && r.cargo.items@.to_multiset() == snapshot.cargo.items@.to_multiset(),
        forall|k: int| #[trigger] with_key(r.di@, k) == with_key(snapshot.di@, k),
        forall|k: int| #[trigger] with_key(r.basis@, k) == with_key(snapshot.basis@, k),
        forall|k: int| #[trigger] with_key(r.inventory@, k) == with_key(snapshot.inventory@, k),
        forall|k: int| #[trigger] with_key(r.cargo.items@, k) == with_key(snapshot.cargo.items@, k),
        r.econ_version == snapshot.econ_version && r.world_seed == snapshot.world_seed && r.day
            == snapshot.day && r.last_hub == snapshot.last_hub,
        r.di_overlay_bp == snapshot.di_overlay_bp && r.pp == snapshot.pp && r.rot == snapshot.rot,
        r.debt_cents == snapshot.debt_cents && r.wallet_cents == snapshot.wallet_cents,
        r.pending_planting == snapshot.pending_planting && r.rng_cursors == snapshot.rng_cursors,
        r.cargo.capacity_mass_kg == snapshot.cargo.capacity_mass_kg && r.cargo.capacity_volume_l
            == snapshot.cargo.capacity_volume_l,
{
    let di = sort_by_key(&snapshot.di);
    let basis = sort_by_key(&snapshot.basis);
    let inventory = sort_by_key(&snapshot.inventory);
    let items = sort_by_key(&snapshot.cargo.items);
    let mut out = snapshot;
    out.di = di;
    out.basis = basis;
    out.inventory = inventory;
    out.cargo = CargoSave {
        capacity_mass_kg: out.cargo.capacity_mass_kg,
        capacity_volume_l: out.cargo.capacity_volume_l,
        items,
    };
    out
}

} // verus!
