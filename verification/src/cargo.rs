use vstd::prelude::*;
use crate::economy::types::CommodityId;

verus! {

/// Units of one commodity held.
#[derive(Clone, Copy, Debug, PartialEq, Eq, Structural)]
pub struct UnitEntry {
    pub commodity: CommodityId,
    pub units: u32,
}

/// Commodities strictly increase along the sequence (so none occurs twice).
pub open spec fn sorted_units(s: Seq<UnitEntry>) -> bool {
    forall|i: int, j: int| 0 <= i < j < s.len() ==> #[trigger] s[i].commodity.0 < #[trigger] s[j].commodity.0
}

/// `s` with commodity `c` set to `u`: an existing entry is overwritten in place,
/// otherwise the entry goes before the first larger commodity.
pub open spec fn units_insert(s: Seq<UnitEntry>, c: CommodityId, u: u32) -> Seq<UnitEntry>
    decreases s.len(),
{
    if s.len() == 0 {
        seq![UnitEntry { commodity: c, units: u }]
    } else if s[0].commodity.0 == c.0 {
        seq![UnitEntry { commodity: c, units: u }] + s.drop_first()
    } else if s[0].commodity.0 > c.0 {
        seq![UnitEntry { commodity: c, units: u }] + s
    } else {
        seq![s[0]] + units_insert(s.drop_first(), c, u)
    }
}

/// `s` after setting each entry of `items` in order, starting from `s`.
pub open spec fn units_insert_all(s: Seq<UnitEntry>, items: Seq<UnitEntry>) -> Seq<UnitEntry>
    decreases items.len(),
{
    if items.len() == 0 {
        s
    } else {
        let prev = units_insert_all(s, items.drop_last());
        units_insert(prev, items.last().commodity, items.last().units)
    }
}

/// The units held of commodity `c`, if any.
pub open spec fn units_of(s: Seq<UnitEntry>, c: CommodityId) -> Option<u32>
    decreases s.len(),
{
    if s.len() == 0 {
        None
    } else if s[0].commodity.0 == c.0 {
        Some(s[0].units)
    } else {
        units_of(s.drop_first(), c)
    }
}

proof fn lemma_units_insert_at(s: Seq<UnitEntry>, c: CommodityId, u: u32, p: int)
    requires
        sorted_units(s),
        0 <= p <= s.len(),
        forall|j: int| 0 <= j < p ==> #[trigger] s[j].commodity.0 < c.0,
        p < s.len() ==> s[p].commodity.0 >= c.0,
    ensures
        units_insert(s, c, u) == (if p < s.len() && s[p].commodity.0 == c.0 {
            s.update(p, UnitEntry { commodity: c, units: u })
        } else {
            s.insert(p, UnitEntry { commodity: c, units: u })
        }),
    decreases s.len(),
{
    if s.len() == 0 {
        assert(s.insert(0, UnitEntry { commodity: c, units: u }) =~= seq![UnitEntry { commodity: c, units: u }]);
    } else if p == 0 {
        if s[0].commodity.0 == c.0 {
            assert(s.update(0, UnitEntry { commodity: c, units: u }) =~= seq![UnitEntry { commodity: c, units: u }]
                + s.drop_first());
        } else {
            assert(s.insert(0, UnitEntry { commodity: c, units: u }) =~= seq![UnitEntry { commodity: c, units: u }] + s);
        }
    } else {
        let t = s.drop_first();
        assert forall|j: int| 0 <= j < p - 1 implies #[trigger] t[j].commodity.0 < c.0 by {
            assert(t[j] == s[j + 1]);
        }
        assert forall|i: int, j: int| 0 <= i < j < t.len() implies #[trigger] t[i].commodity.0
            < #[trigger] t[j].commodity.0 by {
            assert(t[i] == s[i + 1]);
            assert(t[j] == s[j + 1]);
        }
        lemma_units_insert_at(t, c, u, p - 1);
        if p < s.len() && s[p].commodity.0 == c.0 {
            assert(seq![s[0]] + t.update(p - 1, UnitEntry { commodity: c, units: u }) =~= s.update(
                p,
                UnitEntry { commodity: c, units: u },
            ));
        } else {
            assert(seq![s[0]] + t.insert(p - 1, UnitEntry { commodity: c, units: u }) =~= s.insert(
                p,
                UnitEntry { commodity: c, units: u },
            ));
        }
    }
}

/// Setting a commodity larger than every held one appends it.
pub proof fn lemma_units_insert_last(s: Seq<UnitEntry>, e: UnitEntry)
    requires
        forall|j: int| 0 <= j < s.len() ==> #[trigger] s[j].commodity.0 < e.commodity.0,
    ensures
        units_insert(s, e.commodity, e.units) == s.push(e),
    decreases s.len(),
{
    if s.len() > 0 {
        let t = s.drop_first();
        assert forall|j: int| 0 <= j < t.len() implies #[trigger] t[j].commodity.0 < e.commodity.0 by {
            assert(t[j] == s[j + 1]);
        }
        lemma_units_insert_last(t, e);
        assert(seq![s[0]] + t.push(e) =~= s.push(e));
    } else {
        assert(seq![e] =~= s.push(e));
    }
}

/// Setting the entries of a sorted sequence one by one into an empty table rebuilds it.
pub proof fn lemma_units_rebuild(items: Seq<UnitEntry>)
    requires
        sorted_units(items),
    ensures
        units_insert_all(Seq::empty(), items) == items,
    decreases items.len(),
{
    if items.len() > 0 {
        let init = items.drop_last();
        assert forall|i: int, j: int| 0 <= i < j < init.len() implies #[trigger] init[i].commodity.0
            < #[trigger] init[j].commodity.0 by {
        }
        lemma_units_rebuild(init);
        lemma_units_insert_last(init, items.last());
        assert(init.push(items.last()) =~= items);
    }
}

/// Units held per commodity, kept sorted by commodity.
#[derive(Clone, Debug)]
pub struct UnitTable {
    entries: Vec<UnitEntry>,
}

impl View for UnitTable {
    type V = Seq<UnitEntry>;

    closed spec fn view(&self) -> Seq<UnitEntry> {
        self.entries@
    }
}

impl UnitTable {
    /// The entries are sorted by strictly increasing commodity.
    pub closed spec fn wf(&self) -> bool {
        sorted_units(self.entries@)
    }

    /// Whether the commodities strictly increase.
    pub fn check_wf(&self) -> (r: bool)
        ensures
            r == self.wf(),
    {
        let n = self.entries.len();
        if n == 0 {
            return true;
        }
        let mut i: usize = 1;
        while i < n
            invariant
                1 <= i <= n,
                n == self.entries@.len(),
                forall|a: int, b: int| 0 <= a < b < i ==> #[trigger] self.entries@[a].commodity.0
                    < #[trigger] self.entries@[b].commodity.0,
            decreases n - i,
        {
            if self.entries[i - 1].commodity.0 >= self.entries[i].commodity.0 {
                return false;
            }
            assert forall|a: int, b: int| 0 <= a < b < i + 1 implies #[trigger] self.entries@[a].commodity.0
                < #[trigger] self.entries@[b].commodity.0 by {
                if b == i && a < i - 1 {
                    assert(self.entries@[a].commodity.0 < self.entries@[i - 1].commodity.0);
                }
            }
            i = i + 1;
        }
        true
    }

    /// A well-formed table's entries are sorted by commodity.
    pub proof fn lemma_wf(&self)
        requires
            self.wf(),
        ensures
            sorted_units(self@),
    {
    }

    /// An empty table.
    pub fn new() -> (r: Self)
        ensures
            r.wf(),
            r@ == Seq::<UnitEntry>::empty(),
    {
        UnitTable { entries: Vec::new() }
    }

    /// Number of commodities held.
    pub fn len(&self) -> (r: usize)
        ensures
            r == self@.len(),
    {
        self.entries.len()
    }

    /// The entries in commodity order.
    pub fn to_vec(&self) -> (r: Vec<UnitEntry>)
        ensures
            r@ == self@,
    {
        let r = self.entries.clone();
        assert(r@ =~= self.entries@);
        r
    }

    /// Forgets every entry.
    pub fn clear(&mut self)
        ensures
            final(self).wf(),
            final(self)@ == Seq::<UnitEntry>::empty(),
    {
        self.entries = Vec::new();
    }

    /// The units held of `c`, if any.
    pub fn get(&self, c: CommodityId) -> (r: Option<u32>)
        requires
            self.wf(),
        ensures
            r == units_of(self@, c),
    {
        let mut i: usize = 0;
        assert(self.entries@.skip(0) == self.entries@);
        while i < self.entries.len()
            invariant
                i <= self.entries@.len(),
                units_of(self.entries@, c) == units_of(self.entries@.skip(i as int), c),
            decreases self.entries.len() - i,
        {
            assert(self.entries@.skip(i as int).drop_first() == self.entries@.skip(i + 1));
            if self.entries[i].commodity.0 == c.0 {
                return Some(self.entries[i].units);
            }
            i = i + 1;
        }
        None
    }

    /// Sets the units held of `c` to `units`, keeping the table sorted.
    pub fn set_units(&mut self, c: CommodityId, units: u32)
        requires
            old(self).wf(),
        ensures
            final(self).wf(),
            final(self)@ == units_insert(old(self)@, c, units),
    {
        let mut p: usize = 0;
        while p < self.entries.len() && self.entries[p].commodity.0 < c.0
            invariant
                p <= self.entries@.len(),
                forall|j: int| 0 <= j < p ==> #[trigger] self.entries@[j].commodity.0 < c.0,
            decreases self.entries@.len() - p,
        {
            p = p + 1;
        }
        let e = UnitEntry { commodity: c, units };
        proof {
            lemma_units_insert_at(self.entries@, c, units, p as int);
        }
        if p < self.entries.len() && self.entries[p].commodity.0 == c.0 {
            self.entries.set(p, e);
        } else {
            self.entries.insert(p, e);
        }
        assert(sorted_units(self.entries@)) by {
            assert forall|i: int, j: int| 0 <= i < j < self.entries@.len() implies #[trigger] self.entries@[i].commodity.0
                < #[trigger] self.entries@[j].commodity.0 by {
                let s = old(self).entries@;
                if !(p < s.len() && s[p as int].commodity.0 == c.0) {
                    if j < p {
                    } else if j == p {
                        assert(self.entries@[i] == s[i]);
                    } else if i < p {
                        assert(self.entries@[j] == s[j - 1]);
                    } else if i == p {
                        assert(self.entries@[j] == s[j - 1]);
                    } else {
                        assert(self.entries@[i] == s[i - 1]);
                        assert(self.entries@[j] == s[j - 1]);
                    }
                }
            }
        }
    }

    /// Sets each entry of `items`, in order (a later entry for a commodity wins).
    pub fn set_all(&mut self, items: &Vec<UnitEntry>)
        requires
            old(self).wf(),
        ensures
            final(self).wf(),
            final(self)@ == units_insert_all(old(self)@, items@),
    {
        let ghost start = self@;
        let mut i: usize = 0;
        while i < items.len()
            invariant
                i <= items@.len(),
                self.wf(),
                self@ == units_insert_all(start, items@.take(i as int)),
            decreases items.len() - i,
        {
            assert(items@.take(i + 1).drop_last() == items@.take(i as int));
            self.set_units(items[i].commodity, items[i].units);
            i = i + 1;
        }
        assert(items@.take(items@.len() as int) == items@);
    }
}

/// Cargo carried between hubs: mass and volume capacity and units per commodity.
#[derive(Clone, Debug)]
pub struct Cargo {
    pub capacity_mass_kg: u32,
    pub capacity_volume_l: u32,
    pub items: UnitTable,
}

impl Cargo {
    /// The units table is sorted.
    pub open spec fn wf(&self) -> bool {
        self.items.wf()
    }
}

impl Default for Cargo {
    fn default() -> (r: Self)
        ensures
            r.wf(),
            r.capacity_mass_kg == 0,
            r.capacity_volume_l == 0,
            r.items@.len() == 0,
    {
        Cargo { capacity_mass_kg: 0, capacity_volume_l: 0, items: UnitTable::new() }
    }
}

/// A cargo hold with total and used capacity, by volume and by mass.
#[derive(Clone, Debug)]
pub struct CargoHold {
    pub capacity_total: u32,
    pub capacity_used: u32,
    pub mass_capacity_total: u32,
    pub mass_capacity_used: u32,
    pub units: UnitTable,
}

impl CargoHold {
    /// The units table is sorted.
    pub open spec fn wf(&self) -> bool {
        self.units.wf()
    }

    /// An empty hold with no capacity.
    pub fn new() -> (r: Self)
        ensures
            r.wf(),
            r.capacity_total == 0 && r.capacity_used == 0 && r.mass_capacity_total == 0
                && r.mass_capacity_used == 0,
            r.units@.len() == 0,
    {
        CargoHold {
            capacity_total: 0,
            capacity_used: 0,
            mass_capacity_total: 0,
            mass_capacity_used: 0,
            units: UnitTable::new(),
        }
    }

    /// Empties the hold: capacities go to zero and every unit is dropped.
    pub fn clear(&mut self)
        ensures
            final(self).wf(),
            final(self).capacity_total == 0 && final(self).capacity_used == 0
                && final(self).mass_capacity_total == 0 && final(self).mass_capacity_used == 0,
            final(self).units@.len() == 0,
    {
        self.capacity_total = 0;
        self.capacity_used = 0;
        self.mass_capacity_total = 0;
        self.mass_capacity_used = 0;
        self.units.clear();
    }

    /// Sets the units held of `commodity`.
    pub fn set_units(&mut self, commodity: CommodityId, units: u32)
        requires
            old(self).wf(),
        ensures
            final(self).wf(),
            final(self).units@ == units_insert(old(self).units@, commodity, units),
            final(self).capacity_total == old(self).capacity_total,
            final(self).capacity_used == old(self).capacity_used,
            final(self).mass_capacity_total == old(self).mass_capacity_total,
            final(self).mass_capacity_used == old(self).mass_capacity_used,
    {
        self.units.set_units(commodity, units);
    }

    /// The units held, in commodity order.
    pub fn manifest_snapshot(&self) -> (r: Vec<UnitEntry>)
        ensures
            r@ == self.units@,
    {
        self.units.to_vec()
    }
}

} // verus!
