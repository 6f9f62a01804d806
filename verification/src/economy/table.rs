use vstd::prelude::*;
use super::types::BasisBp;

verus! {

/// One keyed basis-point value.
#[derive(Clone, Copy, Debug, PartialEq, Eq, Structural)]
pub struct BpEntry {
    pub key: u32,
    pub value: BasisBp,
}

/// Keys strictly increase along the sequence (so no key occurs twice).
pub open spec fn sorted_keys(s: Seq<BpEntry>) -> bool {
    forall|i: int, j: int| 0 <= i < j < s.len() ==> #[trigger] s[i].key < #[trigger] s[j].key
}

/// The value stored under `k`, found at the first entry with that key.
pub open spec fn lookup(s: Seq<BpEntry>, k: u32) -> Option<BasisBp>
    decreases s.len(),
{
    if s.len() == 0 {
        None
    } else if s[0].key == k {
        Some(s[0].value)
    } else {
        lookup(s.drop_first(), k)
    }
}

/// `s` with `k` set to `v`: an existing entry is overwritten in place, otherwise the
/// entry goes before the first larger key.
pub open spec fn insert_sorted(s: Seq<BpEntry>, k: u32, v: BasisBp) -> Seq<BpEntry>
    decreases s.len(),
{
    if s.len() == 0 {
        seq![BpEntry { key: k, value: v }]
    } else if s[0].key == k {
        seq![BpEntry { key: k, value: v }] + s.drop_first()
    } else if s[0].key > k {
        seq![BpEntry { key: k, value: v }] + s
    } else {
        seq![s[0]] + insert_sorted(s.drop_first(), k, v)
    }
}

/// The keys of `s`, in order.
pub open spec fn keys_of(s: Seq<BpEntry>) -> Seq<u32> {
    s.map_values(|e: BpEntry| e.key)
}

/// `p` is where `k` belongs in the sorted `s`: every earlier key is smaller.
pub open spec fn is_slot(s: Seq<BpEntry>, k: u32, p: int) -> bool {
    &&& 0 <= p <= s.len()
    &&& forall|j: int| 0 <= j < p ==> #[trigger] s[j].key < k
    &&& p < s.len() ==> s[p].key >= k
}

proof fn lemma_insert_at_slot(s: Seq<BpEntry>, k: u32, v: BasisBp, p: int)
    requires
        sorted_keys(s),
        is_slot(s, k, p),
    ensures
        insert_sorted(s, k, v) == (if p < s.len() && s[p].key == k {
            s.update(p, BpEntry { key: k, value: v })
        } else {
            s.insert(p, BpEntry { key: k, value: v })
        }),
    decreases s.len(),
{
    let e = BpEntry { key: k, value: v };
    if s.len() == 0 {
        assert(s.insert(p, e) == seq![e]);
    } else if p == 0 {
        if s[0].key == k {
            assert(s.update(0, e) == seq![e] + s.drop_first());
        } else {
            assert(s.insert(0, e) == seq![e] + s);
        }
    } else {
        let t = s.drop_first();
        assert(sorted_keys(t));
        assert(is_slot(t, k, p - 1)) by {
            assert forall|j: int| 0 <= j < p - 1 implies #[trigger] t[j].key < k by {
                assert(t[j] == s[j + 1]);
            }
        }
        lemma_insert_at_slot(t, k, v, p - 1);
        assert(s[0].key < k);
        if p < s.len() && s[p].key == k {
            assert(seq![s[0]] + t.update(p - 1, e) == s.update(p, e));
        } else {
            assert(seq![s[0]] + t.insert(p - 1, e) == s.insert(p, e));
        }
    }
}

proof fn lemma_lookup_at_slot(s: Seq<BpEntry>, k: u32, p: int)
    requires
        sorted_keys(s),
        is_slot(s, k, p),
    ensures
        lookup(s, k) == (if p < s.len() && s[p].key == k {
            Some(s[p].value)
        } else {
            None::<BasisBp>
        }),
    decreases s.len(),
{
    if s.len() == 0 {
    } else if p == 0 {
        if s[0].key != k {
            // every key is at least s[0].key > k
            lemma_lookup_absent(s.drop_first(), k);
        }
    } else {
        let t = s.drop_first();
        assert(is_slot(t, k, p - 1)) by {
            assert forall|j: int| 0 <= j < p - 1 implies #[trigger] t[j].key < k by {
                assert(t[j] == s[j + 1]);
            }
        }
        lemma_lookup_at_slot(t, k, p - 1);
    }
}

proof fn lemma_lookup_absent(s: Seq<BpEntry>, k: u32)
    requires
        forall|j: int| 0 <= j < s.len() ==> #[trigger] s[j].key != k,
    ensures
        lookup(s, k) == None::<BasisBp>,
    decreases s.len(),
{
    if s.len() > 0 {
        let t = s.drop_first();
        assert forall|j: int| 0 <= j < t.len() implies #[trigger] t[j].key != k by {
            assert(t[j] == s[j + 1]);
        }
        lemma_lookup_absent(t, k);
    }
}

/// Writing `v` under `k` and then reading `k` gives `v`; every other key reads as before.
pub proof fn lemma_lookup_after_insert(s: Seq<BpEntry>, k: u32, v: BasisBp, k2: u32)
    ensures
        lookup(insert_sorted(s, k, v), k2) == (if k2 == k {
            Some(v)
        } else {
            lookup(s, k2)
        }),
    decreases s.len(),
{
    let e = BpEntry { key: k, value: v };
    let r = insert_sorted(s, k, v);
    reveal_with_fuel(lookup, 2);
    if s.len() == 0 {
        assert(r == seq![e]);
        assert(r[0] == e);
        assert(r.drop_first().len() == 0);
    } else if s[0].key == k {
        assert(r[0] == e);
        assert(r.drop_first() == s.drop_first());
        if k2 != k {
            assert(lookup(s, k2) == lookup(s.drop_first(), k2));
        }
    } else if s[0].key > k {
        assert(r[0] == e);
        assert(r.drop_first() == s);
    } else {
        assert(r[0] == s[0]);
        assert(r.drop_first() == insert_sorted(s.drop_first(), k, v));
        lemma_lookup_after_insert(s.drop_first(), k, v, k2);
    }
}

/// `s` after setting each entry of `entries` in order.
pub open spec fn insert_all_sorted(s: Seq<BpEntry>, entries: Seq<BpEntry>) -> Seq<BpEntry>
    decreases entries.len(),
{
    if entries.len() == 0 {
        s
    } else {
        let prev = insert_all_sorted(s, entries.drop_last());
        insert_sorted(prev, entries.last().key, entries.last().value)
    }
}

/// Setting a key larger than every present one appends it.
pub proof fn lemma_insert_sorted_last(s: Seq<BpEntry>, e: BpEntry)
    requires
        forall|j: int| 0 <= j < s.len() ==> #[trigger] s[j].key < e.key,
    ensures
        insert_sorted(s, e.key, e.value) == s.push(e),
    decreases s.len(),
{
    if s.len() > 0 {
        let t = s.drop_first();
        assert forall|j: int| 0 <= j < t.len() implies #[trigger] t[j].key < e.key by {
            assert(t[j] == s[j + 1]);
        }
        lemma_insert_sorted_last(t, e);
        assert(seq![s[0]] + t.push(e) =~= s.push(e));
    } else {
        assert(seq![BpEntry { key: e.key, value: e.value }] =~= s.push(e));
    }
}

/// Setting the entries of a sorted sequence one by one into an empty table rebuilds it.
pub proof fn lemma_rebuild_sorted(entries: Seq<BpEntry>)
    requires
        sorted_keys(entries),
    ensures
        insert_all_sorted(Seq::empty(), entries) == entries,
    decreases entries.len(),
{
    if entries.len() > 0 {
        let init = entries.drop_last();
        assert forall|i: int, j: int| 0 <= i < j < init.len() implies #[trigger] init[i].key
            < #[trigger] init[j].key by {
        }
        lemma_rebuild_sorted(init);
        lemma_insert_sorted_last(init, entries.last());
        assert(init.push(entries.last()) =~= entries);
    }
}

/// A map from `u32` keys to basis points, kept as a vector sorted by key.
#[derive(Clone, Debug)]
pub struct BpTable {
    entries: Vec<BpEntry>,
}

impl View for BpTable {
    type V = Seq<BpEntry>;

    closed spec fn view(&self) -> Seq<BpEntry> {
        self.entries@
    }
}

impl BpTable {
    /// The entries are sorted by strictly increasing key.
    pub closed spec fn wf(&self) -> bool {
        sorted_keys(self.entries@)
    }

    /// Whether the keys strictly increase.
    pub fn check_wf(&self) -> (r: bool)
        ensures
            r == self.wf(),
    {
        let n = self.entries.len();
        if n == 0 {
            return true;
        }
        let mut i: usize = 1;
        while i < n
            invariant
                1 <= i <= n,
                n == self.entries@.len(),
                forall|a: int, b: int| 0 <= a < b < i ==> #[trigger] self.entries@[a].key < #[trigger] self.entries@[b].key,
            decreases n - i,
        {
            if self.entries[i - 1].key >= self.entries[i].key {
                return false;
            }
            assert forall|a: int, b: int| 0 <= a < b < i + 1 implies #[trigger] self.entries@[a].key
                < #[trigger] self.entries@[b].key by {
                if b == i && a < i - 1 {
                    assert(self.entries@[a].key < self.entries@[i - 1].key);
                }
            }
            i = i + 1;
        }
        true
    }

    /// A well-formed table's entries are sorted by key.
    pub proof fn lemma_wf(&self)
        requires
            self.wf(),
        ensures
            sorted_keys(self@),
    {
    }

    /// An empty table.
    pub fn new() -> (r: Self)
        ensures
            r.wf(),
            r@ == Seq::<BpEntry>::empty(),
    {
        BpTable { entries: Vec::new() }
    }

    /// A table with the given entries, provided their keys strictly increase.
    pub fn from_sorted(entries: Vec<BpEntry>) -> (r: Self)
        requires
            sorted_keys(entries@),
        ensures
            r.wf(),
            r@ == entries@,
    {
        BpTable { entries }
    }

    /// A copy of the table.
    pub fn duplicate(&self) -> (r: Self)
        ensures
            r@ == self@,
            r.wf() == self.wf(),
    {
        BpTable { entries: self.entries.clone() }
    }

    /// Number of entries.
    pub fn len(&self) -> (r: usize)
        ensures
            r == self@.len(),
    {
        self.entries.len()
    }

    /// The `i`-th entry in key order.
    pub fn entry_at(&self, i: usize) -> (r: BpEntry)
        requires
            i < self@.len(),
        ensures
            r == self@[i as int],
    {
        self.entries[i]
    }

    /// The entries in key order.
    pub fn to_vec(&self) -> (r: Vec<BpEntry>)
        ensures
            r@ == self@,
    {
        self.entries.clone()
    }

    fn slot(&self, k: u32) -> (p: usize)
        requires
            self.wf(),
        ensures
            is_slot(self@, k, p as int),
    {
        let mut i: usize = 0;
        while i < self.entries.len() && self.entries[i].key < k
            invariant
                i <= self.entries@.len(),
                forall|j: int| 0 <= j < i ==> #[trigger] self.entries@[j].key < k,
            decreases self.entries@.len() - i,
        {
            i = i + 1;
        }
        i
    }

    /// The value stored under `k`, if any.
    pub fn get(&self, k: u32) -> (r: Option<BasisBp>)
        requires
            self.wf(),
        ensures
            r == lookup(self@, k),
    {
        let p = self.slot(k);
        proof {
            lemma_lookup_at_slot(self@, k, p as int);
        }
        if p < self.entries.len() && self.entries[p].key == k {
            Some(self.entries[p].value)
        } else {
            None
        }
    }

    /// Sets `k` to `v`, keeping the keys sorted.
    pub fn insert(&mut self, k: u32, v: BasisBp)
        requires
            old(self).wf(),
        ensures
            final(self).wf(),
            final(self)@ == insert_sorted(old(self)@, k, v),
    {
        let p = self.slot(k);
        let e = BpEntry { key: k, value: v };
        proof {
            lemma_insert_at_slot(self@, k, v, p as int);
        }
        if p < self.entries.len() && self.entries[p].key == k {
            self.entries.set(p, e);
        } else {
            self.entries.insert(p, e);
        }
        assert(sorted_keys(self.entries@)) by {
            assert forall|i: int, j: int| 0 <= i < j < self.entries@.len() implies #[trigger] self.entries@[i].key
                < #[trigger] self.entries@[j].key by {
                let s = old(self).entries@;
                if !(p < s.len() && s[p as int].key == k) {
                    // inserted at p
                    if j < p {
                    } else if j == p {
                        assert(self.entries@[i] == s[i]);
                    } else if i < p {
                        assert(self.entries@[j] == s[j - 1]);
                    } else if i == p {
                        assert(self.entries@[j] == s[j - 1]);
                    } else {
                        assert(self.entries@[i] == s[i - 1]);
                        assert(self.entries@[j] == s[j - 1]);
                    }
                }
            }
        }
    }

    /// Sets each entry of `entries`, in order (a later entry for a key wins).
    pub fn insert_all(&mut self, entries: &Vec<BpEntry>)
        requires
            old(self).wf(),
        ensures
            final(self).wf(),
            final(self)@ == insert_all_sorted(old(self)@, entries@),
    {
        let ghost start = self@;
        let mut i: usize = 0;
        while i < entries.len()
            invariant
                i <= entries@.len(),
                self.wf(),
                self@ == insert_all_sorted(start, entries@.take(i as int)),
            decreases entries.len() - i,
        {
            assert(entries@.take(i + 1).drop_last() == entries@.take(i as int));
            self.insert(entries[i].key, entries[i].value);
            i = i + 1;
        }
        assert(entries@.take(entries@.len() as int) == entries@);
    }

    /// Replaces the value of the `i`-th entry, keeping its key.
    pub fn set_value_at(&mut self, i: usize, v: BasisBp)
        requires
            old(self).wf(),
            i < old(self)@.len(),
        ensures
            final(self).wf(),
            final(self)@ == old(self)@.update(i as int, BpEntry { key: old(self)@[i as int].key, value: v }),
    {
        let k = self.entries[i].key;
        self.entries.set(i, BpEntry { key: k, value: v });
        assert(sorted_keys(self.entries@)) by {
            assert forall|a: int, b: int| 0 <= a < b < self.entries@.len() implies #[trigger] self.entries@[a].key
                < #[trigger] self.entries@[b].key by {
                assert(self.entries@[a].key == old(self).entries@[a].key);
                assert(self.entries@[b].key == old(self).entries@[b].key);
            }
        }
    }
}

} // verus!
