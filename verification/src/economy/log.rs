use vstd::prelude::*;
use super::money::MoneyCents;
use super::pricing::{compute_price, price_spec};
use super::state::{ClampHit, CommodityDelta, EconDelta};
use super::types::{BasisBp, CommodityId};

verus! {

/// Base price, in cents, at which logged prices are quoted.
pub const LOG_BASE_PRICE_CENTS: i64 = 10_000;

/// One line of the economy tick log: a commodity's index, basis and quoted price.
#[derive(Debug, Clone)]
pub struct EconTickRecord {
    pub day: u32,
    pub hub: u16,
    pub com: u16,
    pub di_bp: i32,
    pub basis_bp: i32,
    pub pp: u16,
    pub clamps_applied: Vec<ClampHit>,
    pub price_cents: i64,
}

/// The basis a step reported for `c`: its last entry, else 0.
pub open spec fn reported_basis(basis: Seq<CommodityDelta>, c: CommodityId) -> BasisBp
    decreases basis.len(),
{
    if basis.len() == 0 {
        BasisBp(0)
    } else if basis.last().commodity == c {
        basis.last().value
    } else {
        reported_basis(basis.drop_last(), c)
    }
}

fn basis_of(basis: &Vec<CommodityDelta>, c: CommodityId) -> (r: BasisBp)
    ensures
        r == reported_basis(basis@, c),
{
    let mut i: usize = basis.len();
    assert(basis@.take(i as int) =~= basis@);
    while i > 0
        invariant
            i <= basis@.len(),
            reported_basis(basis@, c) == reported_basis(basis@.take(i as int), c),
        decreases i,
    {
        assert(basis@.take(i as int).drop_last() =~= basis@.take(i - 1));
        if basis[i - 1].commodity == c {
            return basis[i - 1].value;
        }
        i = i - 1;
    }
    BasisBp(0)
}

/// The log lines of one economy step: one per daily index, priced from the base price
/// with that commodity's reported basis. A step with no indices logs nothing.
pub fn log_econ_tick(delta: &EconDelta) -> (r: Vec<EconTickRecord>)
    ensures
        r@.len() == delta.di@.len(),
        forall|i: int|
            0 <= i < r@.len() ==> {
                let e = delta.di@[i];
                let b = reported_basis(delta.basis@, e.commodity);
                &&& (#[trigger] r@[i]).day == delta.day.0
                &&& r@[i].hub == delta.hub.0
                &&& r@[i].com == e.commodity.0
                &&& r@[i].di_bp == e.value.0
                &&& r@[i].basis_bp == b.0
                &&& r@[i].pp == delta.pp_after.0
                &&& r@[i].clamps_applied@ == delta.clamps_hit@
                &&& r@[i].price_cents == price_spec(LOG_BASE_PRICE_CENTS as int, e.value.0 as int, b.0 as int)
            },
{
    let mut out: Vec<EconTickRecord> = Vec::new();
    let mut i: usize = 0;
    while i < delta.di.len()
        invariant
            i <= delta.di@.len(),
            out@.len() == i,
            forall|k: int|
                0 <= k < i ==> {
                    let e = delta.di@[k];
                    let b = reported_basis(delta.basis@, e.commodity);
                    &&& (#[trigger] out@[k]).day == delta.day.0
                    &&& out@[k].hub == delta.hub.0
                    &&& out@[k].com == e.commodity.0
                    &&& out@[k].di_bp == e.value.0
                    &&& out@[k].basis_bp == b.0
                    &&& out@[k].pp == delta.pp_after.0
                    &&& out@[k].clamps_applied@ == delta.clamps_hit@
                    &&& out@[k].price_cents == price_spec(LOG_BASE_PRICE_CENTS as int, e.value.0 as int, b.0 as int)
                },
        decreases delta.di.len() - i,
    {
        let entry = delta.di[i];
        let basis_bp = basis_of(&delta.basis, entry.commodity);
        let price = compute_price(MoneyCents(LOG_BASE_PRICE_CENTS), entry.value, basis_bp);
        let clamps = delta.clamps_hit.clone();
        assert(clamps@ =~= delta.clamps_hit@);
        out.push(
            EconTickRecord {
                day: delta.day.0,
                hub: delta.hub.0,
                com: entry.commodity.0,
                di_bp: entry.value.0,
                basis_bp: basis_bp.0,
                pp: delta.pp_after.0,
                clamps_applied: clamps,
                price_cents: price.0,
            },
        );
        i = i + 1;
    }
    out
}

} // verus!
