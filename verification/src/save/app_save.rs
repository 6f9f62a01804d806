use vstd::prelude::*;
use crate::cargo::CargoHold;
use crate::economy::money::MoneyCents;
use crate::economy::types::HubId;
use super::v1_1::{slot_entries_of, SaveV1_1};

verus! {

/// The save kept while the game runs, and whether the trading view was open last time
/// it was looked at.
pub struct AppSaveState {
    snapshot: SaveV1_1,
    last_view_trading: Option<bool>,
}

impl AppSaveState {
    /// The save held.
    pub closed spec fn held(&self) -> SaveV1_1 {
        self.snapshot
    }

    /// Whether the trading view was open when last seen, if it was seen.
    pub closed spec fn last_view(&self) -> Option<bool> {
        self.last_view_trading
    }

    /// A state holding `snapshot`, with no view seen yet.
    pub fn from_snapshot(snapshot: SaveV1_1) -> (r: Self)
        ensures
            r.held() == snapshot,
            r.last_view().is_none(),
    {
        AppSaveState { snapshot, last_view_trading: None }
    }

    /// The save held.
    pub fn snapshot(&self) -> (r: &SaveV1_1)
        ensures
            *r == self.held(),
    {
        &self.snapshot
    }

    /// Fills the cargo hold from the save and records the current view; returns the saved
    /// wallet balance and the saved last hub (to make active when there is one).
    pub fn hydrate_hub_resources(&mut self, cargo: &mut CargoHold, view_trading: Option<bool>) -> (r: (MoneyCents, Option<HubId>))
        ensures
            final(self).held() == old(self).held(),
            final(self).last_view() == view_trading,
            final(cargo).wf(),
            final(cargo).capacity_total == old(self).held().cargo.capacity_total,
            final(cargo).capacity_used == old(self).held().cargo.capacity_used,
            final(cargo).mass_capacity_total == old(self).held().cargo.mass_capacity_total,
            final(cargo).mass_capacity_used == old(self).held().cargo.mass_capacity_used,
            final(cargo).units@ == crate::cargo::units_insert_all(
                Seq::empty(),
                slot_entries_of(old(self).held().cargo.manifest@),
            ),
            r == (old(self).held().wallet_cents, old(self).held().last_hub),
    {
        self.snapshot.hydrate_cargo(cargo);
        let wallet = self.snapshot.wallet_balance();
        let hub = self.snapshot.last_hub;
        self.last_view_trading = view_trading;
        (wallet, hub)
    }

    /// When the player leaves the trading view, copies the hold, the wallet (if known)
    /// and the active hub into the save; then records the current view. Nothing happens
    /// when no view is known.
    pub fn persist_hub_resources(
        &mut self,
        view_trading: Option<bool>,
        cargo: Option<&CargoHold>,
        wallet: Option<MoneyCents>,
        active_hub: Option<HubId>,
    )
        ensures
            view_trading.is_none() ==> final(self).held() == old(self).held() && final(self).last_view()
                == old(self).last_view(),
            view_trading matches Some(current) ==> {
                let previous = match old(self).last_view() {
                    Some(p) => p,
                    None => current,
                };
                let leaving = previous && !current;
                &&& final(self).last_view() == Some(current)
                &&& !leaving ==> final(self).held() == old(self).held()
                &&& leaving ==> {
                    &&& final(self).held().last_hub == active_hub
                    &&& final(self).held().wallet_cents == (match wallet {
                        Some(w) => w,
                        None => old(self).held().wallet_cents,
                    })
                    &&& match cargo {
                        Some(c) => {
                            &&& final(self).held().cargo.capacity_total == c.capacity_total
                            &&& final(self).held().cargo.capacity_used == c.capacity_used
                            &&& final(self).held().cargo.mass_capacity_total == c.mass_capacity_total
                            &&& final(self).held().cargo.mass_capacity_used == c.mass_capacity_used
                            &&& slot_entries_of(final(self).held().cargo.manifest@) == c.units@
                        },
                        None => final(self).held().cargo == old(self).held().cargo,
                    }
                    &&& final(self).held().day == old(self).held().day
                    &&& final(self).held().di == old(self).held().di
                    &&& final(self).held().basis == old(self).held().basis
                    &&& final(self).held().debt_cents == old(self).held().debt_cents
                }
            },
    {
        let current = match view_trading {
            Some(v) => v,
            None => return,
        };
        let previous = match self.last_view_trading {
            Some(p) => p,
            None => current,
        };
        if previous && !current {
            match cargo {
                Some(c) => self.snapshot.update_from_cargo(c),
                None => {},
            }
            match wallet {
                Some(balance) => self.snapshot.set_wallet_balance(balance),
                None => {},
            }
            self.snapshot.set_last_hub(active_hub);
        }
        self.last_view_trading = Some(current);
    }
}

impl Default for AppSaveState {
    fn default() -> (r: Self)
        ensures
            r.last_view().is_none(),
            r.held().wallet_cents == MoneyCents(0),
            r.held().last_hub.is_none(),
    {
        AppSaveState { snapshot: SaveV1_1::default(), last_view_trading: None }
    }
}

} // verus!
