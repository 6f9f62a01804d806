use vstd::prelude::*;

verus! {

/// Economic deltas accumulated from resolved missions, applied after the leg.
#[derive(Debug, Clone, Copy, PartialEq, Eq, Structural)]
pub struct EconIntent {
    pub pending_pp_delta: i16,
    pub pending_basis_overlay_bp: i16,
}

impl Default for EconIntent {
    fn default() -> (r: Self)
        ensures
            r == (EconIntent { pending_pp_delta: 0, pending_basis_overlay_bp: 0 }),
    {
        EconIntent { pending_pp_delta: 0, pending_basis_overlay_bp: 0 }
    }
}

impl EconIntent {
    /// Forgets every pending delta.
    pub fn clear(&mut self)
        ensures
            *final(self) == (EconIntent { pending_pp_delta: 0, pending_basis_overlay_bp: 0 }),
    {
        *self = EconIntent::default();
    }
}

} // verus!
