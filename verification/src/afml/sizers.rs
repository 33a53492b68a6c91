//! Bet-sizer parameters.
use vstd::prelude::*;

verus! {

/// Equal-weighted bet size: capital is divided equally among
/// `n_positions` positions (one position takes it all).
#[derive(Debug, Clone, Copy, PartialEq, Eq)]
pub struct EqualBetSizer {
    /// Number of positions (for equal weighting); at least 1.
    pub n_positions: usize,
}

impl EqualBetSizer {
    /// Create a new equal bet sizer; a count of zero is raised to one.
    pub fn new(n_positions: usize) -> (r: Self)
        ensures
            r.n_positions == if n_positions >= 1 { n_positions } else { 1 },
            r.n_positions >= 1,
    {
        EqualBetSizer { n_positions: if n_positions >= 1 { n_positions } else { 1 } }
    }
}

} // verus!
