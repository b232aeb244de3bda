use vstd::prelude::*;

use crate::solver::score_level::ScoreLevel;

verus! {

/// Counts the travel cost of the routes.
pub struct TransportCostConstraint;

impl TransportCostConstraint {
    pub fn score_level(&self) -> (r: ScoreLevel)
        ensures
            r == ScoreLevel::Soft,
    {
        ScoreLevel::Soft
    }
}

} // verus!
