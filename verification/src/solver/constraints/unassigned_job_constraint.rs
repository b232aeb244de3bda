use vstd::prelude::*;

use crate::solver::score_level::ScoreLevel;

verus! {

/// Counts the cost of the jobs left out of every route.
pub struct UnassignedJobConstraint;

impl UnassignedJobConstraint {
    pub fn score_level(&self) -> (r: ScoreLevel)
        ensures
            r == ScoreLevel::Hard,
    {
        ScoreLevel::Hard
    }
}

} // verus!
