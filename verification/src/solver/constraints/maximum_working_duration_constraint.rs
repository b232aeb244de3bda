use vstd::prelude::*;

use crate::solver::score_level::ScoreLevel;

verus! {

/// Bounds the working time of a route by what its vehicle allows.
pub struct MaximumWorkingDurationConstraint;

impl MaximumWorkingDurationConstraint {
    pub fn score_level(&self) -> (r: ScoreLevel)
        ensures
            r == ScoreLevel::Hard,
    {
        ScoreLevel::Hard
    }
}

} // verus!
