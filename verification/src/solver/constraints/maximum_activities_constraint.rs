use vstd::prelude::*;

use crate::solver::score_level::ScoreLevel;

verus! {

/// Bounds the number of activities of a route by what its vehicle allows.
pub struct MaximumActivitiesConstraint;

impl MaximumActivitiesConstraint {
    pub fn score_level(&self) -> (r: ScoreLevel)
        ensures
            r == ScoreLevel::Hard,
    {
        ScoreLevel::Hard
    }
}

} // verus!
