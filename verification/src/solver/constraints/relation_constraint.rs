use vstd::prelude::*;

use crate::solver::score_level::ScoreLevel;

verus! {

/// Keeps the relations between jobs (same route, order) that the problem sets.
pub struct RelationConstraint;

impl RelationConstraint {
    pub fn score_level(&self) -> (r: ScoreLevel)
        ensures
            r == ScoreLevel::Hard,
    {
        ScoreLevel::Hard
    }
}

} // verus!
