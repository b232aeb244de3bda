use vstd::prelude::*;

use crate::solver::score_level::ScoreLevel;

verus! {

/// Gives a job only to a vehicle that has the skills it needs.
pub struct SkillConstraint;

impl SkillConstraint {
    pub fn score_level(&self) -> (r: ScoreLevel)
        ensures
            r == ScoreLevel::Hard,
    {
        ScoreLevel::Hard
    }
}

} // verus!
