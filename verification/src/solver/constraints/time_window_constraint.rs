use vstd::prelude::*;

use crate::solver::score_level::ScoreLevel;

verus! {

/// Counts the lateness of activities against their time windows, at a level
/// chosen when the constraint is made.
pub struct TimeWindowConstraint {
    score_level: ScoreLevel,
}

impl Default for TimeWindowConstraint {
    fn default() -> (r: Self)
        ensures
            r.spec_score_level() == ScoreLevel::Hard,
    {
        TimeWindowConstraint { score_level: ScoreLevel::Hard }
    }
}

impl TimeWindowConstraint {
    pub closed spec fn spec_score_level(&self) -> ScoreLevel {
        self.score_level
    }

    pub fn new(score_level: ScoreLevel) -> (r: Self)
        ensures
            r.spec_score_level() == score_level,
    {
        TimeWindowConstraint { score_level }
    }

    pub fn score_level(&self) -> (r: ScoreLevel)
        ensures
            r == self.spec_score_level(),
    {
        self.score_level
    }
}

} // verus!
