use vstd::prelude::*;

use crate::solver::score_level::ScoreLevel;

verus! {

/// Counts the time that vehicles spend waiting.
pub struct WaitingDurationConstraint;

impl WaitingDurationConstraint {
    pub fn score_level(&self) -> (r: ScoreLevel)
        ensures
            r == ScoreLevel::Soft,
    {
        ScoreLevel::Soft
    }
}

} // verus!
