use vstd::prelude::*;

verus! {

/// How an iteration of the search went, for the scoring of the strategies
/// that it used.
pub struct UpdateScoreParams {
    pub is_best: bool,
    pub improved: bool,
    pub accepted: bool,
}

} // verus!
