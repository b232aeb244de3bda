use vstd::prelude::*;

verus! {

/// Whether a constraint is hard (must hold) or soft (is minimised).
#[derive(Clone, Copy, Debug, PartialEq, Eq, Hash, Structural)]
pub enum ScoreLevel {
    Hard,
    Soft,
}

} // verus!
