use vstd::prelude::*;

verus! {

/// The order in which best insertion takes the unassigned jobs.
#[derive(Copy, Clone, Debug, PartialEq, Eq, Hash, Structural)]
pub enum BestInsertionSortStrategy {
    Random,
    Demand,
    Far,
    Close,
    TimeWindow,
}

impl Default for BestInsertionSortStrategy {
    fn default() -> (r: Self)
        ensures
            r == BestInsertionSortStrategy::Random,
    {
        BestInsertionSortStrategy::Random
    }
}

impl BestInsertionSortStrategy {
    /// The name of the strategy.
    pub open spec fn spec_name(&self) -> Seq<char> {
        match self {
            BestInsertionSortStrategy::Random => "Random"@,
            BestInsertionSortStrategy::Demand => "Demand"@,
            BestInsertionSortStrategy::Far => "Far"@,
            BestInsertionSortStrategy::Close => "Close"@,
            BestInsertionSortStrategy::TimeWindow => "TimeWindow"@,
        }
    }

    /// The name of the strategy.
    pub fn name(&self) -> (r: &'static str)
        ensures
            r@ == self.spec_name(),
    {
        match self {
            Self::Random => "Random",
            Self::Demand => "Demand",
            Self::Far => "Far",
            Self::Close => "Close",
            Self::TimeWindow => "TimeWindow",
        }
    }
}

} // verus!
