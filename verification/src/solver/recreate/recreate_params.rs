use vstd::prelude::*;

use crate::solver::recreate::best_insertion::BestInsertionSortStrategy;
use crate::solver::recreate::recreate_strategy::RecreateStrategy;

verus! {

/// The strategies of the recreate step.
pub open spec fn default_recreate_strategies() -> Seq<RecreateStrategy> {
    seq![
        RecreateStrategy::RegretInsertion(2),
        RecreateStrategy::BestInsertion(BestInsertionSortStrategy::Random),
        RecreateStrategy::BestInsertion(BestInsertionSortStrategy::Demand),
        RecreateStrategy::BestInsertion(BestInsertionSortStrategy::Far),
        RecreateStrategy::BestInsertion(BestInsertionSortStrategy::Close),
        RecreateStrategy::BestInsertion(BestInsertionSortStrategy::TimeWindow),
    ]
}

/// The parameters of the recreate step.
#[derive(Clone, Debug)]
pub struct RecreateParams {
    pub recreate_strategies: Vec<RecreateStrategy>,
    pub insert_on_failure: bool,
}

impl Default for RecreateParams {
    fn default() -> (r: Self)
        ensures
            r.recreate_strategies@ == default_recreate_strategies(),
            !r.insert_on_failure,
    {
        let mut recreate_strategies: Vec<RecreateStrategy> = Vec::new();
        recreate_strategies.push(RecreateStrategy::RegretInsertion(2));
        recreate_strategies.push(RecreateStrategy::BestInsertion(BestInsertionSortStrategy::Random));
        recreate_strategies.push(RecreateStrategy::BestInsertion(BestInsertionSortStrategy::Demand));
        recreate_strategies.push(RecreateStrategy::BestInsertion(BestInsertionSortStrategy::Far));
        recreate_strategies.push(RecreateStrategy::BestInsertion(BestInsertionSortStrategy::Close));
        recreate_strategies.push(
            RecreateStrategy::BestInsertion(BestInsertionSortStrategy::TimeWindow),
        );
        assert(recreate_strategies@ =~= default_recreate_strategies());
        RecreateParams { insert_on_failure: false, recreate_strategies }
    }
}

impl RecreateParams {
    /// The parameters for a problem with or without time windows and
    /// capacities. The list built for the problem is dropped: the result is
    /// the default, whatever the problem.
    pub fn default_from_problem(has_time_windows: bool, has_capacity: bool) -> (r: Self)
        ensures
            r.recreate_strategies@ == default_recreate_strategies(),
            !r.insert_on_failure,
    {
        let mut strategies: Vec<RecreateStrategy> = Vec::new();
        strategies.push(RecreateStrategy::RegretInsertion(2));
        strategies.push(RecreateStrategy::BestInsertion(BestInsertionSortStrategy::Random));
        strategies.push(RecreateStrategy::BestInsertion(BestInsertionSortStrategy::Far));
        strategies.push(RecreateStrategy::BestInsertion(BestInsertionSortStrategy::Close));
        if has_time_windows {
            strategies.push(RecreateStrategy::BestInsertion(BestInsertionSortStrategy::TimeWindow));
        }
        if has_capacity {
            strategies.push(RecreateStrategy::BestInsertion(BestInsertionSortStrategy::Demand));
        }
        Self { ..Self::default() }
    }
}

} // verus!
