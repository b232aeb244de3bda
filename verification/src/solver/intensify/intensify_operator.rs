use vstd::prelude::*;

use crate::problem::job::ActivityId;
use crate::solver::intensify::inter_two_opt_star::InterTwoOptStarOperator;
use crate::solver::ls::cross_exchange::CrossExchangeOperator;
use crate::solver::ls::inter_relocate::InterRelocateOperator;
use crate::solver::ls::inter_swap::InterSwapOperator;
use crate::solver::ls::or_opt::OrOptOperator;
use crate::solver::ls::relocate::RelocateOperator;
use crate::solver::ls::swap::SwapOperator;
use crate::solver::ls::two_opt::TwoOptOperator;
use crate::solver::solution::WorkingSolution;

verus! {

/// A move of the intensification phase.
#[derive(Debug)]
pub enum IntensifyOperator {
    /// 2-Opt operator that reverses the segment between two indices start and end in a given route.
    TwoOpt(TwoOptOperator),
    /// Relocate operator that moves an activity from one position to another within the same route.
    Relocate(RelocateOperator),
    /// Swap operator that exchanges two activities at specified positions within the same route.
    Swap(SwapOperator),
    /// Or-Opt operator that moves a sequence of activities from one position to another within the same route.
    OrOpt(OrOptOperator),
    /// Inter-route Relocate operator that moves an activity from one route to another.
    InterRelocate(InterRelocateOperator),
    /// Inter-route Swap operator that exchanges activities between two different routes.
    InterSwap(InterSwapOperator),
    /// Inter-route 2-Opt* operator that exchanges segments between two different routes.
    TwoOptStar(InterTwoOptStarOperator),
    /// Cross-Exchange operator that exchanges segments of activities between two different routes.
    CrossExchange(CrossExchangeOperator),
    InterTwoOptStar(InterTwoOptStarOperator),
}

impl IntensifyOperator {
    /// The move fits the routes of `solution`.
    pub open spec fn applicable(&self, solution: Seq<Seq<ActivityId>>) -> bool {
        match self {
            IntensifyOperator::TwoOpt(op) => op@.applicable(solution),
            IntensifyOperator::Relocate(op) => op@.applicable(solution),
            IntensifyOperator::Swap(op) => op@.applicable(solution),
            IntensifyOperator::OrOpt(op) => op@.applicable(solution),
            IntensifyOperator::InterRelocate(op) => op@.applicable(solution),
            IntensifyOperator::InterSwap(op) => op@.applicable(solution),
            IntensifyOperator::TwoOptStar(op) => op@.applicable(solution),
            IntensifyOperator::CrossExchange(op) => op@.applicable(solution),
            IntensifyOperator::InterTwoOptStar(op) => op@.applicable(solution),
        }
    }

    /// The routes after the move.
    pub open spec fn result(&self, solution: Seq<Seq<ActivityId>>) -> Seq<Seq<ActivityId>> {
        match self {
            IntensifyOperator::TwoOpt(op) => op@.result(solution),
            IntensifyOperator::Relocate(op) => op@.result(solution),
            IntensifyOperator::Swap(op) => op@.result(solution),
            IntensifyOperator::OrOpt(op) => op@.result(solution),
            IntensifyOperator::InterRelocate(op) => op@.result(solution),
            IntensifyOperator::InterSwap(op) => op@.result(solution),
            IntensifyOperator::TwoOptStar(op) => op@.result(solution),
            IntensifyOperator::CrossExchange(op) => op@.result(solution),
            IntensifyOperator::InterTwoOptStar(op) => op@.result(solution),
        }
    }

    /// The indices of the routes that the move changes.
    pub open spec fn spec_updated_routes(&self) -> Seq<usize> {
        match self {
            IntensifyOperator::TwoOpt(op) => seq![op@.route_id.0],
            IntensifyOperator::Relocate(op) => seq![op@.route_id.0],
            IntensifyOperator::Swap(op) => seq![op@.route_id.0],
            IntensifyOperator::OrOpt(op) => seq![op@.route_id.0],
            IntensifyOperator::InterRelocate(op) => seq![op@.from_route_id.0, op@.to_route_id.0],
            IntensifyOperator::InterSwap(op) => seq![op@.first_route_id.0, op@.second_route_id.0],
            IntensifyOperator::TwoOptStar(op) => seq![op@.first_route_id, op@.second_route_id],
            IntensifyOperator::CrossExchange(op) => seq![
                op@.first_route_id.0,
                op@.second_route_id.0,
            ],
            IntensifyOperator::InterTwoOptStar(op) => seq![op@.first_route_id, op@.second_route_id],
        }
    }

    /// Returns the name of the intensify operator.
    pub fn operator_name(&self) -> (r: &'static str)
        ensures
            r@ == (match self {
                IntensifyOperator::TwoOpt(_) => "Two-Opt"@,
                IntensifyOperator::Relocate(_) => "Relocate"@,
                IntensifyOperator::Swap(_) => "Swap"@,
                IntensifyOperator::OrOpt(_) => "Or-Opt"@,
                IntensifyOperator::InterRelocate(_) => "Inter-Relocate"@,
                IntensifyOperator::InterSwap(_) => "Inter-Swap"@,
                IntensifyOperator::TwoOptStar(_) => "Two-Opt*"@,
                IntensifyOperator::CrossExchange(_) => "Cross-Exchange"@,
                IntensifyOperator::InterTwoOptStar(_) => "Inter-2-Opt*"@,
            }),
    {
        match self {
            IntensifyOperator::TwoOpt(_) => "Two-Opt",
            IntensifyOperator::Relocate(_) => "Relocate",
            IntensifyOperator::Swap(_) => "Swap",
            IntensifyOperator::OrOpt(_) => "Or-Opt",
            IntensifyOperator::InterRelocate(_) => "Inter-Relocate",
            IntensifyOperator::InterSwap(_) => "Inter-Swap",
            IntensifyOperator::TwoOptStar(_) => "Two-Opt*",
            IntensifyOperator::CrossExchange(_) => "Cross-Exchange",
            IntensifyOperator::InterTwoOptStar(_) => "Inter-2-Opt*",
        }
    }

    /// Applies the move.
    pub fn apply(&self, solution: &mut WorkingSolution)
        requires
            self.applicable(old(solution)@),
        ensures
            final(solution)@ == self.result(old(solution)@),
            final(solution).limits() == old(solution).limits(),
    {
        match self {
            IntensifyOperator::TwoOpt(op) => op.apply(solution),
            IntensifyOperator::Relocate(op) => op.apply(solution),
            IntensifyOperator::Swap(op) => op.apply(solution),
            IntensifyOperator::OrOpt(op) => op.apply(solution),
            IntensifyOperator::InterRelocate(op) => op.apply(solution),
            IntensifyOperator::InterSwap(op) => op.apply(solution),
            IntensifyOperator::TwoOptStar(op) => op.apply(solution),
            IntensifyOperator::CrossExchange(op) => op.apply(solution),
            IntensifyOperator::InterTwoOptStar(op) => op.apply(solution),
        }
    }

    /// The indices of the routes that the move changes.
    pub fn updated_routes(&self) -> (r: Vec<usize>)
        ensures
            r@ == self.spec_updated_routes(),
    {
        let mut v: Vec<usize> = Vec::new();
        match self {
            IntensifyOperator::TwoOpt(op) => {
                let ids = op.updated_routes();
                v.push(ids[0].0);
            },
            IntensifyOperator::Relocate(op) => {
                let ids = op.updated_routes();
                v.push(ids[0].0);
            },
            IntensifyOperator::Swap(op) => {
                let ids = op.updated_routes();
                v.push(ids[0].0);
            },
            IntensifyOperator::OrOpt(op) => {
                let ids = op.updated_routes();
                v.push(ids[0].0);
            },
            IntensifyOperator::InterRelocate(op) => {
                let ids = op.updated_routes();
                v.push(ids[0].0);
                v.push(ids[1].0);
            },
            IntensifyOperator::InterSwap(op) => {
                let ids = op.updated_routes();
                v.push(ids[0].0);
                v.push(ids[1].0);
            },
            IntensifyOperator::TwoOptStar(op) => {
                v = op.updated_routes();
            },
            IntensifyOperator::CrossExchange(op) => {
                let ids = op.updated_routes();
                v.push(ids[0].0);
                v.push(ids[1].0);
            },
            IntensifyOperator::InterTwoOptStar(op) => {
                v = op.updated_routes();
            },
        }
        assert(v@ =~= self.spec_updated_routes());
        v
    }
}

} // verus!
