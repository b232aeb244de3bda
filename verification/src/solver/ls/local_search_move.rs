use vstd::prelude::*;

use crate::problem::job::ActivityId;
use crate::solver::ls::cross_exchange::CrossExchangeOperator;
use crate::solver::ls::inter_mixed_exchange::InterMixedExchange;
use crate::solver::ls::inter_or_opt::InterOrOptOperator;
use crate::solver::ls::inter_relocate::InterRelocateOperator;
use crate::solver::ls::inter_reverse_two_opt::InterReverseTwoOptOperator;
use crate::solver::ls::inter_swap::InterSwapOperator;
use crate::solver::ls::inter_two_opt_star::InterTwoOptStarOperator;
use crate::solver::ls::mixed_exchange::MixedExchangeOperator;
use crate::solver::ls::or_opt::OrOptOperator;
use crate::solver::ls::relocate::RelocateOperator;
use crate::solver::ls::swap::SwapOperator;
use crate::solver::ls::swap_star::SwapStar;
use crate::solver::ls::two_opt::TwoOptOperator;
use crate::solver::solution::{RouteIdx, WorkingSolution};

verus! {

/// A move of the local search, one variant per operator.
#[derive(Debug)]
pub enum LocalSearchMove {
    /// 2-Opt operator that reverses the segment between two indices start and end in a given route.
    TwoOpt(TwoOptOperator),
    /// Relocate operator that moves an activity from one position to another within the same route.
    Relocate(RelocateOperator),
    /// Swap operator that exchanges two activities at specified positions within the same route.
    Swap(SwapOperator),
    /// SWAP* operator that exchanges two activities of different routes, each going to its own insertion point.
    SwapStar(SwapStar),
    /// Swap one with a segment
    MixedExchange(MixedExchangeOperator),
    /// Swap one with a segment in different routes
    InterMixedExchange(InterMixedExchange),
    /// Or-Opt operator that moves a sequence of activities from one position to another within the same route.
    OrOpt(OrOptOperator),
    InterOrOpt(InterOrOptOperator),
    /// Inter-route Relocate operator that moves an activity from one route to another.
    InterRelocate(InterRelocateOperator),
    /// Inter-route Swap operator that exchanges activities between two different routes.
    InterSwap(InterSwapOperator),
    /// Inter-route 2-Opt* operator that exchanges segments between two different routes.
    TwoOptStar(InterTwoOptStarOperator),
    /// Cross-Exchange operator that exchanges segments of activities between two different routes.
    CrossExchange(CrossExchangeOperator),
    InterTwoOptStar(InterTwoOptStarOperator),
    ReverseTwoOpt(InterReverseTwoOptOperator),
}

impl LocalSearchMove {
    /// The move fits the routes of `solution`.
    pub open spec fn applicable(&self, solution: Seq<Seq<ActivityId>>) -> bool {
        match self {
            LocalSearchMove::TwoOpt(op) => op@.applicable(solution),
            LocalSearchMove::Relocate(op) => op@.applicable(solution),
            LocalSearchMove::Swap(op) => op@.applicable(solution),
            LocalSearchMove::SwapStar(op) => op@.applicable(solution),
            LocalSearchMove::MixedExchange(op) => op@.applicable(solution),
            LocalSearchMove::InterMixedExchange(op) => op@.applicable(solution),
            LocalSearchMove::OrOpt(op) => op@.applicable(solution),
            LocalSearchMove::InterOrOpt(op) => op@.applicable(solution),
            LocalSearchMove::InterRelocate(op) => op@.applicable(solution),
            LocalSearchMove::InterSwap(op) => op@.applicable(solution),
            LocalSearchMove::TwoOptStar(op) => op@.applicable(solution),
            LocalSearchMove::CrossExchange(op) => op@.applicable(solution),
            LocalSearchMove::InterTwoOptStar(op) => op@.applicable(solution),
            LocalSearchMove::ReverseTwoOpt(op) => op@.applicable(solution),
        }
    }

    /// The routes after the move.
    pub open spec fn result(&self, solution: Seq<Seq<ActivityId>>) -> Seq<Seq<ActivityId>> {
        match self {
            LocalSearchMove::TwoOpt(op) => op@.result(solution),
            LocalSearchMove::Relocate(op) => op@.result(solution),
            LocalSearchMove::Swap(op) => op@.result(solution),
            LocalSearchMove::SwapStar(op) => op@.result(solution),
            LocalSearchMove::MixedExchange(op) => op@.result(solution),
            LocalSearchMove::InterMixedExchange(op) => op@.result(solution),
            LocalSearchMove::OrOpt(op) => op@.result(solution),
            LocalSearchMove::InterOrOpt(op) => op@.result(solution),
            LocalSearchMove::InterRelocate(op) => op@.result(solution),
            LocalSearchMove::InterSwap(op) => op@.result(solution),
            LocalSearchMove::TwoOptStar(op) => op@.result(solution),
            LocalSearchMove::CrossExchange(op) => op@.result(solution),
            LocalSearchMove::InterTwoOptStar(op) => op@.result(solution),
            LocalSearchMove::ReverseTwoOpt(op) => op@.result(solution),
        }
    }

    /// The routes that the move changes.
    pub open spec fn spec_updated_routes(&self) -> Seq<RouteIdx> {
        match self {
            LocalSearchMove::TwoOpt(op) => seq![op@.route_id],
            LocalSearchMove::Relocate(op) => seq![op@.route_id],
            LocalSearchMove::Swap(op) => seq![op@.route_id],
            LocalSearchMove::SwapStar(op) => seq![op@.first_route, op@.second_route],
            LocalSearchMove::MixedExchange(op) => seq![op@.route_id],
            LocalSearchMove::InterMixedExchange(op) => seq![op@.from_route_id, op@.to_route_id],
            LocalSearchMove::OrOpt(op) => seq![op@.route_id],
            LocalSearchMove::InterOrOpt(op) => seq![op@.from_route_id, op@.to_route_id],
            LocalSearchMove::InterRelocate(op) => seq![op@.from_route_id, op@.to_route_id],
            LocalSearchMove::InterSwap(op) => seq![op@.first_route_id, op@.second_route_id],
            LocalSearchMove::TwoOptStar(op) => seq![op@.first_route_id, op@.second_route_id],
            LocalSearchMove::CrossExchange(op) => seq![op@.first_route_id, op@.second_route_id],
            LocalSearchMove::InterTwoOptStar(op) => seq![op@.first_route_id, op@.second_route_id],
            LocalSearchMove::ReverseTwoOpt(op) => seq![op@.first_route_id, op@.second_route_id],
        }
    }

    /// Returns the name of the operator of the move.
    pub fn operator_name(&self) -> (r: &'static str)
        ensures
            r@ == (match self {
                LocalSearchMove::TwoOpt(_) => "Two-Opt"@,
                LocalSearchMove::Relocate(_) => "Relocate"@,
                LocalSearchMove::Swap(_) => "Swap"@,
                LocalSearchMove::SwapStar(_) => "SwapStar"@,
                LocalSearchMove::MixedExchange(_) => "Mixed-Exchange"@,
                LocalSearchMove::InterMixedExchange(_) => "Inter-Mixed-Exchange"@,
                LocalSearchMove::OrOpt(_) => "Or-Opt"@,
                LocalSearchMove::InterOrOpt(_) => "Inter Or-Opt"@,
                LocalSearchMove::InterRelocate(_) => "Inter-Relocate"@,
                LocalSearchMove::InterSwap(_) => "Inter-Swap"@,
                LocalSearchMove::TwoOptStar(_) => "Two-Opt*"@,
                LocalSearchMove::CrossExchange(_) => "Cross-Exchange"@,
                LocalSearchMove::InterTwoOptStar(_) => "Inter-2-Opt*"@,
                LocalSearchMove::ReverseTwoOpt(_) => "Inter-Reverse-2-Opt"@,
            }),
    {
        match self {
            LocalSearchMove::TwoOpt(_) => "Two-Opt",
            LocalSearchMove::Relocate(_) => "Relocate",
            LocalSearchMove::Swap(_) => "Swap",
            LocalSearchMove::SwapStar(_) => "SwapStar",
            LocalSearchMove::MixedExchange(_) => "Mixed-Exchange",
            LocalSearchMove::InterMixedExchange(_) => "Inter-Mixed-Exchange",
            LocalSearchMove::OrOpt(_) => "Or-Opt",
            LocalSearchMove::InterOrOpt(_) => "Inter Or-Opt",
            LocalSearchMove::InterRelocate(_) => "Inter-Relocate",
            LocalSearchMove::InterSwap(_) => "Inter-Swap",
            LocalSearchMove::TwoOptStar(_) => "Two-Opt*",
            LocalSearchMove::CrossExchange(_) => "Cross-Exchange",
            LocalSearchMove::InterTwoOptStar(_) => "Inter-2-Opt*",
            LocalSearchMove::ReverseTwoOpt(_) => "Inter-Reverse-2-Opt",
        }
    }

    /// Applies the move.
    pub fn apply(&self, solution: &mut WorkingSolution)
        requires
            self.applicable(old(solution)@),
        ensures
            final(solution)@ == self.result(old(solution)@),
            final(solution).limits() == old(solution).limits(),
    {
        match self {
            LocalSearchMove::TwoOpt(op) => op.apply(solution),
            LocalSearchMove::Relocate(op) => op.apply(solution),
            LocalSearchMove::Swap(op) => op.apply(solution),
            LocalSearchMove::SwapStar(op) => op.apply(solution),
            LocalSearchMove::MixedExchange(op) => op.apply(solution),
            LocalSearchMove::InterMixedExchange(op) => op.apply(solution),
            LocalSearchMove::OrOpt(op) => op.apply(solution),
            LocalSearchMove::InterOrOpt(op) => op.apply(solution),
            LocalSearchMove::InterRelocate(op) => op.apply(solution),
            LocalSearchMove::InterSwap(op) => op.apply(solution),
            LocalSearchMove::TwoOptStar(op) => op.apply(solution),
            LocalSearchMove::CrossExchange(op) => op.apply(solution),
            LocalSearchMove::InterTwoOptStar(op) => op.apply(solution),
            LocalSearchMove::ReverseTwoOpt(op) => op.apply(solution),
        }
    }

    /// The routes that the move changes.
    pub fn updated_routes(&self) -> (r: Vec<RouteIdx>)
        ensures
            r@ == self.spec_updated_routes(),
    {
        match self {
            LocalSearchMove::TwoOpt(op) => op.updated_routes(),
            LocalSearchMove::Relocate(op) => op.updated_routes(),
            LocalSearchMove::Swap(op) => op.updated_routes(),
            LocalSearchMove::SwapStar(op) => op.updated_routes(),
            LocalSearchMove::MixedExchange(op) => op.updated_routes(),
            LocalSearchMove::InterMixedExchange(op) => op.updated_routes(),
            LocalSearchMove::OrOpt(op) => op.updated_routes(),
            LocalSearchMove::InterOrOpt(op) => op.updated_routes(),
            LocalSearchMove::InterRelocate(op) => op.updated_routes(),
            LocalSearchMove::InterSwap(op) => op.updated_routes(),
            LocalSearchMove::TwoOptStar(op) => op.updated_routes(),
            LocalSearchMove::CrossExchange(op) => op.updated_routes(),
            LocalSearchMove::InterTwoOptStar(op) => op.updated_routes(),
            LocalSearchMove::ReverseTwoOpt(op) => op.updated_routes(),
        }
    }
}

} // verus!
