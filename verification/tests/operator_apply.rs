use hermes_optimizer::problem::job::ActivityId;
use hermes_optimizer::solver::intensify::inter_two_opt_star::{
    InterTwoOptStarOperator as IntensifyInterTwoOptStar,
    InterTwoOptStarOperatorParams as IntensifyInterTwoOptStarParams,
};
use hermes_optimizer::solver::ls::cross_exchange::{CrossExchangeOperator, CrossExchangeOperatorParams};
use hermes_optimizer::solver::ls::inter_mixed_exchange::{InterMixedExchange, InterMixedExchangeParams};
use hermes_optimizer::solver::ls::inter_or_opt::{InterOrOptOperator, InterOrOptParams};
use hermes_optimizer::solver::ls::inter_relocate::{InterRelocateOperator, InterRelocateParams};
use hermes_optimizer::solver::ls::inter_reverse_two_opt::{
    InterReverseTwoOptOperator, InterReverseTwoOptOperatorParams,
};
use hermes_optimizer::solver::ls::inter_swap::{InterSwapOperator, InterSwapOperatorParams};
use hermes_optimizer::solver::ls::inter_two_opt_star::{
    InterTwoOptStarOperator, InterTwoOptStarOperatorParams,
};
use hermes_optimizer::solver::ls::mixed_exchange::{MixedExchangeOperator, MixedExchangeParams};
use hermes_optimizer::solver::ls::or_opt::{OrOptOperator, OrOptOperatorParams};
use hermes_optimizer::solver::ls::relocate::{RelocateOperator, RelocateOperatorParams};
use hermes_optimizer::solver::ls::swap::{SwapOperator, SwapOperatorParams};
use hermes_optimizer::solver::ls::swap_star::{SwapStar, SwapStarParams};
use hermes_optimizer::solver::ls::two_opt::{TwoOptOperator, TwoOptParams};
use hermes_optimizer::solver::solution::{RouteIdx, WorkingSolution, WorkingSolutionRoute};

fn solution_of(routes: Vec<Vec<usize>>) -> WorkingSolution {
    WorkingSolution::new(
        routes
            .into_iter()
            .map(|ids| {
                WorkingSolutionRoute::new(ids.into_iter().map(ActivityId::service).collect(), None)
            })
            .collect(),
    )
}

fn job_ids(solution: &WorkingSolution, route: usize) -> Vec<usize> {
    solution
        .route(RouteIdx::new(route))
        .activity_ids()
        .iter()
        .map(|a| a.job_id().get())
        .collect()
}

#[test]
fn test_two_opt() {
    let mut solution = solution_of(vec![vec![0, 1, 2, 3, 4, 5], vec![6, 7, 8, 9, 10]]);
    TwoOptOperator::new(TwoOptParams { route_id: RouteIdx::new(0), from: 1, to: 4 }).apply(&mut solution);
    assert_eq!(job_ids(&solution, 0), vec![0, 4, 3, 2, 1, 5]);
}

#[test]
fn test_two_opt_asymmetric() {
    let mut solution = solution_of(vec![vec![0, 1, 2, 3, 4, 5], vec![6, 7, 8, 9, 10]]);
    TwoOptOperator::new(TwoOptParams { route_id: RouteIdx::new(0), from: 1, to: 4 }).apply(&mut solution);
    assert_eq!(job_ids(&solution, 0), vec![0, 4, 3, 2, 1, 5]);
}

#[test]
fn test_two_opt_end_of_route() {
    let mut solution = solution_of(vec![vec![0, 1, 2, 3, 4, 5], vec![6, 7, 8, 9, 10]]);
    TwoOptOperator::new(TwoOptParams { route_id: RouteIdx::new(0), from: 1, to: 5 }).apply(&mut solution);
    assert_eq!(job_ids(&solution, 0), vec![0, 5, 4, 3, 2, 1]);
    TwoOptOperator::new(TwoOptParams { route_id: RouteIdx::new(0), from: 1, to: 4 }).apply(&mut solution);
    assert_eq!(job_ids(&solution, 0), vec![0, 2, 3, 4, 5, 1]);
}

#[test]
fn test_two_opt_asymmetric_end_of_route() {
    let mut solution = solution_of(vec![vec![0, 1, 2, 3, 4, 5], vec![6, 7, 8, 9, 10]]);
    TwoOptOperator::new(TwoOptParams { route_id: RouteIdx::new(0), from: 1, to: 5 }).apply(&mut solution);
    assert_eq!(job_ids(&solution, 0), vec![0, 5, 4, 3, 2, 1]);
}

#[test]
fn test_relocate() {
    let mut solution = solution_of(vec![vec![0, 1, 2, 3, 4, 5], vec![6, 7, 8, 9, 10]]);
    RelocateOperator::new(RelocateOperatorParams { route_id: RouteIdx::new(0), from: 1, to: 4 }).apply(&mut solution);
    assert_eq!(job_ids(&solution, 0), vec![0, 2, 3, 1, 4, 5]);
}

#[test]
fn test_relocate_first() {
    let mut solution = solution_of(vec![vec![0, 1, 2, 3, 4, 5], vec![6, 7, 8, 9, 10]]);
    RelocateOperator::new(RelocateOperatorParams { route_id: RouteIdx::new(0), from: 0, to: 3 }).apply(&mut solution);
    assert_eq!(job_ids(&solution, 0), vec![1, 2, 0, 3, 4, 5]);
}

#[test]
fn test_relocate_one_before() {
    let mut solution = solution_of(vec![vec![0, 1, 2, 3, 4, 5], vec![6, 7, 8, 9, 10]]);
    RelocateOperator::new(RelocateOperatorParams { route_id: RouteIdx::new(0), from: 4, to: 3 }).apply(&mut solution);
    assert_eq!(job_ids(&solution, 0), vec![0, 1, 2, 4, 3, 5]);
}

#[test]
fn test_relocate_end_of_route() {
    let mut solution = solution_of(vec![vec![0, 1, 2, 3, 4, 5], vec![6, 7, 8, 9, 10]]);
    RelocateOperator::new(RelocateOperatorParams { route_id: RouteIdx::new(0), from: 1, to: 6 }).apply(&mut solution);
    assert_eq!(job_ids(&solution, 0), vec![0, 2, 3, 4, 5, 1]);
}

#[test]
fn test_relocate_end_of_route_with_return() {
    let mut solution = solution_of(vec![vec![0, 1, 2, 3, 4, 5], vec![6, 7, 8, 9, 10]]);
    RelocateOperator::new(RelocateOperatorParams { route_id: RouteIdx::new(0), from: 1, to: 6 }).apply(&mut solution);
    assert_eq!(job_ids(&solution, 0), vec![0, 2, 3, 4, 5, 1]);
}

#[test]
fn test_relocate_start_of_route() {
    let mut solution = solution_of(vec![vec![0, 1, 2, 3, 4, 5], vec![6, 7, 8, 9, 10]]);
    RelocateOperator::new(RelocateOperatorParams { route_id: RouteIdx::new(0), from: 1, to: 0 }).apply(&mut solution);
    assert_eq!(job_ids(&solution, 0), vec![1, 0, 2, 3, 4, 5]);
}

#[test]
fn test_relocate_before_end_of_route() {
    let mut solution = solution_of(vec![vec![0, 1, 2, 3, 4, 5], vec![6, 7, 8, 9, 10]]);
    RelocateOperator::new(RelocateOperatorParams { route_id: RouteIdx::new(0), from: 1, to: 5 }).apply(&mut solution);
    assert_eq!(job_ids(&solution, 0), vec![0, 2, 3, 4, 1, 5]);
}

#[test]
fn test_swap_apply() {
    let mut solution = solution_of(vec![vec![0, 1, 2, 3, 4, 5], vec![6, 7, 8, 9, 10]]);
    SwapOperator::new(SwapOperatorParams { route_id: RouteIdx::new(0), first: 1, second: 5 }).apply(&mut solution);
    assert_eq!(job_ids(&solution, 0), vec![0, 5, 2, 3, 4, 1]);
}

#[test]
fn test_swap_second_before_first_apply() {
    let mut solution = solution_of(vec![vec![0, 1, 2, 3, 4, 5], vec![6, 7, 8, 9, 10]]);
    SwapOperator::new(SwapOperatorParams { route_id: RouteIdx::new(0), first: 5, second: 2 }).apply(&mut solution);
    assert_eq!(job_ids(&solution, 0), vec![0, 1, 5, 3, 4, 2]);
}

#[test]
fn test_swap_end_of_route() {
    let mut solution = solution_of(vec![vec![0, 1, 2, 3, 4, 5]]);
    SwapOperator::new(SwapOperatorParams { route_id: RouteIdx::new(0), first: 0, second: 5 }).apply(&mut solution);
    assert_eq!(job_ids(&solution, 0), vec![5, 1, 2, 3, 4, 0]);
}

#[test]
fn test_swap_end_of_route_with_return() {
    let mut solution = solution_of(vec![vec![0, 1, 2, 3, 4, 5]]);
    SwapOperator::new(SwapOperatorParams { route_id: RouteIdx::new(0), first: 0, second: 5 }).apply(&mut solution);
    assert_eq!(job_ids(&solution, 0), vec![5, 1, 2, 3, 4, 0]);
}

#[test]
fn test_or_opt() {
    let mut solution = solution_of(vec![vec![0, 1, 2, 3, 4, 5, 6, 7], vec![8, 9, 10]]);
    OrOptOperator::new(OrOptOperatorParams { route_id: RouteIdx::new(0), from: 1, segment_length: 3, to: 5 }).apply(&mut solution);
    assert_eq!(job_ids(&solution, 0), vec![0, 4, 1, 2, 3, 5, 6, 7]);
    OrOptOperator::new(OrOptOperatorParams { route_id: RouteIdx::new(0), from: 4, segment_length: 2, to: 2 }).apply(&mut solution);
    assert_eq!(job_ids(&solution, 0), vec![0, 4, 3, 5, 1, 2, 6, 7]);
}

#[test]
fn test_or_opt_to_before_from() {
    let mut solution = solution_of(vec![vec![0, 1, 2, 3, 4, 5, 6, 7], vec![8, 9, 10]]);
    OrOptOperator::new(OrOptOperatorParams { route_id: RouteIdx::new(0), from: 4, segment_length: 2, to: 1 }).apply(&mut solution);
    assert_eq!(job_ids(&solution, 0), vec![0, 4, 5, 1, 2, 3, 6, 7]);
}

#[test]
fn test_or_opt_end_of_route() {
    let mut solution = solution_of(vec![vec![0, 1, 2, 3, 4, 5, 6, 7], vec![8, 9, 10]]);
    OrOptOperator::new(OrOptOperatorParams { route_id: RouteIdx::new(0), from: 1, segment_length: 3, to: 8 }).apply(&mut solution);
    assert_eq!(job_ids(&solution, 0), vec![0, 4, 5, 6, 7, 1, 2, 3]);
}

#[test]
fn test_or_opt_end_of_route_with_return() {
    let mut solution = solution_of(vec![vec![0, 1, 2, 3, 4, 5, 6, 7], vec![8, 9, 10]]);
    OrOptOperator::new(OrOptOperatorParams { route_id: RouteIdx::new(0), from: 1, segment_length: 3, to: 8 }).apply(&mut solution);
    assert_eq!(job_ids(&solution, 0), vec![0, 4, 5, 6, 7, 1, 2, 3]);
}

#[test]
fn test_or_opt_delta() {
    let mut solution = solution_of(vec![vec![0, 1, 2, 3, 4, 5, 6, 7, 8, 9, 10]]);
    OrOptOperator::new(OrOptOperatorParams { route_id: RouteIdx::new(0), from: 0, segment_length: 9, to: 10 }).apply(&mut solution);
    assert_eq!(job_ids(&solution, 0), vec![9, 0, 1, 2, 3, 4, 5, 6, 7, 8, 10]);
}

#[test]
fn test_mixed_exchange() {
    let mut solution = solution_of(vec![vec![0, 1, 2, 3, 4, 5, 6, 7], vec![8, 9, 10]]);
    MixedExchangeOperator::new(MixedExchangeParams { route_id: RouteIdx::new(0), position: 1, segment_start: 4, segment_length: 3 }).apply(&mut solution);
    assert_eq!(job_ids(&solution, 0), vec![0, 4, 5, 6, 2, 3, 1, 7]);
}

#[test]
fn test_mixed_exchange_segment_before_position() {
    let mut solution = solution_of(vec![vec![0, 1, 2, 3, 4, 5, 6, 7], vec![8, 9, 10]]);
    MixedExchangeOperator::new(MixedExchangeParams { route_id: RouteIdx::new(0), position: 5, segment_start: 1, segment_length: 2 }).apply(&mut solution);
    assert_eq!(job_ids(&solution, 0), vec![0, 5, 3, 4, 1, 2, 6, 7]);
}

#[test]
fn test_inter_relocate() {
    let mut solution = solution_of(vec![vec![0, 1, 2, 3, 4, 5], vec![6, 7, 8, 9, 10]]);
    InterRelocateOperator::new(InterRelocateParams { from_route_id: RouteIdx::new(0), to_route_id: RouteIdx::new(1), from: 1, to: 4 }).apply(&mut solution);
    assert_eq!(job_ids(&solution, 0), vec![0, 2, 3, 4, 5]);
    assert_eq!(job_ids(&solution, 1), vec![6, 7, 8, 9, 1, 10]);
}

#[test]
fn test_inter_relocate_first() {
    let mut solution = solution_of(vec![vec![10, 1, 2, 3, 4, 5], vec![6, 7, 8, 9]]);
    InterRelocateOperator::new(InterRelocateParams { from_route_id: RouteIdx::new(0), to_route_id: RouteIdx::new(1), from: 0, to: 0 }).apply(&mut solution);
    assert_eq!(job_ids(&solution, 0), vec![1, 2, 3, 4, 5]);
    assert_eq!(job_ids(&solution, 1), vec![10, 6, 7, 8, 9]);
}

#[test]
fn test_inter_relocate_end() {
    let mut solution = solution_of(vec![vec![10, 1, 2, 3, 4, 5], vec![6, 7, 8, 9]]);
    InterRelocateOperator::new(InterRelocateParams { from_route_id: RouteIdx::new(0), to_route_id: RouteIdx::new(1), from: 1, to: 4 }).apply(&mut solution);
    assert_eq!(job_ids(&solution, 0), vec![10, 2, 3, 4, 5]);
    assert_eq!(job_ids(&solution, 1), vec![6, 7, 8, 9, 1]);
}

#[test]
fn test_inter_relocate_with_return() {
    let mut solution = solution_of(vec![vec![10, 1, 2, 3, 4, 5], vec![6, 7, 8, 9]]);
    InterRelocateOperator::new(InterRelocateParams { from_route_id: RouteIdx::new(0), to_route_id: RouteIdx::new(1), from: 0, to: 4 }).apply(&mut solution);
    assert_eq!(job_ids(&solution, 0), vec![1, 2, 3, 4, 5]);
    assert_eq!(job_ids(&solution, 1), vec![6, 7, 8, 9, 10]);
}

#[test]
fn test_inter_swap_apply() {
    let mut solution = solution_of(vec![vec![0, 1, 2, 3, 4, 5], vec![6, 7, 8, 9, 10]]);
    InterSwapOperator::new(InterSwapOperatorParams { first_route_id: RouteIdx::new(0), second_route_id: RouteIdx::new(1), first: 1, second: 3 }).apply(&mut solution);
    assert_eq!(job_ids(&solution, 0), vec![0, 9, 2, 3, 4, 5]);
    assert_eq!(job_ids(&solution, 1), vec![6, 7, 8, 1, 10]);
}

#[test]
fn test_inter_swap_second_before_first() {
    let mut solution = solution_of(vec![vec![0, 1, 2, 3, 4, 5], vec![6, 7, 8, 9, 10]]);
    InterSwapOperator::new(InterSwapOperatorParams { first_route_id: RouteIdx::new(0), second_route_id: RouteIdx::new(1), first: 4, second: 1 }).apply(&mut solution);
    assert_eq!(job_ids(&solution, 0), vec![0, 1, 2, 3, 7, 5]);
    assert_eq!(job_ids(&solution, 1), vec![6, 4, 8, 9, 10]);
}

#[test]
fn test_inter_swap_end_of_route() {
    let mut solution = solution_of(vec![vec![0, 1, 2, 3, 4, 5], vec![6, 7, 8, 9, 10]]);
    InterSwapOperator::new(InterSwapOperatorParams { first_route_id: RouteIdx::new(0), second_route_id: RouteIdx::new(1), first: 5, second: 4 }).apply(&mut solution);
    assert_eq!(job_ids(&solution, 0), vec![0, 1, 2, 3, 4, 10]);
    assert_eq!(job_ids(&solution, 1), vec![6, 7, 8, 9, 5]);
}

#[test]
fn test_inter_swap_end_of_route_with_return() {
    let mut solution = solution_of(vec![vec![0, 1, 2, 3, 4, 5], vec![6, 7, 8, 9, 10]]);
    InterSwapOperator::new(InterSwapOperatorParams { first_route_id: RouteIdx::new(0), second_route_id: RouteIdx::new(1), first: 5, second: 4 }).apply(&mut solution);
    assert_eq!(job_ids(&solution, 0), vec![0, 1, 2, 3, 4, 10]);
    assert_eq!(job_ids(&solution, 1), vec![6, 7, 8, 9, 5]);
}

#[test]
fn test_inter_or_opt() {
    let mut solution = solution_of(vec![vec![0, 1, 2, 3, 4, 5, 6, 7], vec![8, 9, 10]]);
    InterOrOptOperator::new(InterOrOptParams { from_route_id: RouteIdx::new(0), to_route_id: RouteIdx::new(1), segment_start: 1, segment_length: 3, to: 2 }).apply(&mut solution);
    assert_eq!(job_ids(&solution, 0), vec![0, 4, 5, 6, 7]);
    assert_eq!(job_ids(&solution, 1), vec![8, 9, 1, 2, 3, 10]);
}

#[test]
fn test_inter_or_opt_end_of_route() {
    let mut solution = solution_of(vec![vec![0, 1, 2, 3, 4, 5, 6, 7], vec![8, 9, 10]]);
    InterOrOptOperator::new(InterOrOptParams { from_route_id: RouteIdx::new(0), to_route_id: RouteIdx::new(1), segment_start: 1, segment_length: 2, to: 3 }).apply(&mut solution);
    assert_eq!(job_ids(&solution, 0), vec![0, 3, 4, 5, 6, 7]);
    assert_eq!(job_ids(&solution, 1), vec![8, 9, 10, 1, 2]);
}

#[test]
fn test_inter_or_opt_end_of_route_with_return() {
    let mut solution = solution_of(vec![vec![0, 1, 2, 3, 4, 5, 6, 7], vec![8, 9, 10]]);
    InterOrOptOperator::new(InterOrOptParams { from_route_id: RouteIdx::new(0), to_route_id: RouteIdx::new(1), segment_start: 1, segment_length: 2, to: 3 }).apply(&mut solution);
    assert_eq!(job_ids(&solution, 0), vec![0, 3, 4, 5, 6, 7]);
    assert_eq!(job_ids(&solution, 1), vec![8, 9, 10, 1, 2]);
}

#[test]
fn test_inter_or_opt_start_of_route() {
    let mut solution = solution_of(vec![vec![0, 1, 2, 3, 4, 5, 6, 7], vec![8, 9, 10]]);
    InterOrOptOperator::new(InterOrOptParams { from_route_id: RouteIdx::new(0), to_route_id: RouteIdx::new(1), segment_start: 1, segment_length: 2, to: 0 }).apply(&mut solution);
    assert_eq!(job_ids(&solution, 0), vec![0, 3, 4, 5, 6, 7]);
    assert_eq!(job_ids(&solution, 1), vec![1, 2, 8, 9, 10]);
}

#[test]
fn test_inter_or_opt_end_to_end() {
    let mut solution = solution_of(vec![vec![0, 1, 2, 3, 4, 5, 6, 7], vec![8, 9, 10]]);
    InterOrOptOperator::new(InterOrOptParams { from_route_id: RouteIdx::new(0), to_route_id: RouteIdx::new(1), segment_start: 6, segment_length: 2, to: 3 }).apply(&mut solution);
    assert_eq!(job_ids(&solution, 0), vec![0, 1, 2, 3, 4, 5]);
    assert_eq!(job_ids(&solution, 1), vec![8, 9, 10, 6, 7]);
}

#[test]
fn inter_two_opt_star_test_inter_two_opt_star() {
    let mut solution = solution_of(vec![vec![0, 1, 2, 3, 4, 5], vec![6, 7, 8, 9, 10]]);
    InterTwoOptStarOperator::new(InterTwoOptStarOperatorParams { first_route_id: RouteIdx::new(0), second_route_id: RouteIdx::new(1), first_from: 2, second_from: 2 }).apply(&mut solution);
    assert_eq!(job_ids(&solution, 0), vec![0, 1, 2, 9, 10]);
    assert_eq!(job_ids(&solution, 1), vec![6, 7, 8, 3, 4, 5]);
}

#[test]
fn inter_two_opt_star_test_inter_two_opt_star_2() {
    let mut solution = solution_of(vec![vec![0, 1, 2, 3, 4, 5], vec![6, 7, 8, 9, 10]]);
    InterTwoOptStarOperator::new(InterTwoOptStarOperatorParams { first_route_id: RouteIdx::new(0), second_route_id: RouteIdx::new(1), first_from: 4, second_from: 3 }).apply(&mut solution);
    assert_eq!(job_ids(&solution, 0), vec![0, 1, 2, 3, 4, 10]);
    assert_eq!(job_ids(&solution, 1), vec![6, 7, 8, 9, 5]);
}

#[test]
fn test_cross_exchange() {
    let mut solution = solution_of(vec![vec![0, 1, 2, 3, 4, 5], vec![6, 7, 8, 9, 10]]);
    CrossExchangeOperator::new(CrossExchangeOperatorParams { first_route_id: RouteIdx::new(0), first_start: 1, first_end: 3, second_route_id: RouteIdx::new(1), second_start: 1, second_end: 2 }).apply(&mut solution);
    assert_eq!(job_ids(&solution, 0), vec![0, 7, 8, 4, 5]);
    assert_eq!(job_ids(&solution, 1), vec![6, 1, 2, 3, 9, 10]);
}

#[test]
fn test_inter_mixed_exchange() {
    let mut solution = solution_of(vec![vec![0, 1, 2, 3, 4, 5, 6, 7], vec![8, 9, 10]]);
    InterMixedExchange::new(InterMixedExchangeParams { from_route_id: RouteIdx::new(1), to_route_id: RouteIdx::new(0), position: 1, segment_start: 2, segment_length: 3 }).apply(&mut solution);
    assert_eq!(job_ids(&solution, 0), vec![0, 1, 9, 5, 6, 7]);
    assert_eq!(job_ids(&solution, 1), vec![8, 2, 3, 4, 10]);
}

#[test]
fn test_reverse_two_opt() {
    let mut solution = solution_of(vec![vec![0, 1, 2, 3, 4, 5], vec![6, 7, 8, 9, 10]]);
    InterReverseTwoOptOperator::new(InterReverseTwoOptOperatorParams { first_route_id: RouteIdx::new(0), second_route_id: RouteIdx::new(1), first_position: 2, second_position: 2 }).apply(&mut solution);
    assert_eq!(job_ids(&solution, 0), vec![0, 1, 2, 8, 7, 6]);
    assert_eq!(job_ids(&solution, 1), vec![5, 4, 3, 9, 10]);
}

#[test]
fn test_swap_star_both_in_place_apply() {
    let mut solution = solution_of(vec![vec![0, 1, 2, 3, 4, 5], vec![6, 7, 8, 9, 10]]);
    SwapStar::new(SwapStarParams { first_route: RouteIdx::new(0), second_route: RouteIdx::new(1), first_position: 2, second_position: 3, first_insertion: 2, second_insertion: 3 }).apply(&mut solution);
    assert_eq!(job_ids(&solution, 0), vec![0, 1, 9, 3, 4, 5]);
    assert_eq!(job_ids(&solution, 1), vec![6, 7, 8, 2, 10]);
}

#[test]
fn test_swap_star_r1_in_place_apply() {
    let mut solution = solution_of(vec![vec![0, 1, 2, 3, 4, 5], vec![6, 7, 8, 9, 10]]);
    SwapStar::new(SwapStarParams { first_route: RouteIdx::new(0), second_route: RouteIdx::new(1), first_position: 2, second_position: 3, first_insertion: 2, second_insertion: 1 }).apply(&mut solution);
    assert_eq!(job_ids(&solution, 0), vec![0, 1, 9, 3, 4, 5]);
    assert_eq!(job_ids(&solution, 1), vec![6, 2, 7, 8, 10]);
}

#[test]
fn test_swap_star_r2_in_place_apply() {
    let mut solution = solution_of(vec![vec![0, 1, 2, 3, 4, 5], vec![6, 7, 8, 9, 10]]);
    SwapStar::new(SwapStarParams { first_route: RouteIdx::new(0), second_route: RouteIdx::new(1), first_position: 2, second_position: 3, first_insertion: 1, second_insertion: 3 }).apply(&mut solution);
    assert_eq!(job_ids(&solution, 0), vec![0, 9, 1, 3, 4, 5]);
    assert_eq!(job_ids(&solution, 1), vec![6, 7, 8, 2, 10]);
}

#[test]
fn test_swap_star_none_in_place_apply() {
    let mut solution = solution_of(vec![vec![0, 1, 2, 3, 4, 5], vec![6, 7, 8, 9, 10]]);
    SwapStar::new(SwapStarParams { first_route: RouteIdx::new(0), second_route: RouteIdx::new(1), first_position: 2, second_position: 3, first_insertion: 4, second_insertion: 1 }).apply(&mut solution);
    assert_eq!(job_ids(&solution, 0), vec![0, 1, 3, 9, 4, 5]);
    assert_eq!(job_ids(&solution, 1), vec![6, 2, 7, 8, 10]);
}

#[test]
fn test_swap_star_end_of_route() {
    let mut solution = solution_of(vec![vec![0, 1, 2, 3, 4, 5], vec![6, 7, 8, 9, 10]]);
    SwapStar::new(SwapStarParams { first_route: RouteIdx::new(0), second_route: RouteIdx::new(1), first_position: 2, second_position: 3, first_insertion: 6, second_insertion: 5 }).apply(&mut solution);
    assert_eq!(job_ids(&solution, 0), vec![0, 1, 3, 4, 5, 9]);
    assert_eq!(job_ids(&solution, 1), vec![6, 7, 8, 10, 2]);
}

#[test]
fn test_swap_star_end_of_route_with_return() {
    let mut solution = solution_of(vec![vec![0, 1, 2, 3, 4, 5], vec![6, 7, 8, 9, 10]]);
    SwapStar::new(SwapStarParams { first_route: RouteIdx::new(0), second_route: RouteIdx::new(1), first_position: 2, second_position: 3, first_insertion: 6, second_insertion: 5 }).apply(&mut solution);
    assert_eq!(job_ids(&solution, 0), vec![0, 1, 3, 4, 5, 9]);
    assert_eq!(job_ids(&solution, 1), vec![6, 7, 8, 10, 2]);
}

#[test]
fn test_inter_two_opt_star() {
    let mut solution = solution_of(vec![vec![0, 1, 2, 3, 4, 5], vec![6, 7, 8, 9, 10]]);
    IntensifyInterTwoOptStar::new(IntensifyInterTwoOptStarParams { first_route_id: 0, second_route_id: 1, first_from: 2, second_from: 2 }).apply(&mut solution);
    assert_eq!(job_ids(&solution, 0), vec![0, 1, 2, 9, 10]);
    assert_eq!(job_ids(&solution, 1), vec![6, 7, 8, 3, 4, 5]);
}

#[test]
fn test_inter_two_opt_star_2() {
    let mut solution = solution_of(vec![vec![0, 1, 2, 3, 4, 5], vec![6, 7, 8, 9, 10]]);
    IntensifyInterTwoOptStar::new(IntensifyInterTwoOptStarParams { first_route_id: 0, second_route_id: 1, first_from: 4, second_from: 3 }).apply(&mut solution);
    assert_eq!(job_ids(&solution, 0), vec![0, 1, 2, 3, 4, 10]);
    assert_eq!(job_ids(&solution, 1), vec![6, 7, 8, 9, 5]);
}
