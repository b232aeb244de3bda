use hermes_optimizer::problem::job::ActivityId;
use hermes_optimizer::solver::intensify::intensify_operator::IntensifyOperator;
use hermes_optimizer::solver::intensify::inter_two_opt_star::{
    InterTwoOptStarOperator as IntensifyInterTwoOptStar,
    InterTwoOptStarOperatorParams as IntensifyInterTwoOptStarParams,
};
use hermes_optimizer::solver::ls::cross_exchange::{CrossExchangeOperator, CrossExchangeOperatorParams};
use hermes_optimizer::solver::ls::inter_mixed_exchange::{InterMixedExchange, InterMixedExchangeParams};
use hermes_optimizer::solver::ls::inter_or_opt::{InterOrOptOperator, InterOrOptParams};
use hermes_optimizer::solver::ls::inter_relocate::{InterRelocateOperator, InterRelocateParams};
use hermes_optimizer::solver::ls::inter_reverse_two_opt::{
    InterReverseTwoOptOperator, InterReverseTwoOptOperatorParams,
};
use hermes_optimizer::solver::ls::inter_swap::{InterSwapOperator, InterSwapOperatorParams};
use hermes_optimizer::solver::ls::inter_two_opt_star::{
    InterTwoOptStarOperator, InterTwoOptStarOperatorParams,
};
use hermes_optimizer::solver::ls::local_search_move::LocalSearchMove;
use hermes_optimizer::solver::ls::mixed_exchange::{MixedExchangeOperator, MixedExchangeParams};
use hermes_optimizer::solver::ls::or_opt::{OrOptOperator, OrOptOperatorParams};
use hermes_optimizer::solver::ls::relocate::{RelocateOperator, RelocateOperatorParams};
use hermes_optimizer::solver::ls::swap::{SwapOperator, SwapOperatorParams};
use hermes_optimizer::solver::ls::swap_star::{SwapStar, SwapStarParams};
use hermes_optimizer::solver::ls::two_opt::{TwoOptOperator, TwoOptParams};
use hermes_optimizer::solver::solution::{RouteIdx, WorkingSolution, WorkingSolutionRoute};

fn solution_of(routes: Vec<Vec<usize>>) -> WorkingSolution {
    WorkingSolution::new(
        routes
            .into_iter()
            .map(|ids| {
                WorkingSolutionRoute::new(ids.into_iter().map(ActivityId::service).collect(), None)
            })
            .collect(),
    )
}

fn job_ids(solution: &WorkingSolution, route: usize) -> Vec<usize> {
    solution
        .route(RouteIdx::new(route))
        .activity_ids()
        .iter()
        .map(|a| a.job_id().get())
        .collect()
}

fn all_activities(solution: &WorkingSolution) -> Vec<ActivityId> {
    let mut all: Vec<ActivityId> = solution
        .routes()
        .iter()
        .flat_map(|route| route.activity_ids().iter().copied())
        .collect();
    all.sort_by_key(|a| match a {
        ActivityId::Service(j) => (j.get(), 0),
        ActivityId::ShipmentPickup(j) => (j.get(), 1),
        ActivityId::ShipmentDelivery(j) => (j.get(), 2),
    });
    all
}

fn r(i: usize) -> RouteIdx {
    RouteIdx::new(i)
}

fn every_local_search_move() -> Vec<LocalSearchMove> {
    vec![
        LocalSearchMove::TwoOpt(TwoOptOperator::new(TwoOptParams { route_id: r(0), from: 1, to: 4 })),
        LocalSearchMove::Relocate(RelocateOperator::new(RelocateOperatorParams {
            route_id: r(0),
            from: 1,
            to: 4,
        })),
        LocalSearchMove::Swap(SwapOperator::new(SwapOperatorParams { route_id: r(1), first: 0, second: 3 })),
        LocalSearchMove::SwapStar(SwapStar::new(SwapStarParams {
            first_route: r(0),
            second_route: r(1),
            first_position: 2,
            second_position: 3,
            first_insertion: 4,
            second_insertion: 1,
        })),
        LocalSearchMove::MixedExchange(MixedExchangeOperator::new(MixedExchangeParams {
            route_id: r(0),
            position: 1,
            segment_start: 3,
            segment_length: 2,
        })),
        LocalSearchMove::InterMixedExchange(InterMixedExchange::new(InterMixedExchangeParams {
            from_route_id: r(1),
            to_route_id: r(0),
            position: 1,
            segment_start: 2,
            segment_length: 3,
        })),
        LocalSearchMove::OrOpt(OrOptOperator::new(OrOptOperatorParams {
            route_id: r(0),
            from: 1,
            to: 5,
            segment_length: 2,
        })),
        LocalSearchMove::InterOrOpt(InterOrOptOperator::new(InterOrOptParams {
            from_route_id: r(0),
            to_route_id: r(1),
            segment_start: 1,
            segment_length: 2,
            to: 2,
        })),
        LocalSearchMove::InterRelocate(InterRelocateOperator::new(InterRelocateParams {
            from_route_id: r(1),
            to_route_id: r(0),
            from: 0,
            to: 0,
        })),
        LocalSearchMove::InterSwap(InterSwapOperator::new(InterSwapOperatorParams {
            first_route_id: r(0),
            second_route_id: r(1),
            first: 0,
            second: 1,
        })),
        LocalSearchMove::TwoOptStar(InterTwoOptStarOperator::new(InterTwoOptStarOperatorParams {
            first_route_id: r(0),
            second_route_id: r(1),
            first_from: 1,
            second_from: 2,
        })),
        LocalSearchMove::CrossExchange(CrossExchangeOperator::new(CrossExchangeOperatorParams {
            first_route_id: r(0),
            second_route_id: r(1),
            first_start: 0,
            first_end: 1,
            second_start: 1,
            second_end: 3,
        })),
        LocalSearchMove::InterTwoOptStar(InterTwoOptStarOperator::new(
            InterTwoOptStarOperatorParams {
                first_route_id: r(1),
                second_route_id: r(0),
                first_from: 0,
                second_from: 3,
            },
        )),
        LocalSearchMove::ReverseTwoOpt(InterReverseTwoOptOperator::new(
            InterReverseTwoOptOperatorParams {
                first_route_id: r(0),
                second_route_id: r(1),
                first_position: 1,
                second_position: 2,
            },
        )),
    ]
}

#[test]
fn local_search_move_names() {
    let names: Vec<&str> = every_local_search_move().iter().map(|m| m.operator_name()).collect();
    assert_eq!(
        names,
        vec![
            "Two-Opt",
            "Relocate",
            "Swap",
            "SwapStar",
            "Mixed-Exchange",
            "Inter-Mixed-Exchange",
            "Or-Opt",
            "Inter Or-Opt",
            "Inter-Relocate",
            "Inter-Swap",
            "Two-Opt*",
            "Cross-Exchange",
            "Inter-2-Opt*",
            "Inter-Reverse-2-Opt",
        ]
    );
}

#[test]
fn local_search_move_updated_routes() {
    let routes: Vec<Vec<usize>> = every_local_search_move()
        .iter()
        .map(|m| m.updated_routes().iter().map(|id| id.get()).collect())
        .collect();
    assert_eq!(
        routes,
        vec![
            vec![0],
            vec![0],
            vec![1],
            vec![0, 1],
            vec![0],
            vec![1, 0],
            vec![0],
            vec![0, 1],
            vec![1, 0],
            vec![0, 1],
            vec![0, 1],
            vec![0, 1],
            vec![1, 0],
            vec![0, 1],
        ]
    );
}

#[test]
fn local_search_move_applies_its_operator() {
    let mut solution = solution_of(vec![vec![0, 1, 2, 3, 4, 5], vec![6, 7, 8, 9, 10]]);
    let m = LocalSearchMove::SwapStar(SwapStar::new(SwapStarParams {
        first_route: r(0),
        second_route: r(1),
        first_position: 2,
        second_position: 3,
        first_insertion: 4,
        second_insertion: 1,
    }));
    m.apply(&mut solution);
    assert_eq!(job_ids(&solution, 0), vec![0, 1, 3, 9, 4, 5]);
    assert_eq!(job_ids(&solution, 1), vec![6, 2, 7, 8, 10]);
}

#[test]
fn every_local_search_move_keeps_the_activities() {
    let mut solution =
        solution_of(vec![vec![0, 1, 2, 3, 4, 5, 6, 7], vec![8, 9, 10, 11, 12, 13]]);
    let before = all_activities(&solution);
    for m in every_local_search_move() {
        m.apply(&mut solution);
        assert_eq!(all_activities(&solution), before, "after {}", m.operator_name());
    }
}

#[test]
fn every_intensify_move_keeps_the_activities() {
    let mut solution =
        solution_of(vec![vec![0, 1, 2, 3, 4, 5, 6, 7], vec![8, 9, 10, 11, 12, 13]]);
    let before = all_activities(&solution);
    let moves = vec![
        IntensifyOperator::TwoOpt(TwoOptOperator::new(TwoOptParams { route_id: r(1), from: 0, to: 5 })),
        IntensifyOperator::Relocate(RelocateOperator::new(RelocateOperatorParams {
            route_id: r(0),
            from: 7,
            to: 0,
        })),
        IntensifyOperator::Swap(SwapOperator::new(SwapOperatorParams { route_id: r(0), first: 2, second: 6 })),
        IntensifyOperator::OrOpt(OrOptOperator::new(OrOptOperatorParams {
            route_id: r(1),
            from: 0,
            to: 4,
            segment_length: 2,
        })),
        IntensifyOperator::InterRelocate(InterRelocateOperator::new(InterRelocateParams {
            from_route_id: r(0),
            to_route_id: r(1),
            from: 3,
            to: 6,
        })),
        IntensifyOperator::InterSwap(InterSwapOperator::new(InterSwapOperatorParams {
            first_route_id: r(1),
            second_route_id: r(0),
            first: 2,
            second: 2,
        })),
        IntensifyOperator::TwoOptStar(IntensifyInterTwoOptStar::new(IntensifyInterTwoOptStarParams {
            first_route_id: 0,
            second_route_id: 1,
            first_from: 3,
            second_from: 1,
        })),
        IntensifyOperator::CrossExchange(CrossExchangeOperator::new(CrossExchangeOperatorParams {
            first_route_id: r(1),
            second_route_id: r(0),
            first_start: 0,
            first_end: 2,
            second_start: 1,
            second_end: 2,
        })),
        IntensifyOperator::InterTwoOptStar(IntensifyInterTwoOptStar::new(
            IntensifyInterTwoOptStarParams {
                first_route_id: 1,
                second_route_id: 0,
                first_from: 0,
                second_from: 0,
            },
        )),
    ];
    let names: Vec<&str> = moves.iter().map(|m| m.operator_name()).collect();
    assert_eq!(
        names,
        vec![
            "Two-Opt",
            "Relocate",
            "Swap",
            "Or-Opt",
            "Inter-Relocate",
            "Inter-Swap",
            "Two-Opt*",
            "Cross-Exchange",
            "Inter-2-Opt*",
        ]
    );
    let updated: Vec<Vec<usize>> = moves.iter().map(|m| m.updated_routes()).collect();
    assert_eq!(
        updated,
        vec![
            vec![1],
            vec![0],
            vec![0],
            vec![1],
            vec![0, 1],
            vec![1, 0],
            vec![0, 1],
            vec![1, 0],
            vec![1, 0],
        ]
    );
    for m in moves {
        m.apply(&mut solution);
        assert_eq!(all_activities(&solution), before, "after {}", m.operator_name());
    }
}

#[test]
fn swap_star_generates_no_moves() {
    let solution = solution_of(vec![vec![0, 1, 2], vec![3, 4]]);
    assert!(SwapStar::generate_moves(&solution, (r(0), r(1))).is_empty());
}

#[test]
fn swap_star_places_activities_at_their_insertion_points() {
    let mut solution = solution_of(vec![vec![0, 1, 2, 3], vec![4, 5, 6]]);
    let op = SwapStar::new(SwapStarParams {
        first_route: r(0),
        second_route: r(1),
        first_position: 0,
        second_position: 2,
        first_insertion: 4,
        second_insertion: 0,
    });
    op.apply(&mut solution);
    assert_eq!(job_ids(&solution, 0), vec![1, 2, 3, 6]);
    assert_eq!(job_ids(&solution, 1), vec![0, 4, 5]);
    assert_eq!(op.updated_routes(), vec![r(0), r(1)]);
}

#[test]
fn swap_applied_twice_restores_route() {
    let mut solution = solution_of(vec![vec![0, 1, 2, 3, 4]]);
    let op = SwapOperator::new(SwapOperatorParams { route_id: r(0), first: 4, second: 1 });
    op.apply(&mut solution);
    assert_eq!(job_ids(&solution, 0), vec![0, 4, 2, 3, 1]);
    op.apply(&mut solution);
    assert_eq!(job_ids(&solution, 0), vec![0, 1, 2, 3, 4]);
}

#[test]
fn cross_exchange_of_equal_lengths_applied_twice_restores_routes() {
    let mut solution = solution_of(vec![vec![0, 1, 2, 3, 4], vec![5, 6, 7, 8]]);
    let op = CrossExchangeOperator::new(CrossExchangeOperatorParams {
        first_route_id: r(0),
        second_route_id: r(1),
        first_start: 1,
        first_end: 3,
        second_start: 0,
        second_end: 2,
    });
    op.apply(&mut solution);
    assert_eq!(job_ids(&solution, 0), vec![0, 5, 6, 7, 4]);
    assert_eq!(job_ids(&solution, 1), vec![1, 2, 3, 8]);
    op.apply(&mut solution);
    assert_eq!(job_ids(&solution, 0), vec![0, 1, 2, 3, 4]);
    assert_eq!(job_ids(&solution, 1), vec![5, 6, 7, 8]);
}

#[test]
fn inter_swap_of_services_applied_twice_restores_routes() {
    let mut solution = solution_of(vec![vec![0, 1, 2], vec![3, 4]]);
    let op = InterSwapOperator::new(InterSwapOperatorParams {
        first_route_id: r(0),
        second_route_id: r(1),
        first: 2,
        second: 0,
    });
    op.apply(&mut solution);
    assert_eq!(job_ids(&solution, 0), vec![0, 1, 3]);
    assert_eq!(job_ids(&solution, 1), vec![2, 4]);
    op.apply(&mut solution);
    assert_eq!(job_ids(&solution, 0), vec![0, 1, 2]);
    assert_eq!(job_ids(&solution, 1), vec![3, 4]);
}

#[test]
fn intensify_two_opt_star_applied_twice_restores_routes() {
    let mut solution = solution_of(vec![vec![0, 1, 2, 3], vec![4, 5, 6]]);
    let op = IntensifyInterTwoOptStar::new(IntensifyInterTwoOptStarParams {
        first_route_id: 0,
        second_route_id: 1,
        first_from: 0,
        second_from: 1,
    });
    assert_eq!(op.first_route_tail(&solution).len(), 3);
    assert_eq!(op.second_route_head(&solution), vec![ActivityId::service(4), ActivityId::service(5)]);
    op.apply(&mut solution);
    assert_eq!(job_ids(&solution, 0), vec![0, 6]);
    assert_eq!(job_ids(&solution, 1), vec![4, 5, 1, 2, 3]);
    op.apply(&mut solution);
    assert_eq!(job_ids(&solution, 0), vec![0, 1, 2, 3]);
    assert_eq!(job_ids(&solution, 1), vec![4, 5, 6]);
}

#[test]
fn every_local_search_move_leaves_other_routes_alone() {
    let mut solution = solution_of(vec![
        vec![0, 1, 2, 3, 4, 5, 6, 7],
        vec![8, 9, 10, 11, 12, 13],
        vec![14, 15, 16],
    ]);
    for m in every_local_search_move() {
        let before: Vec<Vec<usize>> = (0..3).map(|i| job_ids(&solution, i)).collect();
        let updated: Vec<usize> = m.updated_routes().iter().map(|id| id.get()).collect();
        m.apply(&mut solution);
        for i in 0..3 {
            if !updated.contains(&i) {
                assert_eq!(job_ids(&solution, i), before[i], "{} touched route {}", m.operator_name(), i);
            }
        }
        assert_eq!(solution.len(), 3);
    }
}

#[test]
fn heads_and_tails_read_one_route() {
    let solution = solution_of(vec![vec![0, 1, 2, 3], vec![4, 5]]);
    let star = InterTwoOptStarOperator::new(InterTwoOptStarOperatorParams {
        first_route_id: r(0),
        second_route_id: r(1),
        first_from: 1,
        second_from: 0,
    });
    let mut whole = star.first_route_head(&solution);
    assert_eq!(whole.len(), 2);
    whole.extend(star.first_route_tail(&solution));
    assert_eq!(whole, solution.route(r(0)).activity_ids().clone());
    let reverse = InterReverseTwoOptOperator::new(InterReverseTwoOptOperatorParams {
        first_route_id: r(0),
        second_route_id: r(1),
        first_position: 2,
        second_position: 1,
    });
    assert_eq!(reverse.first_route_tail(&solution), vec![ActivityId::service(3)]);
    let mut whole = reverse.first_route_head(&solution);
    whole.extend(reverse.first_route_tail(&solution));
    assert_eq!(whole, solution.route(r(0)).activity_ids().clone());
    assert_eq!(reverse.second_route_head(&solution), vec![ActivityId::service(4), ActivityId::service(5)]);
    assert!(reverse.second_route_tail(&solution).is_empty());
}
