use hermes_optimizer::problem::job::ActivityId;
use hermes_optimizer::solver::ls::cross_exchange::{CrossExchangeOperator, CrossExchangeOperatorParams};
use hermes_optimizer::solver::ls::inter_mixed_exchange::{InterMixedExchange, InterMixedExchangeParams};
use hermes_optimizer::solver::ls::inter_or_opt::InterOrOptOperator;
use hermes_optimizer::solver::ls::inter_relocate::InterRelocateOperator;
use hermes_optimizer::solver::ls::inter_reverse_two_opt::{
    InterReverseTwoOptOperator, InterReverseTwoOptOperatorParams,
};
use hermes_optimizer::solver::ls::inter_swap::{InterSwapOperator, InterSwapOperatorParams};
use hermes_optimizer::solver::ls::inter_two_opt_star::{
    InterTwoOptStarOperator, InterTwoOptStarOperatorParams,
};
use hermes_optimizer::solver::ls::or_opt::OrOptOperator;
use hermes_optimizer::solver::ls::relocate::RelocateOperator;
use hermes_optimizer::solver::ls::swap::SwapOperator;
use hermes_optimizer::solver::ls::two_opt::{TwoOptOperator, TwoOptParams};
use hermes_optimizer::solver::solution::{RouteIdx, WorkingSolution, WorkingSolutionRoute};

fn solution_of(routes: Vec<Vec<usize>>) -> WorkingSolution {
    WorkingSolution::new(
        routes
            .into_iter()
            .map(|ids| {
                WorkingSolutionRoute::new(ids.into_iter().map(ActivityId::service).collect(), None)
            })
            .collect(),
    )
}

fn job_ids(solution: &WorkingSolution, route: usize) -> Vec<usize> {
    solution
        .route(RouteIdx::new(route))
        .activity_ids()
        .iter()
        .map(|a| a.job_id().get())
        .collect()
}

fn two_routes() -> WorkingSolution {
    solution_of(vec![vec![0, 1, 2, 3, 4, 5], vec![6, 7, 8, 9, 10]])
}

#[test]
fn two_opt_applied_twice_restores_route() {
    let mut solution = two_routes();
    let op = TwoOptOperator::new(TwoOptParams { route_id: RouteIdx::new(0), from: 0, to: 3 });
    op.apply(&mut solution);
    op.apply(&mut solution);
    assert_eq!(job_ids(&solution, 0), vec![0, 1, 2, 3, 4, 5]);
}

#[test]
fn two_opt_generates_every_pair() {
    let solution = solution_of(vec![vec![0, 1, 2, 3, 4]]);
    let moves = TwoOptOperator::generate_moves(&solution, (RouteIdx::new(0), RouteIdx::new(0)));
    let pairs: Vec<(usize, usize)> = moves.iter().map(|m| (m.params().from, m.params().to)).collect();
    assert_eq!(pairs, vec![(0, 2), (0, 3), (0, 4), (1, 3), (1, 4), (2, 4)]);
    let short = solution_of(vec![vec![0, 1, 2]]);
    assert!(TwoOptOperator::generate_moves(&short, (RouteIdx::new(0), RouteIdx::new(0))).is_empty());
}

#[test]
fn relocate_generates_windows_of_shipments() {
    let route = vec![
        ActivityId::service(0),
        ActivityId::shipment_pickup(1),
        ActivityId::service(2),
        ActivityId::shipment_delivery(1),
    ];
    let solution = WorkingSolution::new(vec![WorkingSolutionRoute::new(route, None)]);
    let moves = RelocateOperator::generate_moves(&solution, (RouteIdx::new(0), RouteIdx::new(0)));
    let pairs: Vec<(usize, usize)> = moves.iter().map(|m| (m.params().from, m.params().to)).collect();
    assert_eq!(
        pairs,
        vec![
            (0, 2),
            (0, 3),
            (0, 4),
            (1, 3),
            (2, 0),
            (2, 1),
            (2, 4),
            (3, 2)
        ]
    );
}

#[test]
fn or_opt_generates_far_enough_targets() {
    let solution = solution_of(vec![vec![0, 1, 2, 3, 4]]);
    let moves = OrOptOperator::generate_moves(&solution, (RouteIdx::new(0), RouteIdx::new(0)));
    let pairs: Vec<(usize, usize)> = moves.iter().map(|m| (m.params().from, m.params().to)).collect();
    assert_eq!(pairs, vec![(0, 4), (2, 0), (3, 0), (3, 1)]);
    assert!(moves.iter().all(|m| m.params().segment_length == 2));
}

#[test]
fn inter_relocate_generation_respects_vehicle_bound() {
    let full = WorkingSolution::new(vec![
        WorkingSolutionRoute::new(vec![ActivityId::service(0)], None),
        WorkingSolutionRoute::new(vec![ActivityId::service(1)], Some(1)),
    ]);
    assert!(InterRelocateOperator::generate_moves(&full, (RouteIdx::new(0), RouteIdx::new(1)))
        .is_empty());
    let room = WorkingSolution::new(vec![
        WorkingSolutionRoute::new(
            vec![ActivityId::service(0), ActivityId::shipment_pickup(2)],
            None,
        ),
        WorkingSolutionRoute::new(vec![ActivityId::service(1)], Some(2)),
    ]);
    let moves = InterRelocateOperator::generate_moves(&room, (RouteIdx::new(0), RouteIdx::new(1)));
    let pairs: Vec<(usize, usize)> = moves.iter().map(|m| (m.params().from, m.params().to)).collect();
    assert_eq!(pairs, vec![(0, 0), (0, 1)]);
}

#[test]
fn inter_swap_turns_shipment_into_service() {
    let mut solution = WorkingSolution::new(vec![
        WorkingSolutionRoute::new(vec![ActivityId::shipment_pickup(3)], None),
        WorkingSolutionRoute::new(vec![ActivityId::service(4)], None),
    ]);
    InterSwapOperator::new(InterSwapOperatorParams {
        first_route_id: RouteIdx::new(0),
        second_route_id: RouteIdx::new(1),
        first: 0,
        second: 0,
    })
    .apply(&mut solution);
    assert_eq!(
        solution.route(RouteIdx::new(1)).activity_ids().to_vec(),
        vec![ActivityId::service(3)]
    );
}

#[test]
fn inter_or_opt_generates_both_lengths() {
    let solution = solution_of(vec![vec![0, 1, 2], vec![3]]);
    let moves = InterOrOptOperator::generate_moves(&solution, (RouteIdx::new(0), RouteIdx::new(1)));
    let triples: Vec<(usize, usize, usize)> = moves
        .iter()
        .map(|m| (m.params().segment_length, m.params().segment_start, m.params().to))
        .collect();
    assert_eq!(
        triples,
        vec![(2, 0, 0), (2, 0, 1), (2, 1, 0), (2, 1, 1), (3, 0, 0), (3, 0, 1)]
    );
}

#[test]
fn inter_two_opt_star_exchanges_tails() {
    let mut solution = two_routes();
    let op = InterTwoOptStarOperator::new(InterTwoOptStarOperatorParams {
        first_route_id: RouteIdx::new(0),
        second_route_id: RouteIdx::new(1),
        first_from: 2,
        second_from: 2,
    });
    assert_eq!(op.first_route_head(&solution), (0..3).map(ActivityId::service).collect::<Vec<_>>());
    assert_eq!(op.second_route_tail(&solution), (9..11).map(ActivityId::service).collect::<Vec<_>>());
    op.apply(&mut solution);
    assert_eq!(job_ids(&solution, 0), vec![0, 1, 2, 9, 10]);
    assert_eq!(job_ids(&solution, 1), vec![6, 7, 8, 3, 4, 5]);
    op.apply(&mut solution);
    assert_eq!(job_ids(&solution, 0), vec![0, 1, 2, 3, 4, 5]);
    assert_eq!(job_ids(&solution, 1), vec![6, 7, 8, 9, 10]);
}

#[test]
fn cross_exchange_swaps_segments() {
    let mut solution = two_routes();
    let op = CrossExchangeOperator::new(CrossExchangeOperatorParams {
        first_route_id: RouteIdx::new(0),
        second_route_id: RouteIdx::new(1),
        first_start: 1,
        first_end: 3,
        second_start: 0,
        second_end: 1,
    });
    op.apply(&mut solution);
    assert_eq!(job_ids(&solution, 0), vec![0, 6, 7, 4, 5]);
    assert_eq!(job_ids(&solution, 1), vec![1, 2, 3, 8, 9, 10]);
}

#[test]
fn inter_mixed_exchange_swaps_node_with_segment() {
    let mut solution = two_routes();
    let op = InterMixedExchange::new(InterMixedExchangeParams {
        from_route_id: RouteIdx::new(0),
        to_route_id: RouteIdx::new(1),
        position: 2,
        segment_start: 1,
        segment_length: 2,
    });
    op.apply(&mut solution);
    assert_eq!(job_ids(&solution, 0), vec![0, 1, 7, 8, 3, 4, 5]);
    assert_eq!(job_ids(&solution, 1), vec![6, 2, 9, 10]);
}

#[test]
fn inter_mixed_exchange_generation_needs_intersecting_boxes() {
    let solution = two_routes();
    let pair = (RouteIdx::new(0), RouteIdx::new(1));
    assert!(InterMixedExchange::generate_moves(&solution, pair, false).is_empty());
    let moves = InterMixedExchange::generate_moves(&solution, pair, true);
    assert_eq!(moves.len(), 6 * 3);
    assert_eq!(moves[0].params().position, 0);
    assert_eq!(moves[0].params().segment_start, 0);
    assert_eq!(moves[17].params().position, 5);
    assert_eq!(moves[17].params().segment_start, 2);
}

#[test]
fn inter_reverse_two_opt_reverses_exchanged_parts() {
    let mut solution = two_routes();
    let op = InterReverseTwoOptOperator::new(InterReverseTwoOptOperatorParams {
        first_route_id: RouteIdx::new(0),
        second_route_id: RouteIdx::new(1),
        first_position: 2,
        second_position: 1,
    });
    op.apply(&mut solution);
    assert_eq!(job_ids(&solution, 0), vec![0, 1, 2, 7, 6]);
    assert_eq!(job_ids(&solution, 1), vec![5, 4, 3, 8, 9, 10]);
}

#[test]
fn swap_generates_each_pair_once() {
    let solution = solution_of(vec![vec![0, 1, 2]]);
    let moves = SwapOperator::generate_moves(&solution, (RouteIdx::new(0), RouteIdx::new(0)));
    let pairs: Vec<(usize, usize)> = moves.iter().map(|m| (m.params().first, m.params().second)).collect();
    assert_eq!(pairs, vec![(0, 1), (0, 2), (1, 2)]);
}

#[test]
fn inter_two_opt_star_generates_cuts_within_bounds() {
    let solution = WorkingSolution::new(vec![
        WorkingSolutionRoute::new((0..3).map(ActivityId::service).collect(), Some(3)),
        WorkingSolutionRoute::new((3..7).map(ActivityId::service).collect(), None),
    ]);
    let forward = (RouteIdx::new(1), RouteIdx::new(0));
    let cuts: Vec<(usize, usize)> = InterTwoOptStarOperator::generate_moves(&solution, forward, true)
        .iter()
        .map(|m| (m.params().first_from, m.params().second_from))
        .collect();
    assert_eq!(cuts, vec![(1, 0), (2, 0), (2, 1)]);
    assert!(InterTwoOptStarOperator::generate_moves(&solution, forward, false).is_empty());
    let backward = (RouteIdx::new(0), RouteIdx::new(1));
    assert!(InterTwoOptStarOperator::generate_moves(&solution, backward, true).is_empty());
    let unbounded = two_routes();
    assert_eq!(
        InterTwoOptStarOperator::generate_moves(&unbounded, forward, true).len(),
        4 * 5
    );
}

#[test]
fn inter_reverse_two_opt_generates_positions_within_bounds() {
    let solution = WorkingSolution::new(vec![
        WorkingSolutionRoute::new((0..3).map(ActivityId::service).collect(), Some(3)),
        WorkingSolutionRoute::new((3..7).map(ActivityId::service).collect(), None),
    ]);
    let pair = (RouteIdx::new(0), RouteIdx::new(1));
    let positions: Vec<(usize, usize)> = InterReverseTwoOptOperator::generate_moves(&solution, pair, true)
        .iter()
        .map(|m| (m.params().first_position, m.params().second_position))
        .collect();
    assert_eq!(positions, vec![(0, 0), (0, 1), (1, 0)]);
    assert!(InterReverseTwoOptOperator::generate_moves(&solution, pair, false).is_empty());
    let same = (RouteIdx::new(1), RouteIdx::new(1));
    assert!(InterReverseTwoOptOperator::generate_moves(&solution, same, true).is_empty());
}

#[test]
fn cross_exchange_generates_neighboring_segments() {
    let solution = solution_of(vec![vec![0, 1, 2, 3], vec![4, 5, 6, 7, 8]]);
    let pair = (RouteIdx::new(1), RouteIdx::new(0));
    let starts = |t: usize| -> Vec<(usize, usize)> {
        let near = |x: ActivityId, y: ActivityId| x.job_id().get().abs_diff(y.job_id().get()) <= t;
        CrossExchangeOperator::generate_moves(&solution, pair, true, &near)
            .iter()
            .map(|m| {
                let p = m.params();
                assert_eq!(p.first_end, p.first_start + 1);
                assert_eq!(p.second_end, p.second_start + 1);
                (p.first_start, p.second_start)
            })
            .collect()
    };
    assert_eq!(starts(4), vec![]);
    assert_eq!(starts(5), vec![(0, 1)]);
    assert_eq!(starts(6), vec![(0, 0), (0, 1), (1, 1)]);
    assert_eq!(starts(7), vec![(0, 0), (0, 1), (1, 0), (1, 1), (2, 1)]);
    assert_eq!(starts(8), vec![(0, 0), (0, 1), (1, 0), (1, 1), (2, 0), (2, 1)]);
    let always = |_: ActivityId, _: ActivityId| true;
    assert!(CrossExchangeOperator::generate_moves(&solution, pair, false, &always).is_empty());
    let backward = (RouteIdx::new(0), RouteIdx::new(1));
    assert!(CrossExchangeOperator::generate_moves(&solution, backward, true, &always).is_empty());
}
