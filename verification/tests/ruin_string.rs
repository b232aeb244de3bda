use hermes_optimizer::problem::job::{ActivityId, JobIdx};
use hermes_optimizer::solver::ruin::ruin_radial::RuinRadial;
use hermes_optimizer::solver::ruin::ruin_string::{RuinSplitStringParams, RuinString};
use hermes_optimizer::solver::solution::{RouteIdx, WorkingSolution, WorkingSolutionRoute};
use rand::rngs::SmallRng;
use rand::SeedableRng;

fn solution_of(routes: Vec<Vec<usize>>) -> WorkingSolution {
    WorkingSolution::new(
        routes
            .into_iter()
            .map(|ids| {
                WorkingSolutionRoute::new(ids.into_iter().map(ActivityId::service).collect(), None)
            })
            .collect(),
    )
}

fn job_ids(solution: &WorkingSolution, route: usize) -> Vec<usize> {
    solution
        .route(RouteIdx::new(route))
        .activity_ids()
        .iter()
        .map(|a| a.job_id().get())
        .collect()
}

#[test]
fn test_compute_possible_string_start() {
    assert_eq!(
        RuinString::compute_possible_string_start(3, 1, 5),
        vec![0, 1]
    );

    assert_eq!(RuinString::compute_possible_string_start(3, 4, 5), vec![2]);
}

#[test]
fn test_remove_split_string() {
    let mut solution = solution_of(vec![vec![0, 1, 2, 3, 4, 5, 6, 7, 8]]);

    let ruin_string = RuinString::default();
    ruin_string.remove_split_string(
        &mut solution,
        RuinSplitStringParams {
            route_id: RouteIdx::new(0),
            start: 1,
            start_of_preserved_string: 2,
            string_length: 3,
            preserved_string_length: 2,
        },
    );

    assert_eq!(
        solution.route(RouteIdx::new(0)).activity_ids().to_vec(),
        vec![
            ActivityId::service(0),
            ActivityId::service(3),
            ActivityId::service(4),
            ActivityId::service(6),
            ActivityId::service(7),
            ActivityId::service(8)
        ]
    )
}

#[test]
fn test_remove_split_string_2() {
    let mut solution = solution_of(vec![vec![0, 1, 2, 3, 4, 5, 6, 7, 8]]);

    let ruin_string = RuinString::default();
    ruin_string.remove_split_string(
        &mut solution,
        RuinSplitStringParams {
            route_id: RouteIdx::new(0),
            start: 1,
            start_of_preserved_string: 2,
            string_length: 5,
            preserved_string_length: 2,
        },
    );

    assert_eq!(
        solution.route(RouteIdx::new(0)).activity_ids().to_vec(),
        vec![
            ActivityId::service(0),
            ActivityId::service(3),
            ActivityId::service(4),
            ActivityId::service(8)
        ]
    )
}

#[test]
fn possible_string_starts_at_route_edges() {
    assert_eq!(RuinString::compute_possible_string_start(3, 0, 5), vec![0]);
    assert_eq!(RuinString::compute_possible_string_start(5, 2, 5), vec![0]);
    assert_eq!(RuinString::compute_possible_string_start(2, 2, 5), vec![1, 2]);
    assert_eq!(RuinString::compute_possible_string_start(6, 2, 5), Vec::<usize>::new());
    assert_eq!(RuinString::compute_possible_string_start(0, 2, 5), Vec::<usize>::new());
}

#[test]
fn split_string_without_preserved_part_removes_whole_string() {
    let mut solution = solution_of(vec![vec![0, 1, 2, 3, 4, 5], vec![6, 7]]);
    RuinString::default().remove_split_string(
        &mut solution,
        RuinSplitStringParams {
            route_id: RouteIdx::new(0),
            start: 2,
            start_of_preserved_string: 0,
            string_length: 3,
            preserved_string_length: 0,
        },
    );
    assert_eq!(job_ids(&solution, 0), vec![0, 1, 5]);
    assert_eq!(job_ids(&solution, 1), vec![6, 7]);
}

#[test]
fn preserved_length_bounds() {
    let mut rng = SmallRng::seed_from_u64(7);
    assert_eq!(RuinString::compute_preserved_length(5, 5, &mut rng), 0);
    assert_eq!(RuinString::compute_preserved_length(6, 5, &mut rng), 1);
    assert_eq!(RuinString::compute_preserved_length(4, 5, &mut rng), 1);
    for _ in 0..50 {
        let r = RuinString::compute_preserved_length(3, 10, &mut rng);
        assert!(r >= 1 && 3 + r <= 10);
    }
}

#[test]
fn ruin_string_removes_one_contiguous_string() {
    let mut rng = SmallRng::seed_from_u64(42);
    for _ in 0..20 {
        let initial: Vec<usize> = (0..12).collect();
        let mut solution = solution_of(vec![initial.clone(), vec![20, 21]]);
        RuinString::default().ruin_string(&mut solution, &mut rng, RouteIdx::new(0));
        let left = job_ids(&solution, 0);
        let removed = initial.len() - left.len();
        assert!((3..=10).contains(&removed));
        let start = left.iter().zip(initial.iter()).take_while(|(a, b)| a == b).count();
        let mut expected = initial[..start].to_vec();
        expected.extend_from_slice(&initial[start + removed..]);
        assert_eq!(left, expected);
        assert_eq!(job_ids(&solution, 1), vec![20, 21]);
    }
}

#[test]
fn ruin_string_on_short_route_can_empty_it() {
    let mut rng = SmallRng::seed_from_u64(3);
    let mut solution = solution_of(vec![vec![1, 2]]);
    RuinString::default().ruin_string(&mut solution, &mut rng, RouteIdx::new(0));
    assert!(job_ids(&solution, 0).is_empty());
}

#[test]
fn ruin_split_string_keeps_order_of_remaining_activities() {
    let mut rng = SmallRng::seed_from_u64(11);
    for _ in 0..20 {
        let initial: Vec<usize> = (0..15).collect();
        let mut solution = solution_of(vec![initial.clone()]);
        RuinString::default().ruin_split_string(&mut solution, &mut rng, RouteIdx::new(0));
        let left = job_ids(&solution, 0);
        assert!(left.len() < initial.len());
        assert!(left.windows(2).all(|w| w[0] < w[1]));
    }
}

#[test]
fn test_radial_ruin_basic() {
    // jobs at (1, 0), (2, 1), (0, 2) and (2, 2); the drawn location is (0, 0),
    // whose nearest jobs are, in order, 0, 2, 1 and 3
    let mut solution = WorkingSolution::new(vec![WorkingSolutionRoute::new(
        (0..4).map(ActivityId::service).collect(),
        None,
    )]);
    let nearest = vec![JobIdx(0), JobIdx(2), JobIdx(1), JobIdx(3)];
    RuinRadial.ruin_solution(&mut solution, &nearest, 2);
    assert_eq!(
        solution.route(RouteIdx::new(0)).activity_ids().to_vec(),
        vec![ActivityId::Service(JobIdx(1)), ActivityId::Service(JobIdx(3))]
    );
}

#[test]
fn radial_ruin_skips_unassigned_jobs_and_removes_whole_shipments() {
    let mut solution = WorkingSolution::new(vec![
        WorkingSolutionRoute::new(
            vec![
                ActivityId::service(0),
                ActivityId::shipment_pickup(5),
                ActivityId::service(1),
                ActivityId::shipment_delivery(5),
            ],
            None,
        ),
        WorkingSolutionRoute::new(vec![ActivityId::service(2), ActivityId::service(3)], None),
    ]);
    let nearest = vec![JobIdx(9), JobIdx(5), JobIdx(7), JobIdx(3), JobIdx(0)];
    RuinRadial.ruin_solution(&mut solution, &nearest, 2);
    assert_eq!(
        solution.route(RouteIdx::new(0)).activity_ids().to_vec(),
        vec![ActivityId::service(0), ActivityId::service(1)]
    );
    assert_eq!(solution.route(RouteIdx::new(1)).activity_ids().to_vec(), vec![ActivityId::service(2)]);
    assert!(!solution.remove_job(JobIdx(3)));
    assert!(solution.remove_job(JobIdx(1)));
    assert_eq!(solution.route(RouteIdx::new(0)).activity_ids().to_vec(), vec![ActivityId::service(0)]);
}

#[test]
fn random_draws_vary_with_the_generator() {
    let mut outcomes: Vec<Vec<usize>> = Vec::new();
    for seed in 0..40 {
        let mut rng = SmallRng::seed_from_u64(seed);
        let mut solution = solution_of(vec![(0..12).collect()]);
        RuinString::default().ruin_string(&mut solution, &mut rng, RouteIdx::new(0));
        let left = job_ids(&solution, 0);
        if !outcomes.contains(&left) {
            outcomes.push(left);
        }
    }
    assert!(outcomes.len() > 5);
    assert!(outcomes.iter().any(|left| left.first() != Some(&0) && left.len() < 9));

    let mut lengths: Vec<usize> = Vec::new();
    for seed in 0..40 {
        let mut rng = SmallRng::seed_from_u64(seed);
        let r = RuinString::compute_preserved_length(3, 1000, &mut rng);
        assert!(r >= 1 && r <= 997);
        lengths.push(r);
    }
    assert!(lengths.iter().any(|&r| r > 1 && r < 997));
    lengths.sort();
    lengths.dedup();
    assert!(lengths.len() > 5);
}
