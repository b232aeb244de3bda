use hermes_optimizer::problem::job::{ActivityId, JobIdx};
use hermes_optimizer::solver::accepted_solution::AcceptedSolutionId;
use hermes_optimizer::solver::constraints::global_constraint::GlobalConstraintType;
use hermes_optimizer::solver::constraints::maximum_activities_constraint::MaximumActivitiesConstraint;
use hermes_optimizer::solver::constraints::maximum_working_duration_constraint::MaximumWorkingDurationConstraint;
use hermes_optimizer::solver::constraints::relation_constraint::RelationConstraint;
use hermes_optimizer::solver::constraints::route_constraint::{
    CapacityConstraint, RouteConstraintType, ShiftConstraint, VehicleCostConstraint,
};
use hermes_optimizer::solver::constraints::skill_constraint::SkillConstraint;
use hermes_optimizer::solver::constraints::time_window_constraint::TimeWindowConstraint;
use hermes_optimizer::solver::constraints::transport_cost_constraint::TransportCostConstraint;
use hermes_optimizer::solver::constraints::unassigned_job_constraint::UnassignedJobConstraint;
use hermes_optimizer::solver::constraints::waiting_duration_constraint::WaitingDurationConstraint;
use hermes_optimizer::solver::insertion::{
    for_each_insertion, for_each_route_insertion, Insertion, RouteJobFacts, ServiceInsertion,
    ShipmentInsertion,
};
use hermes_optimizer::solver::insertion_context::InsertionContext;
use hermes_optimizer::solver::recreate::best_insertion::BestInsertionSortStrategy;
use hermes_optimizer::solver::recreate::recreate_params::RecreateParams;
use hermes_optimizer::solver::recreate::recreate_strategy::RecreateStrategy;
use hermes_optimizer::solver::score_level::ScoreLevel;
use hermes_optimizer::solver::solution::{RouteIdx, WorkingSolution, WorkingSolutionRoute};

fn services(ids: Vec<usize>) -> Vec<ActivityId> {
    ids.into_iter().map(ActivityId::service).collect()
}

fn solution_of(routes: Vec<Vec<usize>>) -> WorkingSolution {
    WorkingSolution::new(
        routes.into_iter().map(|ids| WorkingSolutionRoute::new(services(ids), None)).collect(),
    )
}

#[test]
fn activity_ids_know_their_job() {
    let pickup = ActivityId::shipment_pickup(4);
    let delivery = ActivityId::shipment_delivery(4);
    let service = ActivityId::service(7);
    assert_eq!(pickup.job_id(), JobIdx::new(4));
    assert_eq!(delivery.job_id().get(), 4);
    assert_eq!(service.job_id(), JobIdx(7));
    assert!(pickup.is_shipment());
    assert!(delivery.is_shipment());
    assert!(!service.is_shipment());
    assert_eq!(ActivityId::service(3), ActivityId::Service(JobIdx(3)));
}

#[test]
fn route_reads_and_edits() {
    let mut route = WorkingSolutionRoute::new(services(vec![0, 1, 2, 3]), Some(5));
    assert_eq!(route.len(), 4);
    assert!(!route.is_empty());
    assert_eq!(route.maximum_activities(), Some(5));
    assert_eq!(route.activity_id(2), ActivityId::service(2));
    assert_eq!(route.get(3), Some(ActivityId::service(3)));
    assert_eq!(route.get(4), None);
    assert_eq!(route.activity_ids_iter(1, 3), services(vec![1, 2]));
    assert_eq!(route.job_position(ActivityId::service(3)), Some(3));
    assert_eq!(route.job_position(ActivityId::shipment_pickup(3)), None);
    assert!(!route.will_break_maximum_activities(1));
    assert!(route.will_break_maximum_activities(2));
    route.replace_activities(&services(vec![9, 8, 7]), 1, 3);
    assert_eq!(route.activity_ids().clone(), services(vec![0, 9, 8, 7, 3]));
    assert_eq!(route.remove(0), ActivityId::service(0));
    route.insert(4, ActivityId::service(6));
    assert_eq!(route.activity_ids().clone(), services(vec![9, 8, 7, 3, 6]));
    let empty = WorkingSolutionRoute::empty(None);
    assert!(empty.is_empty());
    assert!(!empty.will_break_maximum_activities(usize::MAX));
}

#[test]
fn solution_edits_one_route() {
    let mut solution = solution_of(vec![vec![0, 1, 2], vec![3, 4]]);
    assert_eq!(solution.len(), 2);
    assert_eq!(solution.routes().len(), 2);
    solution.replace_activities(RouteIdx::new(1), &services(vec![5]), 0, 1);
    assert_eq!(solution.route(RouteIdx(1)).activity_ids().clone(), services(vec![5, 4]));
    assert_eq!(solution.remove_activity(RouteIdx(0), 1), ActivityId::service(1));
    solution.insert_activity(RouteIdx(0), 0, ActivityId::shipment_delivery(8));
    assert_eq!(
        solution.route(RouteIdx(0)).activity_ids().clone(),
        vec![ActivityId::shipment_delivery(8), ActivityId::service(0), ActivityId::service(2)]
    );
    assert_eq!(solution.route(RouteIdx(1)).activity_ids().clone(), services(vec![5, 4]));
    assert_eq!(RouteIdx::new(3).get(), 3);
}

#[test]
fn insertions_report_their_job_and_route() {
    let solution = solution_of(vec![vec![0, 1, 2], vec![3, 4, 5, 6]]);
    let service = Insertion::Service(ServiceInsertion {
        route_id: RouteIdx(0),
        job_index: JobIdx(9),
        position: 1,
    });
    let shipment = Insertion::Shipment(ShipmentInsertion {
        route_id: RouteIdx(1),
        job_index: JobIdx(8),
        pickup_position: 1,
        delivery_position: 3,
    });
    assert_eq!(service.job_idx(), JobIdx(9));
    assert_eq!(service.route_id(), RouteIdx(0));
    assert_eq!(shipment.job_idx(), JobIdx(8));
    assert_eq!(shipment.route_id(), RouteIdx(1));
    assert_eq!(shipment.route(&solution).activity_ids().clone(), services(vec![3, 4, 5, 6]));
}

#[test]
fn inserted_activities_of_service_and_shipment() {
    let route = WorkingSolutionRoute::new(services(vec![3, 4, 5, 6]), None);
    let service = ServiceInsertion { route_id: RouteIdx(0), job_index: JobIdx(9), position: 1 };
    assert_eq!(service.inserted_activity_ids(), vec![ActivityId::service(9)]);
    let shipment = ShipmentInsertion {
        route_id: RouteIdx(0),
        job_index: JobIdx(8),
        pickup_position: 1,
        delivery_position: 3,
    };
    assert_eq!(
        shipment.inserted_activity_ids(&route),
        vec![
            ActivityId::shipment_pickup(8),
            ActivityId::service(4),
            ActivityId::service(5),
            ActivityId::shipment_delivery(8),
        ]
    );
    let adjacent = ShipmentInsertion { pickup_position: 2, delivery_position: 2, ..shipment };
    assert_eq!(
        adjacent.inserted_activity_ids(&route),
        vec![ActivityId::shipment_pickup(8), ActivityId::shipment_delivery(8)]
    );
}

#[test]
fn insertion_context_lists_the_changed_tail() {
    let solution = solution_of(vec![vec![0, 1, 2], vec![3, 4, 5, 6]]);
    let service = Insertion::Service(ServiceInsertion {
        route_id: RouteIdx(0),
        job_index: JobIdx(9),
        position: 1,
    });
    let context = InsertionContext::new(&solution, &service);
    assert_eq!(context.route().len(), 3);
    assert_eq!(context.updated_activities_iter(), services(vec![9, 1, 2]));

    let shipment = Insertion::Shipment(ShipmentInsertion {
        route_id: RouteIdx(1),
        job_index: JobIdx(8),
        pickup_position: 1,
        delivery_position: 3,
    });
    let context = InsertionContext::new(&solution, &shipment);
    assert_eq!(
        context.updated_activities_iter(),
        vec![
            ActivityId::shipment_pickup(8),
            ActivityId::service(4),
            ActivityId::service(5),
            ActivityId::shipment_delivery(8),
            ActivityId::service(6),
        ]
    );

    let at_end = Insertion::Service(ServiceInsertion {
        route_id: RouteIdx(1),
        job_index: JobIdx(7),
        position: 4,
    });
    let context = InsertionContext::new(&solution, &at_end);
    assert_eq!(context.updated_activities_iter(), services(vec![7]));
}

#[test]
fn constraint_levels() {
    assert_eq!(MaximumActivitiesConstraint.score_level(), ScoreLevel::Hard);
    assert_eq!(MaximumWorkingDurationConstraint.score_level(), ScoreLevel::Hard);
    assert_eq!(RelationConstraint.score_level(), ScoreLevel::Hard);
    assert_eq!(SkillConstraint.score_level(), ScoreLevel::Hard);
    assert_eq!(TransportCostConstraint.score_level(), ScoreLevel::Soft);
    assert_eq!(UnassignedJobConstraint.score_level(), ScoreLevel::Hard);
    assert_eq!(WaitingDurationConstraint.score_level(), ScoreLevel::Soft);
    assert_eq!(TimeWindowConstraint::default().score_level(), ScoreLevel::Hard);
    assert_eq!(TimeWindowConstraint::new(ScoreLevel::Soft).score_level(), ScoreLevel::Soft);
}

#[test]
fn constraint_names() {
    assert_eq!(
        GlobalConstraintType::TransportCost(TransportCostConstraint).constraint_name(),
        "transport_cost"
    );
    assert_eq!(
        GlobalConstraintType::UnassignedJobCost(UnassignedJobConstraint).constraint_name(),
        "unassigned_job_cost"
    );
    assert_eq!(
        GlobalConstraintType::TransportCost(TransportCostConstraint).score_level(),
        ScoreLevel::Soft
    );
    assert_eq!(
        GlobalConstraintType::UnassignedJobCost(UnassignedJobConstraint).score_level(),
        ScoreLevel::Hard
    );
    let names: Vec<&str> = vec![
        RouteConstraintType::Capacity(CapacityConstraint),
        RouteConstraintType::Shift(ShiftConstraint),
        RouteConstraintType::MaximumWorkingDuration(MaximumWorkingDurationConstraint),
        RouteConstraintType::WaitingDuration(WaitingDurationConstraint),
        RouteConstraintType::VehicleCost(VehicleCostConstraint),
        RouteConstraintType::MaximumJobs(MaximumActivitiesConstraint),
    ]
    .iter()
    .map(|c| c.constraint_name())
    .collect();
    assert_eq!(
        names,
        vec![
            "capacity",
            "shift",
            "maximum_working_duration",
            "waiting_duration",
            "vehicle_cost",
            "maximum_activities",
        ]
    );
}

#[test]
fn recreate_defaults() {
    let expected = vec![
        RecreateStrategy::RegretInsertion(2),
        RecreateStrategy::BestInsertion(BestInsertionSortStrategy::Random),
        RecreateStrategy::BestInsertion(BestInsertionSortStrategy::Demand),
        RecreateStrategy::BestInsertion(BestInsertionSortStrategy::Far),
        RecreateStrategy::BestInsertion(BestInsertionSortStrategy::Close),
        RecreateStrategy::BestInsertion(BestInsertionSortStrategy::TimeWindow),
    ];
    let params = RecreateParams::default();
    assert_eq!(params.recreate_strategies, expected);
    assert!(!params.insert_on_failure);
    for (tw, cap) in [(false, false), (true, false), (false, true), (true, true)] {
        let params = RecreateParams::default_from_problem(tw, cap);
        assert_eq!(params.recreate_strategies, expected);
        assert!(!params.insert_on_failure);
    }
    assert_eq!(BestInsertionSortStrategy::default(), BestInsertionSortStrategy::Random);
    let names: Vec<&str> = [
        BestInsertionSortStrategy::Random,
        BestInsertionSortStrategy::Demand,
        BestInsertionSortStrategy::Far,
        BestInsertionSortStrategy::Close,
        BestInsertionSortStrategy::TimeWindow,
    ]
    .iter()
    .map(|s| s.name())
    .collect();
    assert_eq!(names, vec!["Random", "Demand", "Far", "Close", "TimeWindow"]);
}

#[test]
fn accepted_solution_id_keeps_its_number() {
    assert_eq!(AcceptedSolutionId::new(42).get(), 42);
}

#[test]
fn recreate_strategy_names() {
    assert_eq!(RecreateStrategy::CompleteBestInsertion.name(), "CompleteBestInsertion");
    assert_eq!(
        RecreateStrategy::BestInsertion(BestInsertionSortStrategy::Far).name(),
        "BestInsertion(Far)"
    );
    assert_eq!(
        RecreateStrategy::BestInsertion(BestInsertionSortStrategy::TimeWindow).name(),
        "BestInsertion(TimeWindow)"
    );
    assert_eq!(RecreateStrategy::RegretInsertion(2).name(), "RegretInsertion(2)");
    assert_eq!(RecreateStrategy::RegretInsertion(0).name(), "RegretInsertion(0)");
    assert_eq!(RecreateStrategy::RegretInsertion(10).name(), "RegretInsertion(10)");
    assert_eq!(
        RecreateStrategy::RegretInsertion(usize::MAX).name(),
        format!("RegretInsertion({})", usize::MAX)
    );
}

fn open_facts(len: usize) -> RouteJobFacts {
    RouteJobFacts {
        can_deliver: true,
        range: (0, len),
        delivery_range: (0, len),
        near: vec![true; len + 1],
        delivery_near: vec![true; len + 1],
    }
}

fn positions(insertions: &[Insertion]) -> Vec<(usize, usize, usize)> {
    insertions
        .iter()
        .map(|i| match i {
            Insertion::Service(s) => (s.route_id.get(), s.position, 0),
            Insertion::Shipment(s) => (s.route_id.get(), s.pickup_position, s.delivery_position),
        })
        .collect()
}

#[test]
fn route_service_insertions_follow_range_and_neighborhood() {
    let solution = solution_of(vec![vec![0, 1, 2]]);
    let mut facts = open_facts(3);
    let all = for_each_route_insertion(&solution, RouteIdx(0), JobIdx(9), false, None, &facts);
    assert_eq!(positions(&all), vec![(0, 0, 0), (0, 1, 0), (0, 2, 0), (0, 3, 0)]);
    assert!(all.iter().all(|i| i.job_idx() == JobIdx(9) && matches!(i, Insertion::Service(_))));
    facts.range = (1, 3);
    facts.near[2] = false;
    let some = for_each_route_insertion(&solution, RouteIdx(0), JobIdx(9), false, None, &facts);
    assert_eq!(positions(&some), vec![(0, 1, 0), (0, 3, 0)]);
    facts.can_deliver = false;
    assert!(for_each_route_insertion(&solution, RouteIdx(0), JobIdx(9), false, None, &facts).is_empty());
}

#[test]
fn route_insertions_respect_dependencies_and_room() {
    let solution = WorkingSolution::new(vec![
        WorkingSolutionRoute::new(services(vec![0, 1]), Some(3)),
        WorkingSolutionRoute::new(services(vec![2, 3, 4]), Some(3)),
    ]);
    let facts = open_facts(2);
    assert!(
        for_each_route_insertion(&solution, RouteIdx(0), JobIdx(9), false, Some(RouteIdx(1)), &facts)
            .is_empty()
    );
    assert_eq!(
        for_each_route_insertion(&solution, RouteIdx(0), JobIdx(9), false, Some(RouteIdx(0)), &facts)
            .len(),
        3
    );
    // two more activities do not fit under a bound of three
    assert!(for_each_route_insertion(&solution, RouteIdx(0), JobIdx(9), true, None, &facts).is_empty());
    // a full route takes no service
    assert!(
        for_each_route_insertion(&solution, RouteIdx(1), JobIdx(9), false, None, &open_facts(3))
            .is_empty()
    );
}

#[test]
fn route_shipment_insertions_pair_pickup_and_delivery() {
    let solution = solution_of(vec![vec![0, 1]]);
    let mut facts = open_facts(2);
    let all = for_each_route_insertion(&solution, RouteIdx(0), JobIdx(7), true, None, &facts);
    assert_eq!(
        positions(&all),
        vec![(0, 0, 0), (0, 0, 1), (0, 0, 2), (0, 1, 1), (0, 1, 2), (0, 2, 2)]
    );
    facts.delivery_range = (1, 2);
    facts.delivery_near[1] = false;
    facts.near[1] = false;
    let some = for_each_route_insertion(&solution, RouteIdx(0), JobIdx(7), true, None, &facts);
    assert_eq!(positions(&some), vec![(0, 0, 2), (0, 2, 2)]);
    let inserted: Vec<Vec<ActivityId>> = some
        .iter()
        .map(|i| match i {
            Insertion::Shipment(s) => s.inserted_activity_ids(solution.route(RouteIdx(0))),
            Insertion::Service(s) => s.inserted_activity_ids(),
        })
        .collect();
    assert_eq!(
        inserted[0],
        vec![
            ActivityId::shipment_pickup(7),
            ActivityId::service(0),
            ActivityId::service(1),
            ActivityId::shipment_delivery(7),
        ]
    );
    facts.delivery_near[2] = false;
    assert!(for_each_route_insertion(&solution, RouteIdx(0), JobIdx(7), true, None, &facts).is_empty());
}

#[test]
fn insertions_of_every_route_in_route_order() {
    let solution = solution_of(vec![vec![0], vec![], vec![1, 2]]);
    let facts = vec![open_facts(1), open_facts(0), open_facts(2)];
    let services = for_each_insertion(&solution, JobIdx(5), false, None, &facts);
    assert_eq!(
        positions(&services),
        vec![(0, 0, 0), (0, 1, 0), (1, 0, 0), (2, 0, 0), (2, 1, 0), (2, 2, 0)]
    );
    let bound = for_each_insertion(&solution, JobIdx(5), false, Some(RouteIdx(2)), &facts);
    assert_eq!(positions(&bound), vec![(2, 0, 0), (2, 1, 0), (2, 2, 0)]);
    // the dependencies do not restrict a shipment
    let shipments = for_each_insertion(&solution, JobIdx(5), true, Some(RouteIdx(2)), &facts);
    assert_eq!(
        positions(&shipments),
        vec![
            (0, 0, 0),
            (0, 0, 1),
            (0, 1, 1),
            (1, 0, 0),
            (2, 0, 0),
            (2, 0, 1),
            (2, 0, 2),
            (2, 1, 1),
            (2, 1, 2),
            (2, 2, 2),
        ]
    );
}

#[test]
fn insertions_of_every_route_concatenate_route_listings() {
    let solution = solution_of(vec![vec![0], vec![], vec![1, 2]]);
    let facts = vec![open_facts(1), open_facts(0), open_facts(2)];
    for deps in [None, Some(RouteIdx(0)), Some(RouteIdx(2))] {
        for is_shipment in [false, true] {
            let all = for_each_insertion(&solution, JobIdx(5), is_shipment, deps, &facts);
            let route_deps = if is_shipment { None } else { deps };
            let mut joined: Vec<Insertion> = Vec::new();
            for k in 0..3 {
                joined.extend(for_each_route_insertion(
                    &solution,
                    RouteIdx(k),
                    JobIdx(5),
                    is_shipment,
                    route_deps,
                    &facts[k],
                ));
            }
            assert_eq!(positions(&all), positions(&joined));
        }
    }
}
