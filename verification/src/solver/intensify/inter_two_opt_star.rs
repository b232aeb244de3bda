use vstd::prelude::*;

use crate::problem::job::ActivityId;
use crate::solver::ls::inter_two_opt_star::exchange_tails;
use crate::solver::solution::{RouteIdx, WorkingSolution};

verus! {

/// **Inter-Route 2-Opt* (Two-Opt Star)** of the intensification.
///
/// Exchanges the **tails** (remaining activities) of two different routes:
/// the first route keeps its activities up to `first_from` and continues with
/// those of the second after `second_from`, and the other way round. The
/// tails keep their direction.
///
/// ```text
/// BEFORE (Routes Cross):
///    R1: [Head A] --x--> [Tail A]
///    R2: [Head B] --x--> [Tail B]
///
/// AFTER (Routes Uncrossed):
///    R1: [Head A] -----> [Tail B]
///    R2: [Head B] -----> [Tail A]
/// ```
#[derive(Debug)]
pub struct InterTwoOptStarOperator {
    params: InterTwoOptStarOperatorParams,
}

#[derive(Debug, Clone, Copy)]
pub struct InterTwoOptStarOperatorParams {
    pub first_route_id: usize,
    pub second_route_id: usize,
    pub first_from: usize,
    pub second_from: usize,
}

impl InterTwoOptStarOperatorParams {
    /// The parameters that the operator accepts: two different routes.
    pub open spec fn valid(&self) -> bool {
        self.first_route_id != self.second_route_id
    }

    /// The move fits the routes of `solution`.
    pub open spec fn applicable(&self, solution: Seq<Seq<ActivityId>>) -> bool {
        &&& self.valid()
        &&& self.first_route_id < solution.len()
        &&& self.second_route_id < solution.len()
        &&& self.first_from < solution[self.first_route_id as int].len()
        &&& self.second_from < solution[self.second_route_id as int].len()
    }

    /// The routes after the move.
    pub open spec fn result(&self, solution: Seq<Seq<ActivityId>>) -> Seq<Seq<ActivityId>> {
        let e = exchange_tails(
            solution[self.first_route_id as int],
            solution[self.second_route_id as int],
            self.first_from as int,
            self.second_from as int,
        );
        solution.update(self.first_route_id as int, e.0).update(self.second_route_id as int, e.1)
    }
}

impl View for InterTwoOptStarOperator {
    type V = InterTwoOptStarOperatorParams;

    closed spec fn view(&self) -> InterTwoOptStarOperatorParams {
        self.params
    }
}

impl InterTwoOptStarOperator {
    /// The parameters of the move.
    pub fn params(&self) -> (r: InterTwoOptStarOperatorParams)
        ensures
            r == self@,
    {
        self.params
    }

    pub fn new(params: InterTwoOptStarOperatorParams) -> (r: Self)
        requires
            params.valid(),
        ensures
            r@ == params,
    {
        Self { params }
    }

    /// The activities of the first route up to `first_from`, inclusive.
    pub fn first_route_head(&self, solution: &WorkingSolution) -> (r: Vec<ActivityId>)
        requires
            self@.first_route_id < solution@.len(),
            self@.first_from < solution@[self@.first_route_id as int].len(),
        ensures
            r@ == solution@[self@.first_route_id as int].subrange(0, self@.first_from + 1),
    {
        let route = solution.route(RouteIdx(self.params.first_route_id));
        route.activity_ids_iter(0, self.params.first_from + 1)
    }

    /// The activities of the first route after `first_from`.
    pub fn first_route_tail(&self, solution: &WorkingSolution) -> (r: Vec<ActivityId>)
        requires
            self@.first_route_id < solution@.len(),
            self@.first_from < solution@[self@.first_route_id as int].len(),
        ensures
            r@ == solution@[self@.first_route_id as int].subrange(
                self@.first_from + 1,
                solution@[self@.first_route_id as int].len() as int,
            ),
    {
        let route = solution.route(RouteIdx(self.params.first_route_id));
        route.activity_ids_iter(self.params.first_from + 1, route.len())
    }

    /// The activities of the second route up to `second_from`, inclusive.
    pub fn second_route_head(&self, solution: &WorkingSolution) -> (r: Vec<ActivityId>)
        requires
            self@.second_route_id < solution@.len(),
            self@.second_from < solution@[self@.second_route_id as int].len(),
        ensures
            r@ == solution@[self@.second_route_id as int].subrange(0, self@.second_from + 1),
    {
        let route = solution.route(RouteIdx(self.params.second_route_id));
        route.activity_ids_iter(0, self.params.second_from + 1)
    }

    /// The activities of the second route after `second_from`.
    pub fn second_route_tail(&self, solution: &WorkingSolution) -> (r: Vec<ActivityId>)
        requires
            self@.second_route_id < solution@.len(),
            self@.second_from < solution@[self@.second_route_id as int].len(),
        ensures
            r@ == solution@[self@.second_route_id as int].subrange(
                self@.second_from + 1,
                solution@[self@.second_route_id as int].len() as int,
            ),
    {
        let route = solution.route(RouteIdx(self.params.second_route_id));
        route.activity_ids_iter(self.params.second_from + 1, route.len())
    }

    /// Rebuilds both routes: each head followed by the other's tail.
    pub fn apply(&self, solution: &mut WorkingSolution)
        requires
            self@.applicable(old(solution)@),
        ensures
            final(solution)@ == self@.result(old(solution)@),
            final(solution).limits() == old(solution).limits(),
    {
        let p = self.params;
        let r1_head = self.first_route_head(solution);
        let r1_tail = self.first_route_tail(solution);
        let r2_head = self.second_route_head(solution);
        let r2_tail = self.second_route_tail(solution);
        let new_r1_jobs = crate::solver::solution::concat(r1_head.as_slice(), r2_tail.as_slice());
        let new_r2_jobs = crate::solver::solution::concat(r2_head.as_slice(), r1_tail.as_slice());
        let len1 = solution.route(RouteIdx(p.first_route_id)).len();
        solution.replace_activities(RouteIdx(p.first_route_id), new_r1_jobs.as_slice(), 0, len1);
        let len2 = solution.route(RouteIdx(p.second_route_id)).len();
        solution.replace_activities(RouteIdx(p.second_route_id), new_r2_jobs.as_slice(), 0, len2);
        assert(solution@ =~= self@.result(old(solution)@));
    }

    pub fn updated_routes(&self) -> (r: Vec<usize>)
        ensures
            r@ == seq![self@.first_route_id, self@.second_route_id],
    {
        let mut v = Vec::new();
        v.push(self.params.first_route_id);
        v.push(self.params.second_route_id);
        assert(v@ =~= seq![self@.first_route_id, self@.second_route_id]);
        v
    }
}

} // verus!
