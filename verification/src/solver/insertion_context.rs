use vstd::prelude::*;

use crate::problem::job::ActivityId;
use crate::solver::insertion::Insertion;
use crate::solver::solution::{concat, WorkingSolution, WorkingSolutionRoute};

verus! {

/// An insertion under evaluation, with the solution it applies to.
pub struct InsertionContext<'a> {
    pub solution: &'a WorkingSolution,
    pub insertion: &'a Insertion,
}

impl<'a> InsertionContext<'a> {
    pub fn new(solution: &'a WorkingSolution, insertion: &'a Insertion) -> (r: Self)
        ensures
            r.solution == solution,
            r.insertion == insertion,
    {
        InsertionContext { solution, insertion }
    }

    /// The route that the job enters.
    pub fn route(&self) -> (r: &WorkingSolutionRoute)
        requires
            self.solution.valid_route(self.insertion.spec_route_id()),
        ensures
            r@ == self.solution@[self.insertion.spec_route_id().0 as int],
    {
        self.insertion.route(self.solution)
    }

    /// The activities of the route from the first changed position to the
    /// end, as they stand once the job is inserted.
    pub fn updated_activities_iter(&self) -> (r: Vec<ActivityId>)
        requires
            self.insertion.fits(self.solution@),
        ensures
            ({
                let s = self.solution@[self.insertion.spec_route_id().0 as int];
                let t = self.insertion.inserted_route(s);
                r@ == t.subrange(self.insertion.first_changed(), t.len() as int)
            }),
    {
        let route = self.insertion.route(self.solution);
        let len = route.len();
        match self.insertion {
            Insertion::Service(ctx) => {
                let mut head: Vec<ActivityId> = Vec::new();
                head.push(ActivityId::Service(ctx.job_index));
                let rest = route.activity_ids_iter(ctx.position, len);
                let r = concat(head.as_slice(), rest.as_slice());
                proof {
                    let s = route@;
                    let t = self.insertion.inserted_route(s);
                    assert(head@ =~= seq![ActivityId::Service(ctx.job_index)]);
                    assert(r@ =~= t.subrange(ctx.position as int, t.len() as int));
                }
                r
            },
            Insertion::Shipment(ctx) => {
                let mut first: Vec<ActivityId> = Vec::new();
                first.push(ActivityId::ShipmentPickup(ctx.job_index));
                let between = route.activity_ids_iter(ctx.pickup_position, ctx.delivery_position);
                let mut r = concat(first.as_slice(), between.as_slice());
                r.push(ActivityId::ShipmentDelivery(ctx.job_index));
                let rest = route.activity_ids_iter(ctx.delivery_position, len);
                let r = concat(r.as_slice(), rest.as_slice());
                proof {
                    let s = route@;
                    let t = self.insertion.inserted_route(s);
                    assert(first@ =~= seq![ActivityId::ShipmentPickup(ctx.job_index)]);
                    assert(r@ =~= t.subrange(ctx.pickup_position as int, t.len() as int));
                }
                r
            },
        }
    }
}

} // verus!
