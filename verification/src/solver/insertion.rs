use vstd::prelude::*;

use crate::problem::job::{ActivityId, JobIdx};
use crate::solver::ls::enumerate::{enumerate_pairs, is_enumeration, lemma_enumeration_unique};
use crate::solver::solution::{concat, RouteIdx, WorkingSolution, WorkingSolutionRoute};

verus! {

/// Insertion of a service at `position` of a route.
#[derive(Clone, Copy, Debug)]
pub struct ServiceInsertion {
    pub route_id: RouteIdx,
    pub job_index: JobIdx,
    pub position: usize,
}

impl ServiceInsertion {
    /// The activities that the insertion adds, in route order.
    pub fn inserted_activity_ids(&self) -> (r: Vec<ActivityId>)
        ensures
            r@ == seq![ActivityId::Service(self.job_index)],
    {
        let mut v = Vec::new();
        v.push(ActivityId::Service(self.job_index));
        assert(v@ =~= seq![ActivityId::Service(self.job_index)]);
        v
    }
}

/// Insertion of the pickup and the delivery of a shipment into a route.
#[derive(Clone, Copy, Debug)]
pub struct ShipmentInsertion {
    pub route_id: RouteIdx,
    pub job_index: JobIdx,
    /// Position of the pickup
    pub pickup_position: usize,
    /// This is the position before the pickup has been inserted
    pub delivery_position: usize,
}

impl ShipmentInsertion {
    /// The activities from the pickup to the delivery once both are
    /// inserted: the pickup, the activities of the route between the two
    /// positions, then the delivery.
    pub fn inserted_activity_ids(&self, route: &WorkingSolutionRoute) -> (r: Vec<ActivityId>)
        requires
            self.pickup_position <= self.delivery_position <= route@.len(),
        ensures
            r@ == seq![ActivityId::ShipmentPickup(self.job_index)] + route@.subrange(
                self.pickup_position as int,
                self.delivery_position as int,
            ) + seq![ActivityId::ShipmentDelivery(self.job_index)],
    {
        let mut head: Vec<ActivityId> = Vec::new();
        head.push(ActivityId::ShipmentPickup(self.job_index));
        let between = route.activity_ids_iter(self.pickup_position, self.delivery_position);
        let mut out = concat(head.as_slice(), between.as_slice());
        out.push(ActivityId::ShipmentDelivery(self.job_index));
        assert(head@ =~= seq![ActivityId::ShipmentPickup(self.job_index)]);
        out
    }
}

/// Where and how a job enters a route.
#[derive(Clone, Copy, Debug)]
pub enum Insertion {
    Service(ServiceInsertion),
    Shipment(ShipmentInsertion),
}

impl Insertion {
    pub open spec fn spec_job_idx(&self) -> JobIdx {
        match self {
            Insertion::Service(ctx) => ctx.job_index,
            Insertion::Shipment(ctx) => ctx.job_index,
        }
    }

    pub open spec fn spec_route_id(&self) -> RouteIdx {
        match self {
            Insertion::Service(ctx) => ctx.route_id,
            Insertion::Shipment(ctx) => ctx.route_id,
        }
    }

    /// The positions fit the route of the insertion.
    pub open spec fn fits(&self, solution: Seq<Seq<ActivityId>>) -> bool {
        &&& self.spec_route_id().0 < solution.len()
        &&& match self {
            Insertion::Service(ctx) => ctx.position <= solution[ctx.route_id.0 as int].len(),
            Insertion::Shipment(ctx) => ctx.pickup_position <= ctx.delivery_position
                <= solution[ctx.route_id.0 as int].len(),
        }
    }

    /// The route after the insertion.
    pub open spec fn inserted_route(&self, s: Seq<ActivityId>) -> Seq<ActivityId> {
        match self {
            Insertion::Service(ctx) => s.insert(
                ctx.position as int,
                ActivityId::Service(ctx.job_index),
            ),
            Insertion::Shipment(ctx) => s.subrange(0, ctx.pickup_position as int) + seq![
                ActivityId::ShipmentPickup(ctx.job_index),
            ] + s.subrange(ctx.pickup_position as int, ctx.delivery_position as int) + seq![
                ActivityId::ShipmentDelivery(ctx.job_index),
            ] + s.subrange(ctx.delivery_position as int, s.len() as int),
        }
    }

    /// The first position of the route that the insertion changes.
    pub open spec fn first_changed(&self) -> int {
        match self {
            Insertion::Service(ctx) => ctx.position as int,
            Insertion::Shipment(ctx) => ctx.pickup_position as int,
        }
    }

    pub fn job_idx(&self) -> (r: JobIdx)
        ensures
            r == self.spec_job_idx(),
    {
        match self {
            Insertion::Service(ctx) => ctx.job_index,
            Insertion::Shipment(ctx) => ctx.job_index,
        }
    }

    pub fn route_id(&self) -> (r: RouteIdx)
        ensures
            r == self.spec_route_id(),
    {
        match self {
            Insertion::Service(ctx) => ctx.route_id,
            Insertion::Shipment(ctx) => ctx.route_id,
        }
    }

    /// The route that the job enters.
    pub fn route<'a>(&self, solution: &'a WorkingSolution) -> (r: &'a WorkingSolutionRoute)
        requires
            solution.valid_route(self.spec_route_id()),
        ensures
            r@ == solution@[self.spec_route_id().0 as int],
    {
        match self {
            Insertion::Service(ctx) => solution.route(ctx.route_id),
            Insertion::Shipment(ctx) => solution.route(ctx.route_id),
        }
    }
}

/// Inserting a service puts it at `position`, right before the activity
/// that was there; inserting a shipment puts the pickup at
/// `pickup_position` and the delivery right before the activity that was at
/// `delivery_position` (counted before the pickup went in). The activities
/// around keep their order.
pub proof fn law_insertion_places_the_job(i: Insertion, s: Seq<ActivityId>)
    requires
        match i {
            Insertion::Service(ctx) => ctx.position <= s.len(),
            Insertion::Shipment(ctx) => ctx.pickup_position <= ctx.delivery_position <= s.len(),
        },
    ensures
        ({
            let t = i.inserted_route(s);
            match i {
                Insertion::Service(ctx) => {
                    let p = ctx.position as int;
                    &&& t.len() == s.len() + 1
                    &&& t[p] == ActivityId::Service(ctx.job_index)
                    &&& forall|k: int| 0 <= k < p ==> #[trigger] t[k] == s[k]
                    &&& forall|k: int| p < k < t.len() ==> #[trigger] t[k] == s[k - 1]
                },
                Insertion::Shipment(ctx) => {
                    let p = ctx.pickup_position as int;
                    let d = ctx.delivery_position as int;
                    &&& t.len() == s.len() + 2
                    &&& t[p] == ActivityId::ShipmentPickup(ctx.job_index)
                    &&& t[d + 1] == ActivityId::ShipmentDelivery(ctx.job_index)
                    &&& forall|k: int| 0 <= k < p ==> #[trigger] t[k] == s[k]
                    &&& forall|k: int| p < k <= d ==> #[trigger] t[k] == s[k - 1]
                    &&& forall|k: int| d + 1 < k < t.len() ==> #[trigger] t[k] == s[k - 2]
                },
            }
        }),
{
}

/// What the problem says of inserting one job into one route: whether the
/// vehicle of the route can deliver it, the positions that its activities
/// may take, and, position by position, whether the position lies in the
/// neighborhood that the search looks at.
#[derive(Debug)]
pub struct RouteJobFacts {
    pub can_deliver: bool,
    /// First and last position for the service, or for the pickup.
    pub range: (usize, usize),
    /// First and last position for the delivery of a shipment.
    pub delivery_range: (usize, usize),
    /// One flag per position of the route, and one for its end, for the
    /// service or the pickup.
    pub near: Vec<bool>,
    /// The same for the delivery.
    pub delivery_near: Vec<bool>,
}

impl RouteJobFacts {
    /// The facts describe a route of `len` activities.
    pub open spec fn fits(&self, len: int) -> bool {
        &&& self.range.1 <= len
        &&& self.delivery_range.1 <= len
        &&& self.near@.len() == len + 1
        &&& self.delivery_near@.len() == len + 1
    }

    /// The service, or the pickup, may go to position `p`.
    pub open spec fn first_at(&self, p: int) -> bool {
        &&& self.range.0 <= p <= self.range.1
        &&& self.near@[p]
    }

    /// The pickup may go to `p` and the delivery to `d`, counted before the
    /// pickup is inserted.
    pub open spec fn pair_at(&self, p: int, d: int) -> bool {
        &&& self.first_at(p)
        &&& p <= d
        &&& self.delivery_range.0 <= d <= self.delivery_range.1
        &&& self.delivery_near@[d]
    }
}

/// The positions of an insertion: the position of a service with `0`, or
/// those of the pickup and the delivery of a shipment.
pub open spec fn insertion_positions(i: Insertion) -> (usize, usize) {
    match i {
        Insertion::Service(ctx) => (ctx.position, 0),
        Insertion::Shipment(ctx) => (ctx.pickup_position, ctx.delivery_position),
    }
}

/// A route of `len` activities, with bound `limit`, takes the job: the
/// vehicle can deliver it and the route has room for its activities.
pub open spec fn route_takes_job(
    len: int,
    limit: Option<usize>,
    is_shipment: bool,
    can_deliver: bool,
) -> bool {
    &&& can_deliver
    &&& match limit {
        Some(m) => if is_shipment {
            len + 2 <= m
        } else {
            len < m
        },
        None => true,
    }
}

/// `r` lists the insertions of the job into route `route_index`: none when
/// another route holds what the job depends on or the route does not take
/// the job; else each allowed position (or pair of positions) once, in the
/// order of the loops over the pickup, then the delivery.
pub open spec fn route_insertions(
    solution: Seq<Seq<ActivityId>>,
    limits: Seq<Option<usize>>,
    route_index: RouteIdx,
    job_index: JobIdx,
    is_shipment: bool,
    route_with_deps: Option<RouteIdx>,
    facts: RouteJobFacts,
    r: Seq<Insertion>,
) -> bool {
    let len = solution[route_index.0 as int].len() as int;
    let open = (route_with_deps matches Some(d) ==> d == route_index) && route_takes_job(
        len,
        limits[route_index.0 as int],
        is_shipment,
        facts.can_deliver,
    );
    &&& !open ==> r.len() == 0
    &&& forall|k: int|
        0 <= k < r.len() ==> {
            &&& (#[trigger] r[k]).spec_route_id() == route_index
            &&& r[k].spec_job_idx() == job_index
            &&& (r[k] is Shipment) == is_shipment
            &&& r[k].fits(solution)
        }
    &&& (open && is_shipment) ==> is_enumeration(
        r.map_values(|i: Insertion| insertion_positions(i)),
        len + 1,
        len + 1,
        |a: int, b: int| facts.pair_at(a, b),
    )
    &&& (open && !is_shipment) ==> is_enumeration(
        r.map_values(|i: Insertion| insertion_positions(i)),
        len + 1,
        1,
        |a: int, b: int| facts.first_at(a),
    )
}

/// The insertions of every route, route after route.
pub open spec fn concat_all(parts: Seq<Seq<Insertion>>) -> Seq<Insertion>
    decreases parts.len(),
{
    if parts.len() == 0 {
        Seq::empty()
    } else {
        concat_all(parts.drop_last()) + parts.last()
    }
}

/// `r` lists the insertions of the job into every route, route after route:
/// for a service, each route as `route_insertions` lists it with the route
/// that holds the job's dependencies; for a shipment, with no such route.
pub open spec fn insertion_listing(
    solution: Seq<Seq<ActivityId>>,
    limits: Seq<Option<usize>>,
    job_index: JobIdx,
    is_shipment: bool,
    route_with_deps: Option<RouteIdx>,
    facts: Seq<RouteJobFacts>,
    r: Seq<Insertion>,
) -> bool {
    exists|parts: Seq<Seq<Insertion>>|
        {
            &&& parts.len() == solution.len()
            &&& r == concat_all(parts)
            &&& forall|k: int|
                0 <= k < parts.len() ==> route_insertions(
                    solution,
                    limits,
                    RouteIdx(k as usize),
                    job_index,
                    is_shipment,
                    if is_shipment {
                        None
                    } else {
                        route_with_deps
                    },
                    facts[k],
                    #[trigger] parts[k],
                )
        }
}

/// The insertions of a job into one route are listed in one way only.
pub proof fn lemma_route_insertions_unique(
    solution: Seq<Seq<ActivityId>>,
    limits: Seq<Option<usize>>,
    route_index: RouteIdx,
    job_index: JobIdx,
    is_shipment: bool,
    route_with_deps: Option<RouteIdx>,
    facts: RouteJobFacts,
    r1: Seq<Insertion>,
    r2: Seq<Insertion>,
)
    requires
        route_insertions(solution, limits, route_index, job_index, is_shipment, route_with_deps, facts, r1),
        route_insertions(solution, limits, route_index, job_index, is_shipment, route_with_deps, facts, r2),
    ensures
        r1 == r2,
{
    let len = solution[route_index.0 as int].len() as int;
    let m1 = r1.map_values(|i: Insertion| insertion_positions(i));
    let m2 = r2.map_values(|i: Insertion| insertion_positions(i));
    if is_shipment {
        if m1.len() > 0 || m2.len() > 0 {
            lemma_enumeration_unique(m1, m2, len + 1, len + 1, |a: int, b: int| facts.pair_at(a, b));
        }
    } else {
        if m1.len() > 0 || m2.len() > 0 {
            lemma_enumeration_unique(m1, m2, len + 1, 1, |a: int, b: int| facts.first_at(a));
        }
    }
    assert(r1.len() == r2.len()) by {
        assert(m1.len() == r1.len() && m2.len() == r2.len());
    }
    assert forall|k: int| 0 <= k < r1.len() implies r1[k] == r2[k] by {
        assert(m1[k] == m2[k]);
        assert(r1[k].spec_route_id() == r2[k].spec_route_id());
        assert(r1[k].spec_job_idx() == r2[k].spec_job_idx());
        match r1[k] {
            Insertion::Service(a) => {
                match r2[k] {
                    Insertion::Service(b) => {
                        assert(a == b);
                    },
                    Insertion::Shipment(_) => {},
                }
            },
            Insertion::Shipment(a) => {
                match r2[k] {
                    Insertion::Shipment(b) => {
                        assert(a == b);
                    },
                    Insertion::Service(_) => {},
                }
            },
        }
    }
    assert(r1 =~= r2);
}

/// The insertions of a job into every route are those into each route,
/// route after route: for a service, as `for_each_route_insertion` lists
/// them with the same route of dependencies; for a shipment, as it lists
/// them with no route of dependencies, since the listing over every route
/// does not restrict a shipment to that route.
pub proof fn law_for_each_insertion_concatenates_routes(
    solution: Seq<Seq<ActivityId>>,
    limits: Seq<Option<usize>>,
    job_index: JobIdx,
    is_shipment: bool,
    route_with_deps: Option<RouteIdx>,
    facts: Seq<RouteJobFacts>,
    r: Seq<Insertion>,
    lists: Seq<Seq<Insertion>>,
)
    requires
        insertion_listing(solution, limits, job_index, is_shipment, route_with_deps, facts, r),
        lists.len() == solution.len(),
        forall|k: int|
            0 <= k < lists.len() ==> route_insertions(
                solution,
                limits,
                RouteIdx(k as usize),
                job_index,
                is_shipment,
                if is_shipment {
                    None
                } else {
                    route_with_deps
                },
                facts[k],
                #[trigger] lists[k],
            ),
    ensures
        r == concat_all(lists),
{
    let deps = if is_shipment {
        None
    } else {
        route_with_deps
    };
    let parts = choose|parts: Seq<Seq<Insertion>>|
        {
            &&& parts.len() == solution.len()
            &&& r == concat_all(parts)
            &&& forall|k: int|
                0 <= k < parts.len() ==> route_insertions(
                    solution,
                    limits,
                    RouteIdx(k as usize),
                    job_index,
                    is_shipment,
                    deps,
                    facts[k],
                    #[trigger] parts[k],
                )
        };
    assert forall|k: int| 0 <= k < parts.len() implies parts[k] == lists[k] by {
        lemma_route_insertions_unique(
            solution,
            limits,
            RouteIdx(k as usize),
            job_index,
            is_shipment,
            deps,
            facts[k],
            parts[k],
            lists[k],
        );
    }
    assert(parts =~= lists);
}

/// The allowed positions, or pairs of positions, of the job in a route of
/// `len` activities, in loop order.
fn candidate_positions(facts: &RouteJobFacts, len: usize, is_shipment: bool) -> (r: Vec<
    (usize, usize),
>)
    requires
        facts.fits(len as int),
        len < usize::MAX,
    ensures
        is_shipment ==> is_enumeration(
            r@,
            len + 1,
            len + 1,
            |a: int, b: int| facts.pair_at(a, b),
        ),
        !is_shipment ==> is_enumeration(r@, len + 1, 1, |a: int, b: int| facts.first_at(a)),
{
    let n = len + 1;
    if is_shipment {
        let keep = |a: usize, b: usize| -> (res: bool)
            ensures
                a < n && b < n ==> res == facts.pair_at(a as int, b as int),
            {
                if a < n && b < n {
                    facts.range.0 <= a && a <= facts.range.1 && facts.near[a] && a <= b
                        && facts.delivery_range.0 <= b && b <= facts.delivery_range.1
                        && facts.delivery_near[b]
                } else {
                    false
                }
            };
        let ghost pred = |a: int, b: int| facts.pair_at(a, b);
        enumerate_pairs(n, n, keep, Ghost(pred))
    } else {
        let keep = |a: usize, b: usize| -> (res: bool)
            ensures
                a < n ==> res == facts.first_at(a as int),
            {
                if a < n {
                    facts.range.0 <= a && a <= facts.range.1 && facts.near[a]
                } else {
                    false
                }
            };
        let ghost pred = |a: int, b: int| facts.first_at(a);
        enumerate_pairs(n, 1, keep, Ghost(pred))
    }
}

/// Every insertion of the job into one route: none when a route with the
/// job's same-route dependencies exists and is another one, when the route
/// is full, or when its vehicle cannot deliver the job; else each position
/// that the facts allow, or each pair of positions for a shipment, in the
/// order of the loops over the pickup, then the delivery.
pub fn for_each_route_insertion(
    solution: &WorkingSolution,
    route_index: RouteIdx,
    job_index: JobIdx,
    is_shipment: bool,
    route_with_deps: Option<RouteIdx>,
    facts: &RouteJobFacts,
) -> (r: Vec<Insertion>)
    requires
        solution.valid_route(route_index),
        facts.fits(solution@[route_index.0 as int].len() as int),
    ensures
        route_insertions(
            solution@,
            solution.limits(),
            route_index,
            job_index,
            is_shipment,
            route_with_deps,
            *facts,
            r@,
        ),
{
    let mut out: Vec<Insertion> = Vec::new();
    let route = solution.route(route_index);
    proof {
        solution.lemma_limits_len();
    }
    if let Some(d) = route_with_deps {
        if d != route_index {
            return out;
        }
    }
    if is_shipment {
        if route.will_break_maximum_activities(2) {
            return out;
        }
    } else {
        if route.has_maximum_activities() {
            return out;
        }
    }
    if !facts.can_deliver {
        return out;
    }
    let len = route.len();
    let flags = facts.near.len();
    assert(len < usize::MAX) by {
        assert(flags == len + 1);
    }
    let pairs = candidate_positions(facts, len, is_shipment);
    let mut k: usize = 0;
    while k < pairs.len()
        invariant
            k <= pairs@.len(),
            out@.len() == k,
            len == solution@[route_index.0 as int].len(),
            solution.valid_route(route_index),
            forall|j: int| 0 <= j < pairs@.len() ==> (#[trigger] pairs@[j]).0 <= len && pairs@[j].1
                <= len,
            is_shipment ==> forall|j: int|
                0 <= j < pairs@.len() ==> (#[trigger] pairs@[j]).0 <= pairs@[j].1,
            !is_shipment ==> forall|j: int| 0 <= j < pairs@.len() ==> (#[trigger] pairs@[j]).1 == 0,
            forall|j: int|
                0 <= j < k ==> {
                    &&& (#[trigger] out@[j]).spec_route_id() == route_index
                    &&& out@[j].spec_job_idx() == job_index
                    &&& (out@[j] is Shipment) == is_shipment
                    &&& out@[j].fits(solution@)
                    &&& insertion_positions(out@[j]) == pairs@[j]
                },
        decreases pairs@.len() - k,
    {
        let (a, b) = pairs[k];
        let insertion = if is_shipment {
            Insertion::Shipment(
                ShipmentInsertion {
                    route_id: route_index,
                    job_index,
                    pickup_position: a,
                    delivery_position: b,
                },
            )
        } else {
            Insertion::Service(ServiceInsertion { route_id: route_index, job_index, position: a })
        };
        assert(insertion.fits(solution@));
        assert(insertion_positions(insertion) == pairs@[k as int]);
        out.push(insertion);
        k = k + 1;
    }
    assert(out@.map_values(|i: Insertion| insertion_positions(i)) =~= pairs@);
    out
}

/// Every insertion of the job into every route, route after route. A
/// service goes only to the route with its same-route dependencies, when
/// there is one; a shipment is not restricted so.
pub fn for_each_insertion(
    solution: &WorkingSolution,
    job_index: JobIdx,
    is_shipment: bool,
    route_with_deps: Option<RouteIdx>,
    facts: &Vec<RouteJobFacts>,
) -> (r: Vec<Insertion>)
    requires
        facts@.len() == solution@.len(),
        forall|k: int| 0 <= k < facts@.len() ==> (#[trigger] facts@[k]).fits(solution@[k].len() as int),
    ensures
        insertion_listing(
            solution@,
            solution.limits(),
            job_index,
            is_shipment,
            route_with_deps,
            facts@,
            r@,
        ),
{
    let deps = if is_shipment {
        None
    } else {
        route_with_deps
    };
    let n = solution.len();
    let mut out: Vec<Insertion> = Vec::new();
    let ghost mut parts: Seq<Seq<Insertion>> = Seq::empty();
    let mut k: usize = 0;
    while k < n
        invariant
            k <= n,
            n == solution@.len(),
            facts@.len() == n,
            forall|j: int| 0 <= j < facts@.len() ==> (#[trigger] facts@[j]).fits(solution@[j].len() as int),
            parts.len() == k,
            out@ == concat_all(parts),
            forall|j: int|
                0 <= j < k ==> route_insertions(
                    solution@,
                    solution.limits(),
                    RouteIdx(j as usize),
                    job_index,
                    is_shipment,
                    deps,
                    facts@[j],
                    #[trigger] parts[j],
                ),
        decreases n - k,
    {
        let part = for_each_route_insertion(solution, RouteIdx(k), job_index, is_shipment, deps, &facts[k]);
        proof {
            let next = parts.push(part@);
            assert(next.drop_last() =~= parts);
            assert(concat_all(next) == out@ + part@);
            assert forall|j: int|
                0 <= j < k + 1 implies route_insertions(
                solution@,
                solution.limits(),
                RouteIdx(j as usize),
                job_index,
                is_shipment,
                deps,
                facts@[j],
                #[trigger] next[j],
            ) by {
                if j < k {
                    assert(next[j] == parts[j]);
                }
            }
            parts = next;
        }
        let mut part = part;
        out.append(&mut part);
        k = k + 1;
    }
    out
}

} // verus!
