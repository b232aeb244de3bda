use vstd::prelude::*;

use crate::problem::job::ActivityId;
use crate::solver::ls::enumerate::{enumerate_pairs, is_enumeration};
use crate::solver::solution::{splice, RouteIdx, WorkingSolution, WorkingSolutionRoute};

verus! {

/// `s` with the item at `from` taken out and put back so that it lands just
/// before the item that was at `to` (at the end when `to == s.len()`).
pub open spec fn relocate_in(s: Seq<ActivityId>, from: int, to: int) -> Seq<ActivityId> {
    s.remove(from).insert(if from < to { to - 1 } else { to }, s[from])
}

/// `p` is the first position of `a` in `s`.
pub open spec fn first_position(s: Seq<ActivityId>, a: ActivityId, p: int) -> bool {
    0 <= p < s.len() && s[p] == a && forall|q: int| 0 <= q < p ==> s[q] != a
}

/// Every pickup of the route has its delivery in the route, and every
/// delivery its pickup.
pub open spec fn shipments_paired(s: Seq<ActivityId>) -> bool {
    forall|i: int|
        #![trigger s[i]]
        0 <= i < s.len() ==> match s[i] {
            ActivityId::ShipmentPickup(j) => s.contains(ActivityId::ShipmentDelivery(j)),
            ActivityId::ShipmentDelivery(j) => s.contains(ActivityId::ShipmentPickup(j)),
            ActivityId::Service(_) => true,
        }
}

/// The positions to which the activity at `from` may move: anywhere for a
/// service, between itself and its delivery for a pickup, after its pickup
/// for a delivery; never to its own position or just after it.
pub open spec fn relocate_allowed(s: Seq<ActivityId>, from: int, to: int) -> bool {
    &&& 0 <= from < s.len()
    &&& to != from && to != from + 1
    &&& match s[from] {
        ActivityId::ShipmentPickup(j) => exists|p: int|
            first_position(s, ActivityId::ShipmentDelivery(j), p) && from + 1 <= to <= p,
        ActivityId::ShipmentDelivery(j) => exists|p: int|
            first_position(s, ActivityId::ShipmentPickup(j), p) && p + 1 <= to <= s.len(),
        ActivityId::Service(_) => 0 <= to <= s.len(),
    }
}

/// **Intra-Route Relocate**
///
/// Moves a single activity at `from` to a new position at `to`.
/// The node is inserted *at* index `to` (effectively placing it after the node at `to-1`).
///
/// ```text
/// BEFORE:
///    Route: ... (A) -> [from] -> (C) ... (X) -> (Y) ...
///
/// AFTER:
///    Route: ... (A) -> (C) ... (X) -> [from] -> (Y) ...
/// ```
#[derive(Debug)]
pub struct RelocateOperator {
    params: RelocateOperatorParams,
}

#[derive(Debug, Clone, Copy)]
pub struct RelocateOperatorParams {
    pub route_id: RouteIdx,
    pub from: usize,
    pub to: usize,
}

impl RelocateOperatorParams {
    /// The parameters that the operator accepts.
    pub open spec fn valid(&self) -> bool {
        self.from != self.to && self.from + 1 != self.to
    }

    /// The move fits the routes of `solution`.
    pub open spec fn applicable(&self, solution: Seq<Seq<ActivityId>>) -> bool {
        &&& self.valid()
        &&& self.route_id.0 < solution.len()
        &&& self.from < solution[self.route_id.0 as int].len()
        &&& self.to <= solution[self.route_id.0 as int].len()
    }

    /// The routes after the move.
    pub open spec fn result(&self, solution: Seq<Seq<ActivityId>>) -> Seq<Seq<ActivityId>> {
        solution.update(
            self.route_id.0 as int,
            relocate_in(solution[self.route_id.0 as int], self.from as int, self.to as int),
        )
    }
}

impl View for RelocateOperator {
    type V = RelocateOperatorParams;

    closed spec fn view(&self) -> RelocateOperatorParams {
        self.params
    }
}

/// The window of positions to which the activity at each position may move,
/// as `(first, last)`, both inclusive.
fn relocate_windows(route: &WorkingSolutionRoute) -> (r: Vec<(usize, usize)>)
    requires
        shipments_paired(route@),
    ensures
        r@.len() == route@.len(),
        forall|a: int, b: int|
            0 <= a < route@.len() && 0 <= b <= route@.len() ==> (#[trigger] relocate_allowed(route@, a, b)
                <==> (r@[a].0 <= b <= r@[a].1 && b != a && b != a + 1)),
{
    let len = route.len();
    let mut out: Vec<(usize, usize)> = Vec::new();
    let mut from: usize = 0;
    while from < len
        invariant
            len == route@.len(),
            shipments_paired(route@),
            from <= len,
            out@.len() == from,
            forall|a: int, b: int|
                0 <= a < from && 0 <= b <= len ==> (#[trigger] relocate_allowed(route@, a, b) <==> (
                out@[a].0 <= b <= out@[a].1 && b != a && b != a + 1)),
        decreases len - from,
    {
        let ghost s = route@;
        let activity = route.activity_id(from);
        assert(s[from as int] == activity);
        let window = match activity {
            ActivityId::ShipmentPickup(j) => {
                let delivery = route.job_position(ActivityId::ShipmentDelivery(j));
                match delivery {
                    Some(p) => (from + 1, p),
                    None => {
                        assert(s.contains(ActivityId::ShipmentDelivery(j)));
                        (0, 0)
                    },
                }
            },
            ActivityId::ShipmentDelivery(j) => {
                let pickup = route.job_position(ActivityId::ShipmentPickup(j));
                match pickup {
                    Some(p) => (p + 1, len),
                    None => {
                        assert(s.contains(ActivityId::ShipmentPickup(j)));
                        (0, 0)
                    },
                }
            },
            ActivityId::Service(_) => (0, len),
        };
        let ghost prev = out@;
        out.push(window);
        assert forall|a: int, b: int|
            0 <= a < from + 1 && 0 <= b <= len implies (#[trigger] relocate_allowed(route@, a, b) <==> (
            out@[a].0 <= b <= out@[a].1 && b != a && b != a + 1)) by {
            if a < from {
                assert(out@[a] == prev[a]);
            } else {
                match s[a] {
                    ActivityId::ShipmentPickup(j) => {
                        let d = ActivityId::ShipmentDelivery(j);
                        if relocate_allowed(s, a, b) {
                            let p = choose|p: int| first_position(s, d, p) && a + 1 <= b <= p;
                            let p2 = out@[a].1 as int;
                            assert(first_position(s, d, p2));
                            if p < p2 {
                                assert(s[p] != d);
                            } else if p2 < p {
                                assert(s[p2] != d);
                            }
                        } else {
                            assert(first_position(s, d, out@[a].1 as int));
                        }
                    },
                    ActivityId::ShipmentDelivery(j) => {
                        let d = ActivityId::ShipmentPickup(j);
                        if relocate_allowed(s, a, b) {
                            let p = choose|p: int| first_position(s, d, p) && p + 1 <= b <= s.len();
                            let p2 = out@[a].0 - 1;
                            assert(first_position(s, d, p2));
                            if p < p2 {
                                assert(s[p] != d);
                            } else if p2 < p {
                                assert(s[p2] != d);
                            }
                        } else {
                            assert(first_position(s, d, out@[a].0 - 1));
                        }
                    },
                    ActivityId::Service(_) => {},
                }
            }
        }
        from = from + 1;
    }
    out
}

impl RelocateOperator {
    /// The parameters of the move.
    pub fn params(&self) -> (r: RelocateOperatorParams)
        ensures
            r == self@,
    {
        self.params
    }

    pub fn new(params: RelocateOperatorParams) -> (r: Self)
        requires
            params.valid(),
        ensures
            r@ == params,
    {
        RelocateOperator { params }
    }

    /// Every relocate move of a route, in increasing order of `(from, to)`:
    /// each activity to each position of its window (see `relocate_allowed`).
    pub fn generate_moves(solution: &WorkingSolution, pair: (RouteIdx, RouteIdx)) -> (r: Vec<
        Self,
    >)
        requires
            solution.valid_route(pair.0),
            solution.valid_route(pair.1),
            pair.0 == pair.1 ==> shipments_paired(solution@[pair.0.0 as int]),
            solution@[pair.0.0 as int].len() < usize::MAX,
        ensures
            ({
                let s = solution@[pair.0.0 as int];
                &&& pair.0 != pair.1 ==> r@.len() == 0
                &&& forall|k: int| 0 <= k < r@.len() ==> (#[trigger] r@[k])@.route_id == pair.0
                &&& pair.0 == pair.1 ==> is_enumeration(
                    r@.map_values(|o: Self| (o@.from, o@.to)),
                    s.len() as int,
                    s.len() + 1 as int,
                    |a: int, b: int| relocate_allowed(s, a, b),
                )
            }),
            forall|k: int| 0 <= k < r@.len() ==> (#[trigger] r@[k])@.applicable(solution@),
    {
        let mut out: Vec<Self> = Vec::new();
        if pair.0 != pair.1 {
            return out;
        }
        let route = solution.route(pair.0);
        let len = route.len();
        let windows = relocate_windows(route);
        let ghost s = route@;
        let ghost pred = |a: int, b: int| relocate_allowed(s, a, b);
        let keep = |a: usize, b: usize| -> (r: bool)
            ensures
                a < len && b <= len ==> r == relocate_allowed(route@, a as int, b as int),
                !(a < len && b <= len) ==> !r,
            {
                if a < len && b <= len {
                    let (lo, hi) = windows[a];
                    lo <= b && b <= hi && b != a && (a >= len || b != a + 1)
                } else {
                    false
                }
            };
        let pairs = enumerate_pairs(len, len + 1, keep, Ghost(pred));
        let mut k: usize = 0;
        while k < pairs.len()
            invariant
                k <= pairs@.len(),
                is_enumeration(pairs@, len as int, len + 1 as int, pred),
                forall|a: int, b: int| #[trigger] pred(a, b) == relocate_allowed(s, a, b),
                out@.len() == k,
                solution.valid_route(pair.0),
                len == solution@[pair.0.0 as int].len(),
                pair.0 == pair.1,
                forall|j: int| 0 <= j < k ==> (#[trigger] out@[j])@.applicable(solution@),
                forall|j: int|
                    0 <= j < k ==> (#[trigger] out@[j])@ == (RelocateOperatorParams {
                        route_id: pair.0,
                        from: pairs@[j].0,
                        to: pairs@[j].1,
                    }),
            decreases pairs@.len() - k,
        {
            let (from, to) = pairs[k];
            assert(pred(pairs@[k as int].0 as int, pairs@[k as int].1 as int));
            assert(relocate_allowed(s, from as int, to as int));
            out.push(RelocateOperator::new(RelocateOperatorParams { route_id: pair.0, from, to }));
            k = k + 1;
        }
        assert(out@.map_values(|o: Self| (o@.from, o@.to)) =~= pairs@);
        out
    }

    /// Moves the activity at `from` to position `to`.
    pub fn apply(&self, solution: &mut WorkingSolution)
        requires
            self@.applicable(old(solution)@),
        ensures
            final(solution)@ == self@.result(old(solution)@),
            final(solution).limits() == old(solution).limits(),
    {
        let p = self.params;
        let route = solution.route(p.route_id);
        let _len = route.len();
        let ghost s = route@;
        let job_id = route.activity_id(p.from);
        if p.from < p.to {
            let mut items = route.activity_ids_iter(p.from + 1, p.to);
            items.push(job_id);
            solution.replace_activities(p.route_id, items.as_slice(), p.from, p.to);
            assert(splice(s, items@, p.from as int, p.to as int) =~= relocate_in(
                s,
                p.from as int,
                p.to as int,
            ));
        } else {
            let tail = route.activity_ids_iter(p.to, p.from);
            let mut items: Vec<ActivityId> = Vec::new();
            items.push(job_id);
            let mut k: usize = 0;
            while k < tail.len()
                invariant
                    k <= tail@.len(),
                    items@ == seq![job_id] + tail@.subrange(0, k as int),
                decreases tail@.len() - k,
            {
                items.push(tail[k]);
                k = k + 1;
                assert(items@ =~= seq![job_id] + tail@.subrange(0, k as int));
            }
            assert(tail@.subrange(0, tail@.len() as int) =~= tail@);
            solution.replace_activities(p.route_id, items.as_slice(), p.to, p.from + 1);
            assert(splice(s, items@, p.to as int, p.from + 1) =~= relocate_in(
                s,
                p.from as int,
                p.to as int,
            ));
        }
    }

    pub fn updated_routes(&self) -> (r: Vec<RouteIdx>)
        ensures
            r@ == seq![self@.route_id],
    {
        let mut v = Vec::new();
        v.push(self.params.route_id);
        assert(v@ =~= seq![self@.route_id]);
        v
    }
}

/// A relocate move keeps every activity of the route, as many times each.
pub proof fn lemma_relocate_keeps_activities(s: Seq<ActivityId>, from: int, to: int)
    requires
        0 <= from < s.len(),
        0 <= to <= s.len(),
        to != from,
        to != from + 1,
    ensures
        relocate_in(s, from, to).to_multiset() == s.to_multiset(),
{
    broadcast use vstd::seq_lib::group_to_multiset_ensures;
    broadcast use vstd::multiset::group_multiset_axioms;

    let t = s.remove(from);
    vstd::seq_lib::to_multiset_remove(s, from);
    vstd::seq_lib::to_multiset_insert(t, if from < to { to - 1 } else { to }, s[from]);
    assert(relocate_in(s, from, to).to_multiset() =~= s.to_multiset());
}

} // verus!
