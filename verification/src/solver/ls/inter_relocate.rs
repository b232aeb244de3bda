use vstd::prelude::*;

use crate::problem::job::ActivityId;
use crate::solver::ls::enumerate::{enumerate_pairs, is_enumeration};
use crate::solver::solution::{RouteIdx, WorkingSolution, WorkingSolutionRoute};

verus! {

/// **Inter-Route Relocate**
///
/// Moves an activity `from` in `from_route_id` to position `to` in `to_route_id`.
/// Crucial for load balancing and route elimination.
///
/// ```text
/// BEFORE:
///    R1: ... (A) -> [from] -> (B) ...
///    R2: ... (X) -> (Y) ...
///
/// AFTER:
///    R1: ... (A) -> (B) ...
///    R2: ... (X) -> [from] -> (Y) ...
/// ```
#[derive(Debug)]
pub struct InterRelocateOperator {
    params: InterRelocateParams,
}

#[derive(Debug, Clone, Copy)]
pub struct InterRelocateParams {
    pub from_route_id: RouteIdx,
    pub to_route_id: RouteIdx,
    pub from: usize,
    pub to: usize,
}

impl InterRelocateParams {
    /// The parameters that the operator accepts: two different routes.
    pub open spec fn valid(&self) -> bool {
        self.from_route_id != self.to_route_id
    }

    /// The move fits the routes of `solution`.
    pub open spec fn applicable(&self, solution: Seq<Seq<ActivityId>>) -> bool {
        &&& self.valid()
        &&& self.from_route_id.0 < solution.len()
        &&& self.to_route_id.0 < solution.len()
        &&& self.from < solution[self.from_route_id.0 as int].len()
        &&& self.to <= solution[self.to_route_id.0 as int].len()
    }

    /// The routes after the move: the activity leaves the first route and
    /// enters the second at `to`.
    pub open spec fn result(&self, solution: Seq<Seq<ActivityId>>) -> Seq<Seq<ActivityId>> {
        let s1 = solution[self.from_route_id.0 as int];
        let s2 = solution[self.to_route_id.0 as int];
        solution.update(self.from_route_id.0 as int, s1.remove(self.from as int)).update(
            self.to_route_id.0 as int,
            s2.insert(self.to as int, s1[self.from as int]),
        )
    }
}

impl View for InterRelocateOperator {
    type V = InterRelocateParams;

    closed spec fn view(&self) -> InterRelocateParams {
        self.params
    }
}

impl InterRelocateOperator {
    /// The parameters of the move.
    pub fn params(&self) -> (r: InterRelocateParams)
        ensures
            r == self@,
    {
        self.params
    }

    pub fn new(params: InterRelocateParams) -> (r: Self)
        requires
            params.valid(),
        ensures
            r@ == params,
    {
        InterRelocateOperator { params }
    }

    /// Every move of a service of the first route to a position of the
    /// second, in increasing order of `(from, to)`; none when the routes are
    /// the same or the second cannot take one more activity.
    pub fn generate_moves(solution: &WorkingSolution, pair: (RouteIdx, RouteIdx)) -> (r: Vec<
        Self,
    >)
        requires
            solution.valid_route(pair.0),
            solution.valid_route(pair.1),
            solution@[pair.1.0 as int].len() < usize::MAX,
        ensures
            ({
                let s1 = solution@[pair.0.0 as int];
                let s2 = solution@[pair.1.0 as int];
                let breaks = match solution.limits()[pair.1.0 as int] {
                    Some(m) => s2.len() + 1 > m,
                    None => false,
                };
                &&& (pair.0 == pair.1 || breaks) ==> r@.len() == 0
                &&& forall|k: int|
                    0 <= k < r@.len() ==> (#[trigger] r@[k])@.from_route_id == pair.0
                        && r@[k]@.to_route_id == pair.1
                &&& (pair.0 != pair.1 && !breaks) ==> is_enumeration(
                    r@.map_values(|o: Self| (o@.from, o@.to)),
                    s1.len() as int,
                    s2.len() + 1 as int,
                    |a: int, b: int| s1[a] is Service,
                )
            }),
            forall|k: int| 0 <= k < r@.len() ==> (#[trigger] r@[k])@.applicable(solution@),
    {
        let mut out: Vec<Self> = Vec::new();
        if pair.0 == pair.1 {
            return out;
        }
        let from_route = solution.route(pair.0);
        let to_route = solution.route(pair.1);
        if to_route.will_break_maximum_activities(1) {
            return out;
        }
        let len1 = from_route.len();
        let len2 = to_route.len();
        let ghost s1 = from_route@;
        let keep = |a: usize, b: usize| -> (r: bool)
            ensures
                a < len1 ==> r == (from_route@[a as int] is Service),
            {
                if a < len1 {
                    !from_route.activity_id(a).is_shipment()
                } else {
                    false
                }
            };
        let ghost pred = |a: int, b: int| s1[a] is Service;
        let pairs = enumerate_pairs(len1, len2 + 1, keep, Ghost(pred));
        let mut k: usize = 0;
        while k < pairs.len()
            invariant
                k <= pairs@.len(),
                is_enumeration(pairs@, len1 as int, len2 + 1 as int, pred),
                out@.len() == k,
                len1 == solution@[pair.0.0 as int].len(),
                len2 == solution@[pair.1.0 as int].len(),
                solution.valid_route(pair.0),
                solution.valid_route(pair.1),
                forall|j: int| 0 <= j < k ==> (#[trigger] out@[j])@.applicable(solution@),
                pair.0 != pair.1,
                forall|j: int|
                    0 <= j < k ==> (#[trigger] out@[j])@ == (InterRelocateParams {
                        from_route_id: pair.0,
                        to_route_id: pair.1,
                        from: pairs@[j].0,
                        to: pairs@[j].1,
                    }),
            decreases pairs@.len() - k,
        {
            let (from, to) = pairs[k];
            out.push(
                InterRelocateOperator::new(
                    InterRelocateParams {
                        from_route_id: pair.0,
                        to_route_id: pair.1,
                        from,
                        to,
                    },
                ),
            );
            k = k + 1;
        }
        assert(out@.map_values(|o: Self| (o@.from, o@.to)) =~= pairs@);
        out
    }

    /// Takes the activity out of the first route and inserts it into the
    /// second.
    pub fn apply(&self, solution: &mut WorkingSolution)
        requires
            self@.applicable(old(solution)@),
        ensures
            final(solution)@ == self@.result(old(solution)@),
            final(solution).limits() == old(solution).limits(),
    {
        let p = self.params;
        let moved = solution.route(p.from_route_id).activity_id(p.from);
        let empty: Vec<ActivityId> = Vec::new();
        solution.replace_activities(p.from_route_id, empty.as_slice(), p.from, p.from + 1);
        let ghost mid = solution@;
        assert(mid[p.from_route_id.0 as int] =~= old(solution)@[p.from_route_id.0 as int].remove(
            p.from as int,
        ));
        let mut single: Vec<ActivityId> = Vec::new();
        single.push(moved);
        solution.replace_activities(p.to_route_id, single.as_slice(), p.to, p.to);
        assert(solution@[p.to_route_id.0 as int] =~= old(solution)@[p.to_route_id.0 as int].insert(
            p.to as int,
            moved,
        ));
        assert(solution@ =~= self@.result(old(solution)@));
    }

    pub fn updated_routes(&self) -> (r: Vec<RouteIdx>)
        ensures
            r@ == seq![self@.from_route_id, self@.to_route_id],
    {
        let mut v = Vec::new();
        v.push(self.params.from_route_id);
        v.push(self.params.to_route_id);
        assert(v@ =~= seq![self@.from_route_id, self@.to_route_id]);
        v
    }
}

/// An inter-route relocate keeps every activity of the two routes, as many
/// times each: it only moves one from the first route to the second.
pub proof fn lemma_inter_relocate_keeps_activities(
    s1: Seq<ActivityId>,
    s2: Seq<ActivityId>,
    from: int,
    to: int,
)
    requires
        0 <= from < s1.len(),
        0 <= to <= s2.len(),
    ensures
        (s1.remove(from) + s2.insert(to, s1[from])).to_multiset() == (s1 + s2).to_multiset(),
{
    broadcast use vstd::multiset::group_multiset_axioms;

    vstd::seq_lib::lemma_multiset_commutative(s1.remove(from), s2.insert(to, s1[from]));
    vstd::seq_lib::lemma_multiset_commutative(s1, s2);
    vstd::seq_lib::to_multiset_remove(s1, from);
    vstd::seq_lib::to_multiset_insert(s2, to, s1[from]);
    vstd::seq_lib::to_multiset_contains(s1, s1[from]);
    assert(s1.contains(s1[from]));
    assert((s1.remove(from) + s2.insert(to, s1[from])).to_multiset() =~= (s1 + s2).to_multiset());
}

} // verus!
