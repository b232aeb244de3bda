use vstd::prelude::*;

use crate::problem::job::ActivityId;
use crate::solver::solution::{concat, splice, RouteIdx, WorkingSolution};

verus! {

/// `s` without its item at `position`, and with `item` placed where
/// `insertion` points; `insertion` counts positions of `s` before the
/// removal, so a value past `position` lands one place earlier.
pub open spec fn exchange_in<A>(s: Seq<A>, position: int, insertion: int, item: A) -> Seq<A> {
    let without = s.remove(position);
    if insertion > position {
        without.insert(insertion - 1, item)
    } else {
        without.insert(insertion, item)
    }
}

/// **SWAP\***
///
/// Exchanges an activity of one route with an activity of another, each
/// going to its best place in the other route rather than to the place of
/// the one it replaces.
///
/// ```text
/// BEFORE:
///    R1: ... (A) -> [u] -> (B) ... (C) -> (D) ...
///    R2: ... (X) -> [v] -> (Y) ... (Z) -> (W) ...
///
/// AFTER:
///    R1: ... (A) -> (B) ... (C) -> [v] -> (D) ...
///    R2: ... (X) -> (Y) ... (Z) -> [u] -> (W) ...
/// ```
#[derive(Debug)]
pub struct SwapStar {
    params: SwapStarParams,
}

#[derive(Debug, Clone, Copy)]
pub struct SwapStarParams {
    pub first_route: RouteIdx,
    pub second_route: RouteIdx,
    pub first_position: usize,
    pub second_position: usize,
    pub first_insertion: usize,
    pub second_insertion: usize,
}

impl SwapStarParams {
    /// The parameters that the operator accepts: two different routes, and
    /// no insertion right after the activity that leaves (that place is the
    /// place of the activity itself once it is gone).
    pub open spec fn valid(&self) -> bool {
        &&& self.first_route != self.second_route
        &&& self.first_insertion != self.first_position + 1
        &&& self.second_insertion != self.second_position + 1
    }

    /// The move fits the routes of `solution`.
    pub open spec fn applicable(&self, solution: Seq<Seq<ActivityId>>) -> bool {
        &&& self.valid()
        &&& self.first_route.0 < solution.len()
        &&& self.second_route.0 < solution.len()
        &&& self.first_position < solution[self.first_route.0 as int].len()
        &&& self.first_insertion <= solution[self.first_route.0 as int].len()
        &&& self.second_position < solution[self.second_route.0 as int].len()
        &&& self.second_insertion <= solution[self.second_route.0 as int].len()
    }

    /// The routes after the move: each activity leaves its route and enters
    /// the other one at its insertion point.
    pub open spec fn result(&self, solution: Seq<Seq<ActivityId>>) -> Seq<Seq<ActivityId>> {
        let s1 = solution[self.first_route.0 as int];
        let s2 = solution[self.second_route.0 as int];
        let u = s1[self.first_position as int];
        let v = s2[self.second_position as int];
        solution.update(
            self.first_route.0 as int,
            exchange_in(s1, self.first_position as int, self.first_insertion as int, v),
        ).update(
            self.second_route.0 as int,
            exchange_in(s2, self.second_position as int, self.second_insertion as int, u),
        )
    }
}

impl View for SwapStar {
    type V = SwapStarParams;

    closed spec fn view(&self) -> SwapStarParams {
        self.params
    }
}

/// The replacement that `apply` writes into one route, and the range it
/// replaces.
proof fn lemma_exchange_in_as_splice(s: Seq<ActivityId>, position: int, insertion: int, item: ActivityId)
    requires
        0 <= position < s.len(),
        0 <= insertion <= s.len(),
        insertion != position + 1,
    ensures
        insertion > position ==> splice(
            s,
            s.subrange(position + 1, insertion) + seq![item],
            position,
            insertion,
        ) == exchange_in(s, position, insertion, item),
        insertion <= position ==> splice(
            s,
            seq![item] + s.subrange(insertion, position),
            insertion,
            position + 1,
        ) == exchange_in(s, position, insertion, item),
{
    if insertion > position {
        assert(splice(s, s.subrange(position + 1, insertion) + seq![item], position, insertion)
            =~= exchange_in(s, position, insertion, item));
    } else {
        assert(splice(s, seq![item] + s.subrange(insertion, position), insertion, position + 1)
            =~= exchange_in(s, position, insertion, item));
    }
}

/// The activities that replace the range of one route: those between the
/// activity that leaves and the insertion point, with the incoming activity
/// on the side of the insertion point.
fn replacement(
    solution: &WorkingSolution,
    route_id: RouteIdx,
    position: usize,
    insertion: usize,
    item: ActivityId,
) -> (r: Vec<ActivityId>)
    requires
        solution.valid_route(route_id),
        position < solution@[route_id.0 as int].len(),
        insertion <= solution@[route_id.0 as int].len(),
    ensures
        ({
            let s = solution@[route_id.0 as int];
            &&& insertion > position ==> r@ == s.subrange(position as int + 1, insertion as int)
                + seq![item]
            &&& insertion <= position ==> r@ == seq![item] + s.subrange(
                insertion as int,
                position as int,
            )
        }),
{
    let route = solution.route(route_id);
    let mut single: Vec<ActivityId> = Vec::new();
    single.push(item);
    if insertion > position {
        let between = route.activity_ids_iter(position + 1, insertion);
        concat(between.as_slice(), single.as_slice())
    } else {
        let between = route.activity_ids_iter(insertion, position);
        concat(single.as_slice(), between.as_slice())
    }
}

impl SwapStar {
    /// The parameters of the move.
    pub fn params(&self) -> (r: SwapStarParams)
        ensures
            r == self@,
    {
        self.params
    }

    pub fn new(params: SwapStarParams) -> (r: Self)
        requires
            params.valid(),
        ensures
            r@ == params,
    {
        SwapStar { params }
    }

    /// SWAP\* moves are found by their own search, not by enumeration: none
    /// is generated here.
    pub fn generate_moves(_solution: &WorkingSolution, _pair: (RouteIdx, RouteIdx)) -> (r: Vec<
        Self,
    >)
        ensures
            r@.len() == 0,
    {
        Vec::new()
    }

    /// Exchanges the two activities, each entering the other route at its
    /// insertion point.
    pub fn apply(&self, solution: &mut WorkingSolution)
        requires
            self@.applicable(old(solution)@),
        ensures
            final(solution)@ == self@.result(old(solution)@),
            final(solution).limits() == old(solution).limits(),
    {
        let p = self.params;
        let ghost s1 = solution@[p.first_route.0 as int];
        let ghost s2 = solution@[p.second_route.0 as int];
        let u = solution.route(p.first_route).activity_id(p.first_position);
        let v = solution.route(p.second_route).activity_id(p.second_position);
        let first_items = replacement(
            solution,
            p.first_route,
            p.first_position,
            p.first_insertion,
            v,
        );
        let second_items = replacement(
            solution,
            p.second_route,
            p.second_position,
            p.second_insertion,
            u,
        );
        proof {
            lemma_exchange_in_as_splice(s1, p.first_position as int, p.first_insertion as int, v);
            lemma_exchange_in_as_splice(s2, p.second_position as int, p.second_insertion as int, u);
        }
        if p.first_insertion > p.first_position {
            solution.replace_activities(
                p.first_route,
                first_items.as_slice(),
                p.first_position,
                p.first_insertion,
            );
        } else {
            solution.replace_activities(
                p.first_route,
                first_items.as_slice(),
                p.first_insertion,
                p.first_position + 1,
            );
        }
        assert(solution@[p.second_route.0 as int] == s2);
        if p.second_insertion > p.second_position {
            solution.replace_activities(
                p.second_route,
                second_items.as_slice(),
                p.second_position,
                p.second_insertion,
            );
        } else {
            solution.replace_activities(
                p.second_route,
                second_items.as_slice(),
                p.second_insertion,
                p.second_position + 1,
            );
        }
        assert(solution@ =~= self@.result(old(solution)@));
    }

    pub fn updated_routes(&self) -> (r: Vec<RouteIdx>)
        ensures
            r@ == seq![self@.first_route, self@.second_route],
    {
        let mut v = Vec::new();
        v.push(self.params.first_route);
        v.push(self.params.second_route);
        assert(v@ =~= seq![self@.first_route, self@.second_route]);
        v
    }
}

/// Exchanging an activity of each route keeps every activity of the two
/// routes, as many times each.
pub proof fn lemma_swap_star_keeps_activities(
    s1: Seq<ActivityId>,
    s2: Seq<ActivityId>,
    p1: int,
    i1: int,
    p2: int,
    i2: int,
)
    requires
        0 <= p1 < s1.len(),
        0 <= i1 <= s1.len(),
        0 <= p2 < s2.len(),
        0 <= i2 <= s2.len(),
    ensures
        (exchange_in(s1, p1, i1, s2[p2]) + exchange_in(s2, p2, i2, s1[p1])).to_multiset() == (s1
            + s2).to_multiset(),
{
    broadcast use vstd::multiset::group_multiset_axioms;

    let u = s1[p1];
    let v = s2[p2];
    let a = exchange_in(s1, p1, i1, v);
    let b = exchange_in(s2, p2, i2, u);
    let k1 = if i1 > p1 { i1 - 1 } else { i1 };
    let k2 = if i2 > p2 { i2 - 1 } else { i2 };
    vstd::seq_lib::lemma_multiset_commutative(a, b);
    vstd::seq_lib::lemma_multiset_commutative(s1, s2);
    vstd::seq_lib::to_multiset_remove(s1, p1);
    vstd::seq_lib::to_multiset_remove(s2, p2);
    vstd::seq_lib::to_multiset_insert(s1.remove(p1), k1, v);
    vstd::seq_lib::to_multiset_insert(s2.remove(p2), k2, u);
    vstd::seq_lib::to_multiset_contains(s1, u);
    vstd::seq_lib::to_multiset_contains(s2, v);
    assert(s1.contains(u));
    assert(s2.contains(v));
    assert((a + b).to_multiset() =~= (s1 + s2).to_multiset());
}

} // verus!
