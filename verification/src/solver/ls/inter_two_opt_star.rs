use vstd::prelude::*;

use crate::problem::job::ActivityId;
use crate::solver::ls::enumerate::{enumerate_pairs, is_enumeration};
use crate::solver::solution::{breaks_limit, RouteIdx, WorkingSolution};

verus! {

/// The two routes after exchanging their tails: `s1` keeps its items up to
/// `first_from` and takes those of `s2` after `second_from`, and the other way
/// round.
pub open spec fn exchange_tails(
    s1: Seq<ActivityId>,
    s2: Seq<ActivityId>,
    first_from: int,
    second_from: int,
) -> (Seq<ActivityId>, Seq<ActivityId>) {
    (
        s1.subrange(0, first_from + 1) + s2.subrange(second_from + 1, s2.len() as int),
        s2.subrange(0, second_from + 1) + s1.subrange(first_from + 1, s1.len() as int),
    )
}

/// **Inter-Route 2-Opt* (Two-Opt Star)**
///
/// Exchanges the **tails** (remaining activities) of two different routes.
///
/// 1. **Cut R1** after activity `first_from`.
/// 2. **Cut R2** after activity `second_from`.
/// 3. **Swap:** Connect `R1_Head` -> `R2_Tail` and `R2_Head` -> `R1_Tail`.
///
/// ```text
/// BEFORE (Routes Cross):
///    R1: [Head A] --x--> [Tail A]
///    R2: [Head B] --x--> [Tail B]
///
/// AFTER (Routes Uncrossed):
///    R1: [Head A] -----> [Tail B]
///    R2: [Head B] -----> [Tail A]
/// ```
///
/// The tails keep their direction.
#[derive(Debug)]
pub struct InterTwoOptStarOperator {
    params: InterTwoOptStarOperatorParams,
}

#[derive(Debug, Clone, Copy)]
pub struct InterTwoOptStarOperatorParams {
    pub first_route_id: RouteIdx,
    pub second_route_id: RouteIdx,
    pub first_from: usize,
    pub second_from: usize,
}

impl InterTwoOptStarOperatorParams {
    /// The parameters that the operator accepts: two different routes.
    pub open spec fn valid(&self) -> bool {
        self.first_route_id != self.second_route_id
    }

    /// The move fits the routes of `solution`.
    pub open spec fn applicable(&self, solution: Seq<Seq<ActivityId>>) -> bool {
        &&& self.valid()
        &&& self.first_route_id.0 < solution.len()
        &&& self.second_route_id.0 < solution.len()
        &&& self.first_from < solution[self.first_route_id.0 as int].len()
        &&& self.second_from < solution[self.second_route_id.0 as int].len()
    }

    /// The routes after the move.
    pub open spec fn result(&self, solution: Seq<Seq<ActivityId>>) -> Seq<Seq<ActivityId>> {
        let e = exchange_tails(
            solution[self.first_route_id.0 as int],
            solution[self.second_route_id.0 as int],
            self.first_from as int,
            self.second_from as int,
        );
        solution.update(self.first_route_id.0 as int, e.0).update(
            self.second_route_id.0 as int,
            e.1,
        )
    }
}

impl View for InterTwoOptStarOperator {
    type V = InterTwoOptStarOperatorParams;

    closed spec fn view(&self) -> InterTwoOptStarOperatorParams {
        self.params
    }
}

impl InterTwoOptStarOperator {
    /// The parameters of the move.
    pub fn params(&self) -> (r: InterTwoOptStarOperatorParams)
        ensures
            r == self@,
    {
        self.params
    }

    pub fn new(params: InterTwoOptStarOperatorParams) -> (r: Self)
        requires
            params.valid(),
        ensures
            r@ == params,
    {
        Self { params }
    }

    /// Every exchange of tails between the two routes, when the first route
    /// has the larger index and the bounding boxes of the routes intersect:
    /// each pair of cuts `(a, b)` before the last activity of each route that
    /// leaves neither route over its bound, in increasing order of `(a, b)`.
    pub fn generate_moves(
        solution: &WorkingSolution,
        pair: (RouteIdx, RouteIdx),
        bbox_intersects: bool,
    ) -> (r: Vec<Self>)
        requires
            solution.valid_route(pair.0),
            solution.valid_route(pair.1),
            (pair.0.0 > pair.1.0 && bbox_intersects) ==> solution@[pair.0.0 as int].len() >= 1 && (
            solution@[pair.0.0 as int].len() >= 2 ==> solution@[pair.1.0 as int].len() >= 1),
        ensures
            ({
                let len1 = solution@[pair.0.0 as int].len() as int;
                let len2 = solution@[pair.1.0 as int].len() as int;
                let l1 = solution.limits()[pair.0.0 as int];
                let l2 = solution.limits()[pair.1.0 as int];
                let open = pair.0.0 > pair.1.0 && bbox_intersects;
                &&& !open ==> r@.len() == 0
                &&& forall|k: int|
                    0 <= k < r@.len() ==> (#[trigger] r@[k])@.first_route_id == pair.0
                        && r@[k]@.second_route_id == pair.1
                &&& open ==> is_enumeration(
                    r@.map_values(|o: Self| (o@.first_from, o@.second_from)),
                    len1 - 1,
                    len2 - 1,
                    |a: int, b: int|
                        !breaks_limit(len1, l1, len2 - b - 1, len1 - a - 1) && !breaks_limit(
                            len2,
                            l2,
                            len1 - a - 1,
                            len2 - b - 1,
                        ),
                )
            }),
            forall|k: int| 0 <= k < r@.len() ==> (#[trigger] r@[k])@.applicable(solution@),
    {
        let mut out: Vec<Self> = Vec::new();
        if pair.0.0 <= pair.1.0 || !bbox_intersects {
            return out;
        }
        let from_route = solution.route(pair.0);
        let to_route = solution.route(pair.1);
        let len1 = from_route.len();
        let len2 = to_route.len();
        if len1 < 2 || len2 < 2 {
            return out;
        }
        let n1 = len1 - 1;
        let n2 = len2 - 1;
        let ghost l1 = solution.limits()[pair.0.0 as int];
        let ghost l2 = solution.limits()[pair.1.0 as int];
        let ghost pred = |a: int, b: int|
            !breaks_limit(len1 as int, l1, len2 - b - 1, len1 - a - 1)
                && !breaks_limit(len2 as int, l2, len1 - a - 1, len2 - b - 1);
        let keep = |a: usize, b: usize| -> (res: bool)
            ensures
                a < n1 && b < n2 ==> res == (!breaks_limit(
                    from_route@.len() as int,
                    solution.limits()[pair.0.0 as int],
                    to_route@.len() - b - 1,
                    from_route@.len() - a - 1,
                ) && !breaks_limit(
                    to_route@.len() as int,
                    solution.limits()[pair.1.0 as int],
                    from_route@.len() - a - 1,
                    to_route@.len() - b - 1,
                )),
            {
                if a < n1 && b < n2 {
                    !from_route.will_break_maximum_activities_after(len2 - b - 1, len1 - a - 1)
                        && !to_route.will_break_maximum_activities_after(len1 - a - 1, len2 - b - 1)
                } else {
                    false
                }
            };
        let pairs = enumerate_pairs(n1, n2, keep, Ghost(pred));
        let mut k: usize = 0;
        while k < pairs.len()
            invariant
                k <= pairs@.len(),
                out@.len() == k,
                n1 + 1 == solution@[pair.0.0 as int].len(),
                n2 + 1 == solution@[pair.1.0 as int].len(),
                forall|j: int| 0 <= j < pairs@.len() ==> (#[trigger] pairs@[j]).0 < n1 && pairs@[j].1 < n2,
                solution.valid_route(pair.0),
                solution.valid_route(pair.1),
                pair.0 != pair.1,
                forall|j: int|
                    0 <= j < k ==> (#[trigger] out@[j])@ == (InterTwoOptStarOperatorParams {
                        first_route_id: pair.0,
                        second_route_id: pair.1,
                        first_from: pairs@[j].0,
                        second_from: pairs@[j].1,
                    }),
                forall|j: int| 0 <= j < k ==> (#[trigger] out@[j])@.applicable(solution@),
            decreases pairs@.len() - k,
        {
            let (a, b) = pairs[k];
            out.push(
                InterTwoOptStarOperator::new(
                    InterTwoOptStarOperatorParams {
                        first_route_id: pair.0,
                        second_route_id: pair.1,
                        first_from: a,
                        second_from: b,
                    },
                ),
            );
            k = k + 1;
        }
        assert(out@.map_values(|o: Self| (o@.first_from, o@.second_from)) =~= pairs@);
        out
    }

    /// The activities of the first route up to `first_from`, inclusive.
    pub fn first_route_head(&self, solution: &WorkingSolution) -> (r: Vec<ActivityId>)
        requires
            self@.first_route_id.0 < solution@.len(),
            self@.first_from < solution@[self@.first_route_id.0 as int].len(),
        ensures
            r@ == solution@[self@.first_route_id.0 as int].subrange(0, self@.first_from + 1),
    {
        let route = solution.route(self.params.first_route_id);
        route.activity_ids_iter(0, self.params.first_from + 1)
    }

    /// The activities of the first route after `first_from`.
    pub fn first_route_tail(&self, solution: &WorkingSolution) -> (r: Vec<ActivityId>)
        requires
            self@.first_route_id.0 < solution@.len(),
            self@.first_from < solution@[self@.first_route_id.0 as int].len(),
        ensures
            r@ == solution@[self@.first_route_id.0 as int].subrange(
                self@.first_from + 1,
                solution@[self@.first_route_id.0 as int].len() as int,
            ),
    {
        let route = solution.route(self.params.first_route_id);
        route.activity_ids_iter(self.params.first_from + 1, route.len())
    }

    /// The activities of the second route up to `second_from`, inclusive.
    pub fn second_route_head(&self, solution: &WorkingSolution) -> (r: Vec<ActivityId>)
        requires
            self@.second_route_id.0 < solution@.len(),
            self@.second_from < solution@[self@.second_route_id.0 as int].len(),
        ensures
            r@ == solution@[self@.second_route_id.0 as int].subrange(0, self@.second_from + 1),
    {
        let route = solution.route(self.params.second_route_id);
        route.activity_ids_iter(0, self.params.second_from + 1)
    }

    /// The activities of the second route after `second_from`.
    pub fn second_route_tail(&self, solution: &WorkingSolution) -> (r: Vec<ActivityId>)
        requires
            self@.second_route_id.0 < solution@.len(),
            self@.second_from < solution@[self@.second_route_id.0 as int].len(),
        ensures
            r@ == solution@[self@.second_route_id.0 as int].subrange(
                self@.second_from + 1,
                solution@[self@.second_route_id.0 as int].len() as int,
            ),
    {
        let route = solution.route(self.params.second_route_id);
        route.activity_ids_iter(self.params.second_from + 1, route.len())
    }

    /// Exchanges the tails of the two routes.
    pub fn apply(&self, solution: &mut WorkingSolution)
        requires
            self@.applicable(old(solution)@),
        ensures
            final(solution)@ == self@.result(old(solution)@),
            final(solution).limits() == old(solution).limits(),
    {
        let p = self.params;
        let r1_tail = self.first_route_tail(solution);
        let r2_tail = self.second_route_tail(solution);
        let len1 = solution.route(p.first_route_id).len();
        solution.replace_activities(p.first_route_id, r2_tail.as_slice(), p.first_from + 1, len1);
        let len2 = solution.route(p.second_route_id).len();
        solution.replace_activities(p.second_route_id, r1_tail.as_slice(), p.second_from + 1, len2);
        assert(solution@ =~= self@.result(old(solution)@));
    }

    pub fn updated_routes(&self) -> (r: Vec<RouteIdx>)
        ensures
            r@ == seq![self@.first_route_id, self@.second_route_id],
    {
        let mut v = Vec::new();
        v.push(self.params.first_route_id);
        v.push(self.params.second_route_id);
        assert(v@ =~= seq![self@.first_route_id, self@.second_route_id]);
        v
    }
}

/// Exchanging tails keeps every activity of the two routes, as many times
/// each, and doing the same exchange again gives back both routes.
pub proof fn lemma_exchange_tails(s1: Seq<ActivityId>, s2: Seq<ActivityId>, f1: int, f2: int)
    requires
        0 <= f1 < s1.len(),
        0 <= f2 < s2.len(),
    ensures
        ({
            let e = exchange_tails(s1, s2, f1, f2);
            &&& (e.0 + e.1).to_multiset() == (s1 + s2).to_multiset()
            &&& exchange_tails(e.0, e.1, f1, f2) == (s1, s2)
        }),
{
    broadcast use vstd::multiset::group_multiset_axioms;
    broadcast use vstd::seq_lib::lemma_multiset_commutative;

    let h1 = s1.subrange(0, f1 + 1);
    let t1 = s1.subrange(f1 + 1, s1.len() as int);
    let h2 = s2.subrange(0, f2 + 1);
    let t2 = s2.subrange(f2 + 1, s2.len() as int);
    assert(s1 =~= h1 + t1);
    assert(s2 =~= h2 + t2);
    let e = exchange_tails(s1, s2, f1, f2);
    assert(e.0 =~= h1 + t2);
    assert(e.1 =~= h2 + t1);
    assert((h1 + t2 + (h2 + t1)).to_multiset() =~= (h1 + t1 + (h2 + t2)).to_multiset());
    let g = exchange_tails(e.0, e.1, f1, f2);
    assert(e.0.subrange(0, f1 + 1) =~= h1);
    assert(e.0.subrange(f1 + 1, e.0.len() as int) =~= t2);
    assert(e.1.subrange(0, f2 + 1) =~= h2);
    assert(e.1.subrange(f2 + 1, e.1.len() as int) =~= t1);
    assert(g.0 =~= s1);
    assert(g.1 =~= s2);
}

} // verus!
