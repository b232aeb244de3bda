use vstd::prelude::*;

use crate::problem::job::ActivityId;
use crate::solver::ls::enumerate::{enumerate_pairs, is_enumeration};
use crate::solver::solution::{splice, RouteIdx, WorkingSolution};

verus! {

/// The two routes after exchanging `s1[a1..b1]` with `s2[a2..b2]`.
pub open spec fn exchange_segments(
    s1: Seq<ActivityId>,
    s2: Seq<ActivityId>,
    a1: int,
    b1: int,
    a2: int,
    b2: int,
) -> (Seq<ActivityId>, Seq<ActivityId>) {
    (splice(s1, s2.subrange(a2, b2), a1, b1), splice(s2, s1.subrange(a1, b1), a2, b2))
}

/// A route of `len` activities is already over the bound of its vehicle.
pub open spec fn over_limit(len: int, limit: Option<usize>) -> bool {
    match limit {
        Some(m) => len > m,
        None => false,
    }
}

/// The neighborhood test `near` gives the same answer to the same question.
pub open spec fn answers_consistently<F: Fn(ActivityId, ActivityId) -> bool>(near: &F) -> bool {
    forall|x: ActivityId, y: ActivityId, u: bool, v: bool|
        #![trigger near.ensures((x, y), u), near.ensures((x, y), v)]
        near.ensures((x, y), u) && near.ensures((x, y), v) ==> u == v
}

/// The neighborhood test `near` answers yes to `(x, y)`: `y` lies in the
/// neighborhood of `x`.
pub open spec fn accepts<F: Fn(ActivityId, ActivityId) -> bool>(
    near: &F,
    x: ActivityId,
    y: ActivityId,
) -> bool {
    near.ensures((x, y), true)
}

/// Exchanging `s1[a..a + 2]` with `s2[b..b + 2]` is a candidate: both
/// segments are followed by an activity, neither route is over its bound,
/// and each activity around a segment has the first activity of the
/// incoming segment in its neighborhood.
pub open spec fn cross_candidate<F: Fn(ActivityId, ActivityId) -> bool>(
    s1: Seq<ActivityId>,
    s2: Seq<ActivityId>,
    limit1: Option<usize>,
    limit2: Option<usize>,
    near: &F,
    a: int,
    b: int,
) -> bool {
    &&& a + 3 <= s1.len()
    &&& b + 3 <= s2.len()
    &&& !over_limit(s1.len() as int, limit1)
    &&& !over_limit(s2.len() as int, limit2)
    &&& a > 0 ==> accepts(near, s1[a - 1], s2[b])
    &&& accepts(near, s1[a + 2], s2[b])
    &&& b > 0 ==> accepts(near, s2[b - 1], s1[a])
    &&& accepts(near, s2[b + 2], s1[a])
}

/// **Cross-Exchange**
///
/// Exchanges the segment `first_start..=first_end` of the first route with
/// the segment `second_start..=second_end` of the second, each keeping its
/// direction.
///
/// ```text
/// BEFORE:
///    R1: ... (A) -> [B -> C] -> (D) ...
///    R2: ... (X) -> [Y -> Z] -> (W) ...
///
/// AFTER:
///    R1: ... (A) -> [Y -> Z] -> (D) ...
///    R2: ... (X) -> [B -> C] -> (W) ...
/// ```
#[derive(Debug)]
pub struct CrossExchangeOperator {
    params: CrossExchangeOperatorParams,
}

#[derive(Debug, Clone, Copy)]
pub struct CrossExchangeOperatorParams {
    pub first_route_id: RouteIdx,
    pub second_route_id: RouteIdx,
    pub first_start: usize,
    pub first_end: usize,
    pub second_start: usize,
    pub second_end: usize,
}

impl CrossExchangeOperatorParams {
    /// The parameters that the operator accepts: two different routes and
    /// segments of at least two.
    pub open spec fn valid(&self) -> bool {
        &&& self.first_route_id != self.second_route_id
        &&& self.first_start < self.first_end
        &&& self.second_start < self.second_end
    }

    /// The move fits the routes of `solution`.
    pub open spec fn applicable(&self, solution: Seq<Seq<ActivityId>>) -> bool {
        &&& self.valid()
        &&& self.first_route_id.0 < solution.len()
        &&& self.second_route_id.0 < solution.len()
        &&& self.first_end < solution[self.first_route_id.0 as int].len()
        &&& self.second_end < solution[self.second_route_id.0 as int].len()
    }

    /// The routes after the move.
    pub open spec fn result(&self, solution: Seq<Seq<ActivityId>>) -> Seq<Seq<ActivityId>> {
        let e = exchange_segments(
            solution[self.first_route_id.0 as int],
            solution[self.second_route_id.0 as int],
            self.first_start as int,
            self.first_end + 1,
            self.second_start as int,
            self.second_end + 1,
        );
        solution.update(self.first_route_id.0 as int, e.0).update(
            self.second_route_id.0 as int,
            e.1,
        )
    }
}

impl View for CrossExchangeOperator {
    type V = CrossExchangeOperatorParams;

    closed spec fn view(&self) -> CrossExchangeOperatorParams {
        self.params
    }
}

impl CrossExchangeOperator {
    /// The parameters of the move.
    pub fn params(&self) -> (r: CrossExchangeOperatorParams)
        ensures
            r == self@,
    {
        self.params
    }

    pub fn new(params: CrossExchangeOperatorParams) -> (r: Self)
        requires
            params.valid(),
        ensures
            r@ == params,
    {
        Self { params }
    }

    /// Every exchange of two activities of the first route with two of the
    /// second, when the first route has the larger index and the bounding
    /// boxes of the routes intersect: each pair of starts `(a, b)` that
    /// `cross_candidate` accepts, in increasing order of `(a, b)`.
    pub fn generate_moves<F: Fn(ActivityId, ActivityId) -> bool>(
        solution: &WorkingSolution,
        pair: (RouteIdx, RouteIdx),
        bbox_intersects: bool,
        near: &F,
    ) -> (r: Vec<Self>)
        requires
            solution.valid_route(pair.0),
            solution.valid_route(pair.1),
            forall|x: ActivityId, y: ActivityId| near.requires((x, y)),
            answers_consistently(near),
            (pair.0.0 > pair.1.0 && bbox_intersects) ==> solution@[pair.0.0 as int].len() >= 1 && (
            solution@[pair.0.0 as int].len() >= 2 ==> solution@[pair.1.0 as int].len() >= 1),
        ensures
            ({
                let s1 = solution@[pair.0.0 as int];
                let s2 = solution@[pair.1.0 as int];
                let l1 = solution.limits()[pair.0.0 as int];
                let l2 = solution.limits()[pair.1.0 as int];
                let open = pair.0.0 > pair.1.0 && bbox_intersects;
                &&& !open ==> r@.len() == 0
                &&& forall|k: int|
                    0 <= k < r@.len() ==> {
                        &&& (#[trigger] r@[k])@.first_route_id == pair.0
                        &&& r@[k]@.second_route_id == pair.1
                        &&& r@[k]@.first_end == r@[k]@.first_start + 1
                        &&& r@[k]@.second_end == r@[k]@.second_start + 1
                    }
                &&& open ==> is_enumeration(
                    r@.map_values(|o: Self| (o@.first_start, o@.second_start)),
                    s1.len() as int,
                    s2.len() as int,
                    |a: int, b: int| cross_candidate(s1, s2, l1, l2, near, a, b),
                )
            }),
            forall|k: int| 0 <= k < r@.len() ==> (#[trigger] r@[k])@.applicable(solution@),
    {
        let mut out: Vec<Self> = Vec::new();
        if pair.0.0 <= pair.1.0 || !bbox_intersects {
            return out;
        }
        let from_route = solution.route(pair.0);
        let to_route = solution.route(pair.1);
        let len1 = from_route.len();
        let len2 = to_route.len();
        let from_over = from_route.will_break_maximum_activities(0);
        let to_over = to_route.will_break_maximum_activities(0);
        let ghost s1 = from_route@;
        let ghost s2 = to_route@;
        let ghost l1 = solution.limits()[pair.0.0 as int];
        let ghost l2 = solution.limits()[pair.1.0 as int];
        let ghost pred = |a: int, b: int| cross_candidate(s1, s2, l1, l2, near, a, b);
        let keep = |a: usize, b: usize| -> (res: bool)
            requires
                forall|x: ActivityId, y: ActivityId| near.requires((x, y)),
                answers_consistently(near),
            ensures
                a < len1 && b < len2 ==> res == cross_candidate(
                    from_route@,
                    to_route@,
                    solution.limits()[pair.0.0 as int],
                    solution.limits()[pair.1.0 as int],
                    near,
                    a as int,
                    b as int,
                ),
            {
                if a >= len1 || b >= len2 || len1 - a < 3 || len2 - b < 3 || from_over || to_over {
                    return false;
                }
                let from_start = from_route.activity_id(a);
                let to_start = to_route.activity_id(b);
                if a > 0 && !near(from_route.activity_id(a - 1), to_start) {
                    return false;
                }
                if !near(from_route.activity_id(a + 2), to_start) {
                    return false;
                }
                if b > 0 && !near(to_route.activity_id(b - 1), from_start) {
                    return false;
                }
                near(to_route.activity_id(b + 2), from_start)
            };
        let pairs = enumerate_pairs(len1, len2, keep, Ghost(pred));
        let mut k: usize = 0;
        while k < pairs.len()
            invariant
                k <= pairs@.len(),
                is_enumeration(pairs@, len1 as int, len2 as int, pred),
                out@.len() == k,
                len1 == solution@[pair.0.0 as int].len(),
                len2 == solution@[pair.1.0 as int].len(),
                s1 == solution@[pair.0.0 as int],
                s2 == solution@[pair.1.0 as int],
                pred == (|a: int, b: int| cross_candidate(s1, s2, l1, l2, near, a, b)),
                solution.valid_route(pair.0),
                solution.valid_route(pair.1),
                pair.0.0 > pair.1.0,
                forall|j: int|
                    0 <= j < k ==> (#[trigger] out@[j])@ == (CrossExchangeOperatorParams {
                        first_route_id: pair.0,
                        second_route_id: pair.1,
                        first_start: pairs@[j].0,
                        first_end: (pairs@[j].0 + 1) as usize,
                        second_start: pairs@[j].1,
                        second_end: (pairs@[j].1 + 1) as usize,
                    }),
                forall|j: int| 0 <= j < k ==> (#[trigger] out@[j])@.applicable(solution@),
            decreases pairs@.len() - k,
        {
            let (a, b) = pairs[k];
            assert(pred(a as int, b as int));
            assert(a + 3 <= len1 && b + 3 <= len2);
            assert(pair.0 != pair.1);
            out.push(
                CrossExchangeOperator::new(
                    CrossExchangeOperatorParams {
                        first_route_id: pair.0,
                        second_route_id: pair.1,
                        first_start: a,
                        first_end: a + 1,
                        second_start: b,
                        second_end: b + 1,
                    },
                ),
            );
            k = k + 1;
        }
        assert(out@.map_values(|o: Self| (o@.first_start, o@.second_start)) =~= pairs@);
        out
    }

    /// The segment of the first route that moves.
    pub fn first_route_moved_jobs(&self, solution: &WorkingSolution) -> (r: Vec<ActivityId>)
        requires
            self@.applicable(solution@),
        ensures
            r@ == solution@[self@.first_route_id.0 as int].subrange(
                self@.first_start as int,
                self@.first_end + 1,
            ),
    {
        solution.route(self.params.first_route_id).activity_ids_iter(
            self.params.first_start,
            self.params.first_end + 1,
        )
    }

    /// The segment of the second route that moves.
    pub fn second_route_moved_jobs(&self, solution: &WorkingSolution) -> (r: Vec<ActivityId>)
        requires
            self@.applicable(solution@),
        ensures
            r@ == solution@[self@.second_route_id.0 as int].subrange(
                self@.second_start as int,
                self@.second_end + 1,
            ),
    {
        solution.route(self.params.second_route_id).activity_ids_iter(
            self.params.second_start,
            self.params.second_end + 1,
        )
    }

    /// Exchanges the two segments.
    pub fn apply(&self, solution: &mut WorkingSolution)
        requires
            self@.applicable(old(solution)@),
        ensures
            final(solution)@ == self@.result(old(solution)@),
            final(solution).limits() == old(solution).limits(),
    {
        let p = self.params;
        let _len1 = solution.route(p.first_route_id).len();
        let _len2 = solution.route(p.second_route_id).len();
        let first_moved = self.first_route_moved_jobs(solution);
        let second_moved = self.second_route_moved_jobs(solution);
        solution.replace_activities(
            p.first_route_id,
            second_moved.as_slice(),
            p.first_start,
            p.first_end + 1,
        );
        solution.replace_activities(
            p.second_route_id,
            first_moved.as_slice(),
            p.second_start,
            p.second_end + 1,
        );
        assert(solution@ =~= self@.result(old(solution)@));
    }

    pub fn updated_routes(&self) -> (r: Vec<RouteIdx>)
        ensures
            r@ == seq![self@.first_route_id, self@.second_route_id],
    {
        let mut v = Vec::new();
        v.push(self.params.first_route_id);
        v.push(self.params.second_route_id);
        assert(v@ =~= seq![self@.first_route_id, self@.second_route_id]);
        v
    }
}

/// Exchanging two segments between routes keeps every activity of the two
/// routes, as many times each.
pub proof fn lemma_exchange_segments_keeps_activities(
    s1: Seq<ActivityId>,
    s2: Seq<ActivityId>,
    a1: int,
    b1: int,
    a2: int,
    b2: int,
)
    requires
        0 <= a1 <= b1 <= s1.len(),
        0 <= a2 <= b2 <= s2.len(),
    ensures
        ({
            let e = exchange_segments(s1, s2, a1, b1, a2, b2);
            (e.0 + e.1).to_multiset() == (s1 + s2).to_multiset()
        }),
{
    broadcast use vstd::multiset::group_multiset_axioms;
    broadcast use vstd::seq_lib::lemma_multiset_commutative;

    let x1 = s1.subrange(0, a1);
    let m1 = s1.subrange(a1, b1);
    let y1 = s1.subrange(b1, s1.len() as int);
    let x2 = s2.subrange(0, a2);
    let m2 = s2.subrange(a2, b2);
    let y2 = s2.subrange(b2, s2.len() as int);
    assert(s1 =~= x1 + m1 + y1);
    assert(s2 =~= x2 + m2 + y2);
    let e = exchange_segments(s1, s2, a1, b1, a2, b2);
    assert(e.0 =~= x1 + m2 + y1);
    assert(e.1 =~= x2 + m1 + y2);
    assert((x1 + m2 + y1 + (x2 + m1 + y2)).to_multiset() =~= (x1 + m1 + y1 + (x2 + m2
        + y2)).to_multiset());
}

/// Exchanging segments of the same length twice at the same places gives
/// back both routes.
pub proof fn lemma_exchange_segments_involution(
    s1: Seq<ActivityId>,
    s2: Seq<ActivityId>,
    a1: int,
    b1: int,
    a2: int,
    b2: int,
)
    requires
        0 <= a1 <= b1 <= s1.len(),
        0 <= a2 <= b2 <= s2.len(),
        b1 - a1 == b2 - a2,
    ensures
        ({
            let e = exchange_segments(s1, s2, a1, b1, a2, b2);
            exchange_segments(e.0, e.1, a1, b1, a2, b2) == (s1, s2)
        }),
{
    let e = exchange_segments(s1, s2, a1, b1, a2, b2);
    assert(e.0.subrange(a1, b1) =~= s2.subrange(a2, b2));
    assert(e.1.subrange(a2, b2) =~= s1.subrange(a1, b1));
    let g = exchange_segments(e.0, e.1, a1, b1, a2, b2);
    assert(g.0 =~= s1);
    assert(g.1 =~= s2);
}

} // verus!
