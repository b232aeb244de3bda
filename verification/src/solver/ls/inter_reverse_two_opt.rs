use vstd::prelude::*;

use crate::problem::job::ActivityId;
use crate::solver::ls::enumerate::{enumerate_pairs, is_enumeration};
use crate::solver::solution::{breaks_limit, RouteIdx, WorkingSolution};

verus! {

/// The two routes after the reversed exchange: `s1` keeps its items up to
/// `p1` and continues with those of `s2` up to `p2` backwards; `s2` starts
/// with the tail of `s1` after `p1` backwards and keeps its items after `p2`.
pub open spec fn exchange_reversed(s1: Seq<ActivityId>, s2: Seq<ActivityId>, p1: int, p2: int) -> (
    Seq<ActivityId>,
    Seq<ActivityId>,
) {
    (
        s1.subrange(0, p1 + 1) + s2.subrange(0, p2 + 1).reverse(),
        s1.subrange(p1 + 1, s1.len() as int).reverse() + s2.subrange(p2 + 1, s2.len() as int),
    )
}

/// **Inter-Route Reverse 2-Opt**
///
/// Cuts the first route after `first_position` and the second after
/// `second_position`; the first route goes on with the head of the second,
/// reversed, and the second starts with the tail of the first, reversed.
///
/// ```text
/// BEFORE:
///    R1: [Head A] --x--> [Tail A]
///    R2: [Head B] --x--> [Tail B]
///
/// AFTER:
///    R1: [Head A] -----> reverse([Head B])
///    R2: reverse([Tail A]) -----> [Tail B]
/// ```
#[derive(Debug)]
pub struct InterReverseTwoOptOperator {
    params: InterReverseTwoOptOperatorParams,
}

#[derive(Debug, Clone, Copy)]
pub struct InterReverseTwoOptOperatorParams {
    pub first_route_id: RouteIdx,
    pub second_route_id: RouteIdx,
    pub first_position: usize,
    pub second_position: usize,
}

impl InterReverseTwoOptOperatorParams {
    /// The parameters that the operator accepts: two different routes.
    pub open spec fn valid(&self) -> bool {
        self.first_route_id != self.second_route_id
    }

    /// The move fits the routes of `solution`.
    pub open spec fn applicable(&self, solution: Seq<Seq<ActivityId>>) -> bool {
        &&& self.valid()
        &&& self.first_route_id.0 < solution.len()
        &&& self.second_route_id.0 < solution.len()
        &&& self.first_position < solution[self.first_route_id.0 as int].len()
        &&& self.second_position < solution[self.second_route_id.0 as int].len()
    }

    /// The routes after the move.
    pub open spec fn result(&self, solution: Seq<Seq<ActivityId>>) -> Seq<Seq<ActivityId>> {
        let e = exchange_reversed(
            solution[self.first_route_id.0 as int],
            solution[self.second_route_id.0 as int],
            self.first_position as int,
            self.second_position as int,
        );
        solution.update(self.first_route_id.0 as int, e.0).update(
            self.second_route_id.0 as int,
            e.1,
        )
    }
}

impl View for InterReverseTwoOptOperator {
    type V = InterReverseTwoOptOperatorParams;

    closed spec fn view(&self) -> InterReverseTwoOptOperatorParams {
        self.params
    }
}

/// The items of `v` in reverse order.
fn reversed(v: &Vec<ActivityId>) -> (r: Vec<ActivityId>)
    ensures
        r@ == v@.reverse(),
{
    let mut out: Vec<ActivityId> = Vec::new();
    let mut k: usize = v.len();
    while k > 0
        invariant
            k <= v@.len(),
            out@ == v@.subrange(k as int, v@.len() as int).reverse(),
        decreases k,
    {
        k = k - 1;
        out.push(v[k]);
        assert(out@ =~= v@.subrange(k as int, v@.len() as int).reverse());
    }
    assert(v@.subrange(0, v@.len() as int) =~= v@);
    out
}

impl InterReverseTwoOptOperator {
    /// The parameters of the move.
    pub fn params(&self) -> (r: InterReverseTwoOptOperatorParams)
        ensures
            r == self@,
    {
        self.params
    }

    pub fn new(params: InterReverseTwoOptOperatorParams) -> (r: Self)
        requires
            params.valid(),
        ensures
            r@ == params,
    {
        Self { params }
    }

    /// Every reversed exchange between two different routes whose bounding
    /// boxes intersect: each pair of positions `(a, b)` before the last
    /// activity of each route such that neither route goes over its bound
    /// when the tail of the first and the head of the second change places,
    /// in increasing order of `(a, b)`.
    pub fn generate_moves(
        solution: &WorkingSolution,
        pair: (RouteIdx, RouteIdx),
        bbox_intersects: bool,
    ) -> (r: Vec<Self>)
        requires
            solution.valid_route(pair.0),
            solution.valid_route(pair.1),
            (pair.0 != pair.1 && bbox_intersects) ==> solution@[pair.0.0 as int].len() >= 1 && (
            solution@[pair.0.0 as int].len() >= 2 ==> solution@[pair.1.0 as int].len() >= 1),
        ensures
            ({
                let len1 = solution@[pair.0.0 as int].len() as int;
                let len2 = solution@[pair.1.0 as int].len() as int;
                let l1 = solution.limits()[pair.0.0 as int];
                let l2 = solution.limits()[pair.1.0 as int];
                let open = pair.0 != pair.1 && bbox_intersects;
                &&& !open ==> r@.len() == 0
                &&& forall|k: int|
                    0 <= k < r@.len() ==> (#[trigger] r@[k])@.first_route_id == pair.0
                        && r@[k]@.second_route_id == pair.1
                &&& open ==> is_enumeration(
                    r@.map_values(|o: Self| (o@.first_position, o@.second_position)),
                    len1 - 1,
                    len2 - 1,
                    |a: int, b: int|
                        !breaks_limit(len1, l1, b + 1, len1 - a - 1) && !breaks_limit(
                            len2,
                            l2,
                            len1 - a - 1,
                            b + 1,
                        ),
                )
            }),
            forall|k: int| 0 <= k < r@.len() ==> (#[trigger] r@[k])@.applicable(solution@),
    {
        let mut out: Vec<Self> = Vec::new();
        if pair.0 == pair.1 || !bbox_intersects {
            return out;
        }
        let from_route = solution.route(pair.0);
        let to_route = solution.route(pair.1);
        let len1 = from_route.len();
        let len2 = to_route.len();
        if len1 < 2 || len2 < 2 {
            return out;
        }
        let n1 = len1 - 1;
        let n2 = len2 - 1;
        let ghost l1 = solution.limits()[pair.0.0 as int];
        let ghost l2 = solution.limits()[pair.1.0 as int];
        let ghost pred = |a: int, b: int|
            !breaks_limit(len1 as int, l1, b + 1, len1 - a - 1)
                && !breaks_limit(len2 as int, l2, len1 - a - 1, b + 1);
        let keep = |a: usize, b: usize| -> (res: bool)
            ensures
                a < n1 && b < n2 ==> res == (!breaks_limit(
                    from_route@.len() as int,
                    solution.limits()[pair.0.0 as int],
                    b + 1,
                    from_route@.len() - a - 1,
                ) && !breaks_limit(
                    to_route@.len() as int,
                    solution.limits()[pair.1.0 as int],
                    from_route@.len() - a - 1,
                    b + 1,
                )),
            {
                if a < n1 && b < n2 {
                    !from_route.will_break_maximum_activities_after(b + 1, len1 - a - 1)
                        && !to_route.will_break_maximum_activities_after(len1 - a - 1, b + 1)
                } else {
                    false
                }
            };
        let pairs = enumerate_pairs(n1, n2, keep, Ghost(pred));
        let mut k: usize = 0;
        while k < pairs.len()
            invariant
                k <= pairs@.len(),
                out@.len() == k,
                n1 + 1 == solution@[pair.0.0 as int].len(),
                n2 + 1 == solution@[pair.1.0 as int].len(),
                forall|j: int| 0 <= j < pairs@.len() ==> (#[trigger] pairs@[j]).0 < n1 && pairs@[j].1 < n2,
                solution.valid_route(pair.0),
                solution.valid_route(pair.1),
                pair.0 != pair.1,
                forall|j: int|
                    0 <= j < k ==> (#[trigger] out@[j])@ == (InterReverseTwoOptOperatorParams {
                        first_route_id: pair.0,
                        second_route_id: pair.1,
                        first_position: pairs@[j].0,
                        second_position: pairs@[j].1,
                    }),
                forall|j: int| 0 <= j < k ==> (#[trigger] out@[j])@.applicable(solution@),
            decreases pairs@.len() - k,
        {
            let (a, b) = pairs[k];
            out.push(
                InterReverseTwoOptOperator::new(
                    InterReverseTwoOptOperatorParams {
                        first_route_id: pair.0,
                        second_route_id: pair.1,
                        first_position: a,
                        second_position: b,
                    },
                ),
            );
            k = k + 1;
        }
        assert(out@.map_values(|o: Self| (o@.first_position, o@.second_position)) =~= pairs@);
        out
    }

    /// The activities of the first route up to `first_position`, inclusive.
    pub fn first_route_head(&self, solution: &WorkingSolution) -> (r: Vec<ActivityId>)
        requires
            self@.first_route_id.0 < solution@.len(),
            self@.first_position < solution@[self@.first_route_id.0 as int].len(),
        ensures
            r@ == solution@[self@.first_route_id.0 as int].subrange(0, self@.first_position + 1),
    {
        let route = solution.route(self.params.first_route_id);
        route.activity_ids_iter(0, self.params.first_position + 1)
    }

    /// The activities of the first route after `first_position`.
    pub fn first_route_tail(&self, solution: &WorkingSolution) -> (r: Vec<ActivityId>)
        requires
            self@.first_route_id.0 < solution@.len(),
            self@.first_position < solution@[self@.first_route_id.0 as int].len(),
        ensures
            r@ == solution@[self@.first_route_id.0 as int].subrange(
                self@.first_position + 1,
                solution@[self@.first_route_id.0 as int].len() as int,
            ),
    {
        let route = solution.route(self.params.first_route_id);
        route.activity_ids_iter(self.params.first_position + 1, route.len())
    }

    /// The activities of the second route up to `second_position`, inclusive.
    pub fn second_route_head(&self, solution: &WorkingSolution) -> (r: Vec<ActivityId>)
        requires
            self@.second_route_id.0 < solution@.len(),
            self@.second_position < solution@[self@.second_route_id.0 as int].len(),
        ensures
            r@ == solution@[self@.second_route_id.0 as int].subrange(
                0,
                self@.second_position + 1,
            ),
    {
        let route = solution.route(self.params.second_route_id);
        route.activity_ids_iter(0, self.params.second_position + 1)
    }

    /// The activities of the second route after `second_position`.
    pub fn second_route_tail(&self, solution: &WorkingSolution) -> (r: Vec<ActivityId>)
        requires
            self@.second_route_id.0 < solution@.len(),
            self@.second_position < solution@[self@.second_route_id.0 as int].len(),
        ensures
            r@ == solution@[self@.second_route_id.0 as int].subrange(
                self@.second_position + 1,
                solution@[self@.second_route_id.0 as int].len() as int,
            ),
    {
        let route = solution.route(self.params.second_route_id);
        route.activity_ids_iter(self.params.second_position + 1, route.len())
    }

    /// Performs the reversed exchange.
    pub fn apply(&self, solution: &mut WorkingSolution)
        requires
            self@.applicable(old(solution)@),
        ensures
            final(solution)@ == self@.result(old(solution)@),
            final(solution).limits() == old(solution).limits(),
    {
        let p = self.params;
        let _len2 = solution.route(p.second_route_id).len();
        let r1_tail = reversed(&self.first_route_tail(solution));
        let r2_head = reversed(&self.second_route_head(solution));
        let len1 = solution.route(p.first_route_id).len();
        solution.replace_activities(p.first_route_id, r2_head.as_slice(), p.first_position + 1, len1);
        solution.replace_activities(p.second_route_id, r1_tail.as_slice(), 0, p.second_position + 1);
        assert(solution@ =~= self@.result(old(solution)@));
    }

    pub fn updated_routes(&self) -> (r: Vec<RouteIdx>)
        ensures
            r@ == seq![self@.first_route_id, self@.second_route_id],
    {
        let mut v = Vec::new();
        v.push(self.params.first_route_id);
        v.push(self.params.second_route_id);
        assert(v@ =~= seq![self@.first_route_id, self@.second_route_id]);
        v
    }
}

/// The reversed exchange keeps every activity of the two routes, as many
/// times each.
pub proof fn lemma_exchange_reversed_keeps_activities(
    s1: Seq<ActivityId>,
    s2: Seq<ActivityId>,
    p1: int,
    p2: int,
)
    requires
        0 <= p1 < s1.len(),
        0 <= p2 < s2.len(),
    ensures
        ({
            let e = exchange_reversed(s1, s2, p1, p2);
            (e.0 + e.1).to_multiset() == (s1 + s2).to_multiset()
        }),
{
    broadcast use vstd::multiset::group_multiset_axioms;
    broadcast use vstd::seq_lib::lemma_multiset_commutative;

    let h1 = s1.subrange(0, p1 + 1);
    let t1 = s1.subrange(p1 + 1, s1.len() as int);
    let h2 = s2.subrange(0, p2 + 1);
    let t2 = s2.subrange(p2 + 1, s2.len() as int);
    assert(s1 =~= h1 + t1);
    assert(s2 =~= h2 + t2);
    h2.lemma_reverse_to_multiset();
    t1.lemma_reverse_to_multiset();
    let e = exchange_reversed(s1, s2, p1, p2);
    assert((h1 + h2.reverse() + (t1.reverse() + t2)).to_multiset() =~= (h1 + t1 + (h2
        + t2)).to_multiset());
}

} // verus!
