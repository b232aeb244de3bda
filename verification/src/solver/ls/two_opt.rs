use vstd::prelude::*;

use crate::problem::job::ActivityId;
use crate::solver::ls::enumerate::{enumerate_pairs, is_enumeration};
use crate::solver::solution::{splice, RouteIdx, WorkingSolution};

verus! {

/// `s` with the items from `from` to `to` (inclusive) in reverse order.
pub open spec fn reverse_segment<A>(s: Seq<A>, from: int, to: int) -> Seq<A> {
    s.subrange(0, from) + s.subrange(from, to + 1).reverse() + s.subrange(to + 1, s.len() as int)
}

/// `to` lies at least two positions after `from`.
fn two_opt_pair(from: usize, to: usize) -> (r: bool)
    ensures
        r == (from + 2 <= to),
{
    to >= 2 && from <= to - 2
}

/// **Intra-Route 2-Opt**
///
/// Reverses the sequence of activities between `from` and `to` (inclusive).
/// This eliminates crossing edges within a single route.
///
/// ```text
/// BEFORE:
///    ... (prev) --x--> [from] -> ... -> [to] --x--> (next) ...
///
/// AFTER (Sequence Reversed):
///    ... (prev) -----> [to] -> ... -> [from] -----> (next) ...
/// ```
#[derive(Debug)]
pub struct TwoOptOperator {
    params: TwoOptParams,
}

#[derive(Debug, Clone, Copy)]
pub struct TwoOptParams {
    pub route_id: RouteIdx,
    pub from: usize,
    pub to: usize,
}

impl TwoOptParams {
    /// The parameters that the operator accepts.
    pub open spec fn valid(&self) -> bool {
        self.from < self.to
    }

    /// The move fits the routes of `solution`.
    pub open spec fn applicable(&self, solution: Seq<Seq<ActivityId>>) -> bool {
        &&& self.valid()
        &&& self.route_id.0 < solution.len()
        &&& self.to < solution[self.route_id.0 as int].len()
    }

    /// The routes after the move.
    pub open spec fn result(&self, solution: Seq<Seq<ActivityId>>) -> Seq<Seq<ActivityId>> {
        solution.update(
            self.route_id.0 as int,
            reverse_segment(solution[self.route_id.0 as int], self.from as int, self.to as int),
        )
    }
}

impl View for TwoOptOperator {
    type V = TwoOptParams;

    closed spec fn view(&self) -> TwoOptParams {
        self.params
    }
}

impl TwoOptOperator {
    /// The parameters of the move.
    pub fn params(&self) -> (r: TwoOptParams)
        ensures
            r == self@,
    {
        self.params
    }

    pub fn new(params: TwoOptParams) -> (r: Self)
        requires
            params.valid(),
        ensures
            r@ == params,
    {
        TwoOptOperator { params }
    }

    /// Every 2-opt move of a route with at least four activities: each pair
    /// `from + 2 <= to < len`, in increasing order of `(from, to)`.
    pub fn generate_moves(solution: &WorkingSolution, pair: (RouteIdx, RouteIdx)) -> (r: Vec<
        Self,
    >)
        requires
            solution.valid_route(pair.0),
            solution.valid_route(pair.1),
        ensures
            ({
                let len = solution@[pair.0.0 as int].len() as int;
                &&& (pair.0 != pair.1 || len < 4) ==> r@.len() == 0
                &&& forall|k: int| 0 <= k < r@.len() ==> (#[trigger] r@[k])@.route_id == pair.0
                &&& (pair.0 == pair.1 && len >= 4) ==> is_enumeration(
                    r@.map_values(|o: Self| (o@.from, o@.to)),
                    len,
                    len,
                    |a: int, b: int| a + 2 <= b,
                )
            }),
            forall|k: int| 0 <= k < r@.len() ==> (#[trigger] r@[k])@.applicable(solution@),
    {
        let mut out: Vec<Self> = Vec::new();
        if pair.0 != pair.1 {
            return out;
        }
        let route = solution.route(pair.0);
        let len = route.len();
        if len < 4 {
            return out;
        }
        let pairs = enumerate_pairs(
            len,
            len,
            two_opt_pair,
            Ghost(|a: int, b: int| a + 2 <= b),
        );
        let mut k: usize = 0;
        while k < pairs.len()
            invariant
                k <= pairs@.len(),
                is_enumeration(pairs@, len as int, len as int, |a: int, b: int| a + 2 <= b),
                out@.len() == k,
                solution.valid_route(pair.0),
                len == solution@[pair.0.0 as int].len(),
                pair.0 == pair.1,
                forall|j: int| 0 <= j < k ==> (#[trigger] out@[j])@.applicable(solution@),
                forall|j: int|
                    0 <= j < k ==> (#[trigger] out@[j])@ == (TwoOptParams {
                        route_id: pair.0,
                        from: pairs@[j].0,
                        to: pairs@[j].1,
                    }),
            decreases pairs@.len() - k,
        {
            let (from, to) = pairs[k];
            assert(pairs@[k as int].0 + 2 <= pairs@[k as int].1);
            out.push(TwoOptOperator::new(TwoOptParams { route_id: pair.0, from, to }));
            k = k + 1;
        }
        assert(out@.map_values(|o: Self| (o@.from, o@.to)) =~= pairs@);
        out
    }

    /// Reverses the activities from `from` to `to` of the route.
    pub fn apply(&self, solution: &mut WorkingSolution)
        requires
            self@.applicable(old(solution)@),
        ensures
            final(solution)@ == self@.result(old(solution)@),
            final(solution).limits() == old(solution).limits(),
    {
        let p = self.params;
        let route = solution.route(p.route_id);
        let _len = route.len();
        let segment = route.activity_ids_iter(p.from, p.to + 1);
        let mut reversed: Vec<ActivityId> = Vec::new();
        let mut k: usize = segment.len();
        while k > 0
            invariant
                k <= segment@.len(),
                reversed@ == segment@.subrange(k as int, segment@.len() as int).reverse(),
            decreases k,
        {
            k = k - 1;
            reversed.push(segment[k]);
            assert(reversed@ =~= segment@.subrange(k as int, segment@.len() as int).reverse());
        }
        assert(segment@.subrange(0, segment@.len() as int) =~= segment@);
        solution.replace_activities(p.route_id, reversed.as_slice(), p.from, p.to + 1);
        assert(splice(old(solution)@[p.route_id.0 as int], reversed@, p.from as int, p.to + 1)
            =~= reverse_segment(old(solution)@[p.route_id.0 as int], p.from as int, p.to as int));
    }

    pub fn updated_routes(&self) -> (r: Vec<RouteIdx>)
        ensures
            r@ == seq![self@.route_id],
    {
        let mut v = Vec::new();
        v.push(self.params.route_id);
        assert(v@ =~= seq![self@.route_id]);
        v
    }
}

/// Reversing a segment keeps every activity of the route: the route after a
/// 2-opt move holds the same activities, as many times each.
pub proof fn lemma_two_opt_keeps_activities(s: Seq<ActivityId>, from: int, to: int)
    requires
        0 <= from < to < s.len(),
    ensures
        reverse_segment(s, from, to).to_multiset() == s.to_multiset(),
{
    let a = s.subrange(0, from);
    let b = s.subrange(from, to + 1);
    let c = s.subrange(to + 1, s.len() as int);
    assert(s =~= a + b + c);
    b.lemma_reverse_to_multiset();
    vstd::seq_lib::lemma_multiset_commutative(a + b.reverse(), c);
    vstd::seq_lib::lemma_multiset_commutative(a, b.reverse());
    vstd::seq_lib::lemma_multiset_commutative(a + b, c);
    vstd::seq_lib::lemma_multiset_commutative(a, b);
}

/// Applying the same 2-opt move twice gives back the route as it was.
pub proof fn lemma_two_opt_involution(s: Seq<ActivityId>, from: int, to: int)
    requires
        0 <= from < to < s.len(),
    ensures
        reverse_segment(reverse_segment(s, from, to), from, to) == s,
{
    let t = reverse_segment(s, from, to);
    assert(t.len() == s.len());
    assert(t.subrange(0, from) =~= s.subrange(0, from));
    assert(t.subrange(from, to + 1) =~= s.subrange(from, to + 1).reverse());
    assert(t.subrange(from, to + 1).reverse() =~= s.subrange(from, to + 1));
    assert(t.subrange(to + 1, t.len() as int) =~= s.subrange(to + 1, s.len() as int));
    assert(reverse_segment(t, from, to) =~= s);
}

} // verus!
