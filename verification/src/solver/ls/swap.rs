use vstd::prelude::*;

use crate::problem::job::ActivityId;
use crate::solver::ls::enumerate::{enumerate_pairs, is_enumeration};
use crate::solver::solution::{concat, splice, RouteIdx, WorkingSolution, WorkingSolutionRoute};

verus! {

/// `s` with the items at `first` and `second` exchanged.
pub open spec fn swap_in(s: Seq<ActivityId>, first: int, second: int) -> Seq<ActivityId> {
    s.update(first, s[second]).update(second, s[first])
}

/// **Intra-Route Swap**
///
/// Exchanges the positions of two activities (`first` and `second`) within the same route.
///
/// ```text
/// BEFORE:
///    ... (A) -> [first] -> (B) ... (X) -> [second] -> (Y) ...
///
/// AFTER:
///    ... (A) -> [second] -> (B) ... (X) -> [first] -> (Y) ...
/// ```
#[derive(Debug)]
pub struct SwapOperator {
    params: SwapOperatorParams,
}

#[derive(Debug, Clone, Copy)]
pub struct SwapOperatorParams {
    pub route_id: RouteIdx,
    pub first: usize,
    pub second: usize,
}

impl SwapOperatorParams {
    /// The parameters that the operator accepts.
    pub open spec fn valid(&self) -> bool {
        self.first != self.second
    }

    /// The move fits the routes of `solution`.
    pub open spec fn applicable(&self, solution: Seq<Seq<ActivityId>>) -> bool {
        &&& self.valid()
        &&& self.route_id.0 < solution.len()
        &&& self.first < solution[self.route_id.0 as int].len()
        &&& self.second < solution[self.route_id.0 as int].len()
    }

    /// The routes after the move.
    pub open spec fn result(&self, solution: Seq<Seq<ActivityId>>) -> Seq<Seq<ActivityId>> {
        solution.update(
            self.route_id.0 as int,
            swap_in(solution[self.route_id.0 as int], self.first as int, self.second as int),
        )
    }

    pub open spec fn low(&self) -> int {
        if self.first < self.second { self.first as int } else { self.second as int }
    }

    pub open spec fn high(&self) -> int {
        if self.first < self.second { self.second as int } else { self.first as int }
    }
}

impl View for SwapOperator {
    type V = SwapOperatorParams;

    closed spec fn view(&self) -> SwapOperatorParams {
        self.params
    }
}

fn swap_pair(first: usize, second: usize) -> (r: bool)
    ensures
        r == (first < second),
{
    first < second
}

impl SwapOperator {
    /// The parameters of the move.
    pub fn params(&self) -> (r: SwapOperatorParams)
        ensures
            r == self@,
    {
        self.params
    }

    pub fn new(params: SwapOperatorParams) -> (r: Self)
        requires
            params.valid(),
        ensures
            r@ == params,
    {
        SwapOperator { params }
    }

    /// The activities that replace those from the lower to the higher
    /// position: the higher one, those in between, then the lower one.
    pub fn moved_jobs(&self, route: &WorkingSolutionRoute) -> (r: Vec<ActivityId>)
        requires
            self@.valid(),
            self@.first < route@.len(),
            self@.second < route@.len(),
        ensures
            r@ == seq![route@[self@.high()]] + route@.subrange(self@.low() + 1, self@.high())
                + seq![route@[self@.low()]],
    {
        let p = self.params;
        let (lo, hi) = if p.first < p.second {
            (p.first, p.second)
        } else {
            (p.second, p.first)
        };
        let mut head: Vec<ActivityId> = Vec::new();
        head.push(route.activity_id(hi));
        let middle = route.activity_ids_iter(lo + 1, hi);
        let mut out = concat(head.as_slice(), middle.as_slice());
        out.push(route.activity_id(lo));
        assert(head@ =~= seq![route@[self@.high()]]);
        out
    }

    /// Every swap of a route, each pair `first < second < len` in increasing
    /// order.
    pub fn generate_moves(solution: &WorkingSolution, pair: (RouteIdx, RouteIdx)) -> (r: Vec<
        Self,
    >)
        requires
            solution.valid_route(pair.0),
            solution.valid_route(pair.1),
        ensures
            ({
                let len = solution@[pair.0.0 as int].len() as int;
                &&& pair.0 != pair.1 ==> r@.len() == 0
                &&& forall|k: int| 0 <= k < r@.len() ==> (#[trigger] r@[k])@.route_id == pair.0
                &&& pair.0 == pair.1 ==> is_enumeration(
                    r@.map_values(|o: Self| (o@.first, o@.second)),
                    len,
                    len,
                    |a: int, b: int| a < b,
                )
            }),
            forall|k: int| 0 <= k < r@.len() ==> (#[trigger] r@[k])@.applicable(solution@),
    {
        let mut out: Vec<Self> = Vec::new();
        if pair.0 != pair.1 {
            return out;
        }
        let route = solution.route(pair.0);
        let len = route.len();
        let pairs = enumerate_pairs(len, len, swap_pair, Ghost(|a: int, b: int| a < b));
        let mut k: usize = 0;
        while k < pairs.len()
            invariant
                k <= pairs@.len(),
                is_enumeration(pairs@, len as int, len as int, |a: int, b: int| a < b),
                out@.len() == k,
                solution.valid_route(pair.0),
                len == solution@[pair.0.0 as int].len(),
                pair.0 == pair.1,
                forall|j: int| 0 <= j < k ==> (#[trigger] out@[j])@.applicable(solution@),
                forall|j: int|
                    0 <= j < k ==> (#[trigger] out@[j])@ == (SwapOperatorParams {
                        route_id: pair.0,
                        first: pairs@[j].0,
                        second: pairs@[j].1,
                    }),
            decreases pairs@.len() - k,
        {
            let (first, second) = pairs[k];
            assert(pairs@[k as int].0 < pairs@[k as int].1);
            out.push(SwapOperator::new(SwapOperatorParams { route_id: pair.0, first, second }));
            k = k + 1;
        }
        assert(out@.map_values(|o: Self| (o@.first, o@.second)) =~= pairs@);
        out
    }

    /// Exchanges the activities at `first` and `second`.
    pub fn apply(&self, solution: &mut WorkingSolution)
        requires
            self@.applicable(old(solution)@),
        ensures
            final(solution)@ == self@.result(old(solution)@),
            final(solution).limits() == old(solution).limits(),
    {
        let p = self.params;
        let route = solution.route(p.route_id);
        let ghost s = route@;
        let _len = route.len();
        let moved = self.moved_jobs(route);
        let lo = if p.first < p.second { p.first } else { p.second };
        let hi = if p.first < p.second { p.second } else { p.first };
        solution.replace_activities(p.route_id, moved.as_slice(), lo, hi + 1);
        assert(splice(s, moved@, lo as int, hi + 1) =~= swap_in(s, p.first as int, p.second as int));
    }

    pub fn updated_routes(&self) -> (r: Vec<RouteIdx>)
        ensures
            r@ == seq![self@.route_id],
    {
        let mut v = Vec::new();
        v.push(self.params.route_id);
        assert(v@ =~= seq![self@.route_id]);
        v
    }
}

/// A swap keeps every activity of the route, as many times each.
pub proof fn lemma_swap_keeps_activities(s: Seq<ActivityId>, first: int, second: int)
    requires
        0 <= first < s.len(),
        0 <= second < s.len(),
    ensures
        swap_in(s, first, second).to_multiset() == s.to_multiset(),
{
    broadcast use vstd::multiset::group_multiset_axioms;

    let t = s.update(first, s[second]);
    let m = s.to_multiset();
    vstd::seq_lib::to_multiset_update(s, first, s[second]);
    vstd::seq_lib::to_multiset_update(t, second, s[first]);
    vstd::seq_lib::to_multiset_contains(s, s[first]);
    assert(s.contains(s[first]));
    assert(m.count(s[first]) > 0);
    let m1 = m.insert(s[second]).remove(s[first]);
    assert(t[second] == s[second] || first == second);
    if first == second {
        assert(t =~= s);
        assert(swap_in(s, first, second) =~= s);
    } else {
        assert(swap_in(s, first, second).to_multiset() == m1.insert(s[first]).remove(s[second]));
        assert(m1.insert(s[first]).remove(s[second]) =~= m);
    }
}

/// Swapping the same two positions twice gives back the route as it was.
pub proof fn lemma_swap_involution(s: Seq<ActivityId>, first: int, second: int)
    requires
        0 <= first < s.len(),
        0 <= second < s.len(),
    ensures
        swap_in(swap_in(s, first, second), first, second) == s,
{
    assert(swap_in(swap_in(s, first, second), first, second) =~= s);
}

} // verus!
