use vstd::prelude::*;

use crate::problem::job::ActivityId;
use crate::solver::ls::enumerate::{enumerate_pairs, is_enumeration};
use crate::solver::solution::{RouteIdx, WorkingSolution};

verus! {

/// **Inter-Route Swap**
///
/// Exchanges an activity `first` in `first_route_id` with `second` in `second_route_id`.
///
/// ```text
/// BEFORE:
///    R1: ... (A) -> [first] -> (B) ...
///    R2: ... (X) -> [second] -> (Y) ...
///
/// AFTER:
///    R1: ... (A) -> [second] -> (B) ...
///    R2: ... (X) -> [first] -> (Y) ...
/// ```
///
/// Each activity re-enters the other route as a service of its job.
#[derive(Debug)]
pub struct InterSwapOperator {
    params: InterSwapOperatorParams,
}

#[derive(Debug, Clone, Copy)]
pub struct InterSwapOperatorParams {
    pub first_route_id: RouteIdx,
    pub second_route_id: RouteIdx,
    pub first: usize,
    pub second: usize,
}

impl InterSwapOperatorParams {
    /// The parameters that the operator accepts: two different routes.
    pub open spec fn valid(&self) -> bool {
        self.first_route_id != self.second_route_id
    }

    /// The move fits the routes of `solution`.
    pub open spec fn applicable(&self, solution: Seq<Seq<ActivityId>>) -> bool {
        &&& self.valid()
        &&& self.first_route_id.0 < solution.len()
        &&& self.second_route_id.0 < solution.len()
        &&& self.first < solution[self.first_route_id.0 as int].len()
        &&& self.second < solution[self.second_route_id.0 as int].len()
    }

    /// The routes after the move: each position holds a service of the job
    /// that was at the other.
    /// Both activities that the move exchanges are services.
    pub open spec fn swaps_services(&self, solution: Seq<Seq<ActivityId>>) -> bool {
        &&& solution[self.first_route_id.0 as int][self.first as int] is Service
        &&& solution[self.second_route_id.0 as int][self.second as int] is Service
    }

    pub open spec fn result(&self, solution: Seq<Seq<ActivityId>>) -> Seq<Seq<ActivityId>> {
        let s1 = solution[self.first_route_id.0 as int];
        let s2 = solution[self.second_route_id.0 as int];
        solution.update(
            self.first_route_id.0 as int,
            s1.update(self.first as int, ActivityId::Service(s2[self.second as int].spec_job_id())),
        ).update(
            self.second_route_id.0 as int,
            s2.update(self.second as int, ActivityId::Service(s1[self.first as int].spec_job_id())),
        )
    }
}

impl View for InterSwapOperator {
    type V = InterSwapOperatorParams;

    closed spec fn view(&self) -> InterSwapOperatorParams {
        self.params
    }
}

fn any_pair(_a: usize, _b: usize) -> (r: bool)
    ensures
        r,
{
    true
}

impl InterSwapOperator {
    /// The parameters of the move.
    pub fn params(&self) -> (r: InterSwapOperatorParams)
        ensures
            r == self@,
    {
        self.params
    }

    pub fn new(params: InterSwapOperatorParams) -> (r: Self)
        requires
            params.valid(),
        ensures
            r@ == params,
    {
        InterSwapOperator { params }
    }

    /// Every exchange of a position of the first route with one of the
    /// second, in increasing order of `(first, second)`; none unless the first
    /// route has the greater index.
    pub fn generate_moves(solution: &WorkingSolution, pair: (RouteIdx, RouteIdx)) -> (r: Vec<
        Self,
    >)
        requires
            solution.valid_route(pair.0),
            solution.valid_route(pair.1),
        ensures
            ({
                let len1 = solution@[pair.0.0 as int].len() as int;
                let len2 = solution@[pair.1.0 as int].len() as int;
                &&& pair.0.0 <= pair.1.0 ==> r@.len() == 0
                &&& forall|k: int|
                    0 <= k < r@.len() ==> (#[trigger] r@[k])@.first_route_id == pair.0
                        && r@[k]@.second_route_id == pair.1
                &&& pair.0.0 > pair.1.0 ==> is_enumeration(
                    r@.map_values(|o: Self| (o@.first, o@.second)),
                    len1,
                    len2,
                    |a: int, b: int| true,
                )
            }),
            forall|k: int| 0 <= k < r@.len() ==> (#[trigger] r@[k])@.applicable(solution@),
    {
        let mut out: Vec<Self> = Vec::new();
        if pair.0.0 <= pair.1.0 {
            return out;
        }
        let len1 = solution.route(pair.0).len();
        let len2 = solution.route(pair.1).len();
        let pairs = enumerate_pairs(len1, len2, any_pair, Ghost(|a: int, b: int| true));
        let mut k: usize = 0;
        while k < pairs.len()
            invariant
                k <= pairs@.len(),
                is_enumeration(pairs@, len1 as int, len2 as int, |a: int, b: int| true),
                out@.len() == k,
                len1 == solution@[pair.0.0 as int].len(),
                len2 == solution@[pair.1.0 as int].len(),
                solution.valid_route(pair.0),
                solution.valid_route(pair.1),
                forall|j: int| 0 <= j < k ==> (#[trigger] out@[j])@.applicable(solution@),
                pair.0.0 > pair.1.0,
                forall|j: int|
                    0 <= j < k ==> (#[trigger] out@[j])@ == (InterSwapOperatorParams {
                        first_route_id: pair.0,
                        second_route_id: pair.1,
                        first: pairs@[j].0,
                        second: pairs@[j].1,
                    }),
            decreases pairs@.len() - k,
        {
            let (first, second) = pairs[k];
            out.push(
                InterSwapOperator::new(
                    InterSwapOperatorParams {
                        first_route_id: pair.0,
                        second_route_id: pair.1,
                        first,
                        second,
                    },
                ),
            );
            k = k + 1;
        }
        assert(out@.map_values(|o: Self| (o@.first, o@.second)) =~= pairs@);
        out
    }

    /// Takes both activities out and puts each, as a service of its job, in
    /// the place of the other.
    pub fn apply(&self, solution: &mut WorkingSolution)
        requires
            self@.applicable(old(solution)@),
        ensures
            final(solution)@ == self@.result(old(solution)@),
            final(solution).limits() == old(solution).limits(),
    {
        let p = self.params;
        let first_job_id = solution.remove_activity(p.first_route_id, p.first);
        let second_job_id = solution.remove_activity(p.second_route_id, p.second);
        solution.insert_activity(
            p.first_route_id,
            p.first,
            ActivityId::Service(second_job_id.job_id()),
        );
        solution.insert_activity(
            p.second_route_id,
            p.second,
            ActivityId::Service(first_job_id.job_id()),
        );
        assert(solution@[p.first_route_id.0 as int] =~= self@.result(old(solution)@)[
            p.first_route_id.0 as int]);
        assert(solution@[p.second_route_id.0 as int] =~= self@.result(old(solution)@)[
            p.second_route_id.0 as int]);
        assert(solution@ =~= self@.result(old(solution)@));
    }

    pub fn updated_routes(&self) -> (r: Vec<RouteIdx>)
        ensures
            r@ == seq![self@.first_route_id, self@.second_route_id],
    {
        let mut v = Vec::new();
        v.push(self.params.first_route_id);
        v.push(self.params.second_route_id);
        assert(v@ =~= seq![self@.first_route_id, self@.second_route_id]);
        v
    }
}

/// Between two routes of services, an inter-route swap keeps every activity
/// of the two routes, and the same swap done twice gives back both routes.
pub proof fn lemma_inter_swap_of_services(
    s1: Seq<ActivityId>,
    s2: Seq<ActivityId>,
    first: int,
    second: int,
)
    requires
        0 <= first < s1.len(),
        0 <= second < s2.len(),
        s1[first] is Service,
        s2[second] is Service,
    ensures
        ({
            let t1 = s1.update(first, ActivityId::Service(s2[second].spec_job_id()));
            let t2 = s2.update(second, ActivityId::Service(s1[first].spec_job_id()));
            &&& (t1 + t2).to_multiset() == (s1 + s2).to_multiset()
            &&& t1.update(first, ActivityId::Service(t2[second].spec_job_id())) == s1
            &&& t2.update(second, ActivityId::Service(t1[first].spec_job_id())) == s2
        }),
{
    broadcast use vstd::multiset::group_multiset_axioms;

    let a = s1[first];
    let b = s2[second];
    assert(ActivityId::Service(b.spec_job_id()) == b);
    assert(ActivityId::Service(a.spec_job_id()) == a);
    let t1 = s1.update(first, b);
    let t2 = s2.update(second, a);
    vstd::seq_lib::lemma_multiset_commutative(t1, t2);
    vstd::seq_lib::lemma_multiset_commutative(s1, s2);
    vstd::seq_lib::to_multiset_update(s1, first, b);
    vstd::seq_lib::to_multiset_update(s2, second, a);
    vstd::seq_lib::to_multiset_contains(s1, a);
    vstd::seq_lib::to_multiset_contains(s2, b);
    assert(s1.contains(a));
    assert(s2.contains(b));
    assert((t1 + t2).to_multiset() =~= (s1 + s2).to_multiset());
    assert(t1.update(first, a) =~= s1);
    assert(t2.update(second, b) =~= s2);
}

} // verus!
