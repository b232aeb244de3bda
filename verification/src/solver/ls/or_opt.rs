use vstd::prelude::*;

use crate::problem::job::ActivityId;
use crate::solver::ls::enumerate::{enumerate_pairs, is_enumeration};
use crate::solver::solution::{concat, splice, RouteIdx, WorkingSolution, WorkingSolutionRoute};

verus! {

/// `s` with the `len` items starting at `from` moved so that they come just
/// before the item that was at `to`.
pub open spec fn or_opt_in(s: Seq<ActivityId>, from: int, to: int, len: int) -> Seq<ActivityId> {
    if from < to {
        s.subrange(0, from) + s.subrange(from + len, to) + s.subrange(from, from + len)
            + s.subrange(to, s.len() as int)
    } else {
        s.subrange(0, to) + s.subrange(from, from + len) + s.subrange(to, from) + s.subrange(
            from + len,
            s.len() as int,
        )
    }
}

/// The moves that `generate_moves` proposes for a segment of two starting at
/// `from`: `to` at least three positions after `from`, or at least two before.
pub open spec fn or_opt_allowed(from: int, to: int) -> bool {
    &&& from != to
    &&& !(to > from && to <= from + 3)
    &&& !(to < from && from < to + 2)
}

/// **Intra-Route Or-Opt**
///
/// Moves a consecutive chain of activities of length `segment_length`
/// starting at `from` to a new position `to`.
///
/// ```text
/// BEFORE:
///    ... (A) -> [from -> ... -> end] -> (B) ... (X) -> (Y) ...
///
/// AFTER:
///    ... (A) -> (B) ... (X) -> [from -> ... -> end] -> (Y) ...
/// ```
#[derive(Debug)]
pub struct OrOptOperator {
    params: OrOptOperatorParams,
}

#[derive(Debug, Clone, Copy)]
pub struct OrOptOperatorParams {
    pub route_id: RouteIdx,
    pub from: usize,
    pub to: usize,
    pub segment_length: usize,
}

impl OrOptOperatorParams {
    /// The parameters that the operator accepts: a chain of at least two,
    /// moved somewhere outside itself.
    pub open spec fn valid(&self) -> bool {
        &&& self.segment_length >= 2
        &&& self.from != self.to
        &&& !(self.from + self.segment_length >= self.to && self.to > self.from)
    }

    /// The move fits the routes of `solution`.
    pub open spec fn applicable(&self, solution: Seq<Seq<ActivityId>>) -> bool {
        &&& self.valid()
        &&& self.route_id.0 < solution.len()
        &&& self.to <= solution[self.route_id.0 as int].len()
        &&& self.from + self.segment_length <= solution[self.route_id.0 as int].len()
    }

    /// The routes after the move.
    pub open spec fn result(&self, solution: Seq<Seq<ActivityId>>) -> Seq<Seq<ActivityId>> {
        solution.update(
            self.route_id.0 as int,
            or_opt_in(
                solution[self.route_id.0 as int],
                self.from as int,
                self.to as int,
                self.segment_length as int,
            ),
        )
    }
}

impl View for OrOptOperator {
    type V = OrOptOperatorParams;

    closed spec fn view(&self) -> OrOptOperatorParams {
        self.params
    }
}

fn or_opt_pair(from: usize, to: usize) -> (r: bool)
    ensures
        r == or_opt_allowed(from as int, to as int),
{
    if from == to {
        false
    } else if to > from && to - from <= 3 {
        false
    } else if to < from && from - to < 2 {
        false
    } else {
        true
    }
}

impl OrOptOperator {
    /// The parameters of the move.
    pub fn params(&self) -> (r: OrOptOperatorParams)
        ensures
            r == self@,
    {
        self.params
    }

    pub fn new(params: OrOptOperatorParams) -> (r: Self)
        requires
            params.valid(),
        ensures
            r@ == params,
    {
        OrOptOperator { params }
    }

    /// The activities that replace the stretch of the route that the move
    /// changes: what lies between chain and target, then the chain, when
    /// moving forward; the chain, then what lies between, when moving back.
    pub fn moved_jobs(&self, route: &WorkingSolutionRoute) -> (r: Vec<ActivityId>)
        requires
            self@.valid(),
            self@.to <= route@.len(),
            self@.from + self@.segment_length <= route@.len(),
        ensures
            ({
                let p = self@;
                let s = route@;
                let chain = s.subrange(p.from as int, p.from + p.segment_length);
                if p.from < p.to {
                    r@ == s.subrange(p.from + p.segment_length, p.to as int) + chain
                } else {
                    r@ == chain + s.subrange(p.to as int, p.from as int)
                }
            }),
    {
        let p = self.params;
        let _len = route.len();
        let chain = route.activity_ids_iter(p.from, p.from + p.segment_length);
        if p.from < p.to {
            let between = route.activity_ids_iter(p.from + p.segment_length, p.to);
            concat(between.as_slice(), chain.as_slice())
        } else {
            let between = route.activity_ids_iter(p.to, p.from);
            concat(chain.as_slice(), between.as_slice())
        }
    }

    /// Every or-opt move of a chain of two in a route of at least four
    /// activities: each `from < len - 1` and `to < len` allowed by
    /// `or_opt_allowed`, in increasing order of `(from, to)`.
    pub fn generate_moves(solution: &WorkingSolution, pair: (RouteIdx, RouteIdx)) -> (r: Vec<
        Self,
    >)
        requires
            solution.valid_route(pair.0),
            solution.valid_route(pair.1),
        ensures
            ({
                let len = solution@[pair.0.0 as int].len() as int;
                &&& (pair.0 != pair.1 || len < 4) ==> r@.len() == 0
                &&& forall|k: int|
                    0 <= k < r@.len() ==> (#[trigger] r@[k])@.route_id == pair.0 && r@[k]@.segment_length == 2
                &&& (pair.0 == pair.1 && len >= 4) ==> is_enumeration(
                    r@.map_values(|o: Self| (o@.from, o@.to)),
                    len - 1,
                    len,
                    |a: int, b: int| or_opt_allowed(a, b),
                )
            }),
            forall|k: int| 0 <= k < r@.len() ==> (#[trigger] r@[k])@.applicable(solution@),
    {
        let mut out: Vec<Self> = Vec::new();
        if pair.0 != pair.1 {
            return out;
        }
        let route = solution.route(pair.0);
        let len = route.len();
        if len < 4 {
            return out;
        }
        let pairs = enumerate_pairs(
            len - 1,
            len,
            or_opt_pair,
            Ghost(|a: int, b: int| or_opt_allowed(a, b)),
        );
        let mut k: usize = 0;
        while k < pairs.len()
            invariant
                k <= pairs@.len(),
                is_enumeration(
                    pairs@,
                    len - 1,
                    len as int,
                    |a: int, b: int| or_opt_allowed(a, b),
                ),
                out@.len() == k,
                solution.valid_route(pair.0),
                len == solution@[pair.0.0 as int].len(),
                pair.0 == pair.1,
                forall|j: int| 0 <= j < k ==> (#[trigger] out@[j])@.applicable(solution@),
                forall|j: int|
                    0 <= j < k ==> (#[trigger] out@[j])@ == (OrOptOperatorParams {
                        route_id: pair.0,
                        from: pairs@[j].0,
                        to: pairs@[j].1,
                        segment_length: 2,
                    }),
            decreases pairs@.len() - k,
        {
            let (from, to) = pairs[k];
            assert(or_opt_allowed(pairs@[k as int].0 as int, pairs@[k as int].1 as int));
            out.push(
                OrOptOperator::new(
                    OrOptOperatorParams { route_id: pair.0, from, to, segment_length: 2 },
                ),
            );
            k = k + 1;
        }
        assert(out@.map_values(|o: Self| (o@.from, o@.to)) =~= pairs@);
        out
    }

    /// Moves the chain to its new position.
    pub fn apply(&self, solution: &mut WorkingSolution)
        requires
            self@.applicable(old(solution)@),
        ensures
            final(solution)@ == self@.result(old(solution)@),
            final(solution).limits() == old(solution).limits(),
    {
        let p = self.params;
        let route = solution.route(p.route_id);
        let ghost s = route@;
        let moved = self.moved_jobs(route);
        if p.from < p.to {
            solution.replace_activities(p.route_id, moved.as_slice(), p.from, p.to);
            assert(splice(s, moved@, p.from as int, p.to as int) =~= or_opt_in(
                s,
                p.from as int,
                p.to as int,
                p.segment_length as int,
            ));
        } else {
            solution.replace_activities(
                p.route_id,
                moved.as_slice(),
                p.to,
                p.from + p.segment_length,
            );
            assert(splice(s, moved@, p.to as int, p.from + p.segment_length) =~= or_opt_in(
                s,
                p.from as int,
                p.to as int,
                p.segment_length as int,
            ));
        }
    }

    pub fn updated_routes(&self) -> (r: Vec<RouteIdx>)
        ensures
            r@ == seq![self@.route_id],
    {
        let mut v = Vec::new();
        v.push(self.params.route_id);
        assert(v@ =~= seq![self@.route_id]);
        v
    }
}

/// Exchanging the two middle parts of `a + b + c + d` keeps every item, as
/// many times each.
pub proof fn lemma_exchange_middle_keeps_items(
    a: Seq<ActivityId>,
    b: Seq<ActivityId>,
    c: Seq<ActivityId>,
    d: Seq<ActivityId>,
)
    ensures
        (a + c + b + d).to_multiset() == (a + b + c + d).to_multiset(),
{
    broadcast use vstd::multiset::group_multiset_axioms;

    vstd::seq_lib::lemma_multiset_commutative(a + c + b, d);
    vstd::seq_lib::lemma_multiset_commutative(a + c, b);
    vstd::seq_lib::lemma_multiset_commutative(a, c);
    vstd::seq_lib::lemma_multiset_commutative(a + b + c, d);
    vstd::seq_lib::lemma_multiset_commutative(a + b, c);
    vstd::seq_lib::lemma_multiset_commutative(a, b);
    assert((a + c + b + d).to_multiset() =~= (a + b + c + d).to_multiset());
}

/// An or-opt move keeps every activity of the route, as many times each.
pub proof fn lemma_or_opt_keeps_activities(s: Seq<ActivityId>, from: int, to: int, len: int)
    requires
        len >= 2,
        0 <= from,
        from != to,
        0 <= to <= s.len(),
        from + len <= s.len(),
        !(from + len >= to && to > from),
    ensures
        or_opt_in(s, from, to, len).to_multiset() == s.to_multiset(),
{
    if from < to {
        let a = s.subrange(0, from);
        let b = s.subrange(from, from + len);
        let c = s.subrange(from + len, to);
        let d = s.subrange(to, s.len() as int);
        assert(s =~= a + b + c + d);
        lemma_exchange_middle_keeps_items(a, b, c, d);
    } else {
        let a = s.subrange(0, to);
        let b = s.subrange(to, from);
        let c = s.subrange(from, from + len);
        let d = s.subrange(from + len, s.len() as int);
        assert(s =~= a + b + c + d);
        lemma_exchange_middle_keeps_items(a, b, c, d);
    }
}

} // verus!
