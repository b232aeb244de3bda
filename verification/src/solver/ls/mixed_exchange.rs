use vstd::prelude::*;

use crate::problem::job::ActivityId;
use crate::solver::ls::enumerate::{enumerate_pairs, is_enumeration};
use crate::solver::ls::or_opt::lemma_exchange_middle_keeps_items;
use crate::solver::solution::{concat, splice, RouteIdx, WorkingSolution, WorkingSolutionRoute};

verus! {

/// `s` with the item at `position` and the `len` items starting at `start`
/// exchanged.
pub open spec fn mixed_exchange_in(s: Seq<ActivityId>, position: int, start: int, len: int) -> Seq<
    ActivityId,
> {
    if position < start {
        s.subrange(0, position) + s.subrange(start, start + len) + s.subrange(position + 1, start)
            + seq![s[position]] + s.subrange(start + len, s.len() as int)
    } else {
        s.subrange(0, start) + seq![s[position]] + s.subrange(start + len, position)
            + s.subrange(start, start + len) + s.subrange(position + 1, s.len() as int)
    }
}

/// The moves that `generate_moves` proposes for a segment of two starting at
/// `start`: the single activity lies at least three positions before the
/// segment, or at least three after its start.
pub open spec fn mixed_exchange_allowed(start: int, position: int) -> bool {
    &&& position != start
    &&& !(position < start && position + 2 >= start)
    &&& !(position > start && position <= start + 2)
}

/// **Intra-Route Mixed Exchange**
///
/// Swaps a single node with a segment within the same route.
///
/// ```text
/// BEFORE:
///    ... (A) -> (B) -> (C) -> [D -> E] -> (F) ...
///               ^              segment
///             node
///
/// AFTER:
///    ... (A) -> [D -> E] -> (C) -> (B) -> (F) ...
///               segment            ^
///                                node
/// ```
#[derive(Debug)]
pub struct MixedExchangeOperator {
    params: MixedExchangeParams,
}

#[derive(Debug, Clone, Copy)]
pub struct MixedExchangeParams {
    pub route_id: RouteIdx,
    pub position: usize,
    pub segment_start: usize,
    pub segment_length: usize,
}

impl MixedExchangeParams {
    /// The parameters that the operator accepts: a segment of at least two
    /// that does not hold the single position past its start.
    pub open spec fn valid(&self) -> bool {
        &&& self.segment_length >= 2
        &&& !(self.segment_start < self.position && self.segment_start + self.segment_length
            > self.position)
    }

    /// The move fits the routes of `solution`; the single position is not the
    /// start of the segment.
    pub open spec fn applicable(&self, solution: Seq<Seq<ActivityId>>) -> bool {
        &&& self.valid()
        &&& self.position != self.segment_start
        &&& self.route_id.0 < solution.len()
        &&& self.position < solution[self.route_id.0 as int].len()
        &&& self.segment_start + self.segment_length <= solution[self.route_id.0 as int].len()
    }

    /// The routes after the move.
    pub open spec fn result(&self, solution: Seq<Seq<ActivityId>>) -> Seq<Seq<ActivityId>> {
        solution.update(
            self.route_id.0 as int,
            mixed_exchange_in(
                solution[self.route_id.0 as int],
                self.position as int,
                self.segment_start as int,
                self.segment_length as int,
            ),
        )
    }
}

impl View for MixedExchangeOperator {
    type V = MixedExchangeParams;

    closed spec fn view(&self) -> MixedExchangeParams {
        self.params
    }
}

fn mixed_exchange_pair(start: usize, position: usize) -> (r: bool)
    ensures
        r == mixed_exchange_allowed(start as int, position as int),
{
    if position == start {
        false
    } else if position < start && start - position <= 2 {
        false
    } else if position > start && position - start <= 2 {
        false
    } else {
        true
    }
}

impl MixedExchangeOperator {
    /// The parameters of the move.
    pub fn params(&self) -> (r: MixedExchangeParams)
        ensures
            r == self@,
    {
        self.params
    }

    pub fn new(params: MixedExchangeParams) -> (r: Self)
        requires
            params.valid(),
        ensures
            r@ == params,
    {
        MixedExchangeOperator { params }
    }

    /// The activities that replace the stretch of the route that the move
    /// changes, from the first of the two exchanged parts to the last.
    pub fn moved_jobs(&self, route: &WorkingSolutionRoute) -> (r: Vec<ActivityId>)
        requires
            self@.valid(),
            self@.position != self@.segment_start,
            self@.position < route@.len(),
            self@.segment_start + self@.segment_length <= route@.len(),
        ensures
            ({
                let p = self@;
                let s = route@;
                let seg = s.subrange(p.segment_start as int, p.segment_start + p.segment_length);
                if p.position < p.segment_start {
                    r@ == seg + s.subrange(p.position + 1, p.segment_start as int) + seq![
                        s[p.position as int],
                    ]
                } else {
                    r@ == seq![s[p.position as int]] + s.subrange(
                        p.segment_start + p.segment_length,
                        p.position as int,
                    ) + seg
                }
            }),
    {
        let p = self.params;
        let _len = route.len();
        let seg = route.activity_ids_iter(p.segment_start, p.segment_start + p.segment_length);
        let single = route.activity_ids_iter(p.position, p.position + 1);
        assert(single@ =~= seq![route@[p.position as int]]);
        if p.position < p.segment_start {
            let between = route.activity_ids_iter(p.position + 1, p.segment_start);
            let first = concat(seg.as_slice(), between.as_slice());
            concat(first.as_slice(), single.as_slice())
        } else {
            let between = route.activity_ids_iter(p.segment_start + p.segment_length, p.position);
            let first = concat(single.as_slice(), between.as_slice());
            concat(first.as_slice(), seg.as_slice())
        }
    }

    /// Every exchange of a segment of two with a single activity in a route of
    /// at least four: each `segment_start < len - 1` and `position < len`
    /// allowed by `mixed_exchange_allowed`, in increasing order of
    /// `(segment_start, position)`.
    pub fn generate_moves(solution: &WorkingSolution, pair: (RouteIdx, RouteIdx)) -> (r: Vec<
        Self,
    >)
        requires
            solution.valid_route(pair.0),
            solution.valid_route(pair.1),
        ensures
            ({
                let len = solution@[pair.0.0 as int].len() as int;
                &&& (pair.0 != pair.1 || len < 4) ==> r@.len() == 0
                &&& forall|k: int|
                    0 <= k < r@.len() ==> (#[trigger] r@[k])@.route_id == pair.0
                        && r@[k]@.segment_length == 2
                &&& (pair.0 == pair.1 && len >= 4) ==> is_enumeration(
                    r@.map_values(|o: Self| (o@.segment_start, o@.position)),
                    len - 1,
                    len,
                    |a: int, b: int| mixed_exchange_allowed(a, b),
                )
            }),
            forall|k: int| 0 <= k < r@.len() ==> (#[trigger] r@[k])@.applicable(solution@),
    {
        let mut out: Vec<Self> = Vec::new();
        if pair.0 != pair.1 {
            return out;
        }
        let route = solution.route(pair.0);
        let len = route.len();
        if len < 4 {
            return out;
        }
        let pairs = enumerate_pairs(
            len - 1,
            len,
            mixed_exchange_pair,
            Ghost(|a: int, b: int| mixed_exchange_allowed(a, b)),
        );
        let mut k: usize = 0;
        while k < pairs.len()
            invariant
                k <= pairs@.len(),
                is_enumeration(
                    pairs@,
                    len - 1,
                    len as int,
                    |a: int, b: int| mixed_exchange_allowed(a, b),
                ),
                out@.len() == k,
                solution.valid_route(pair.0),
                len == solution@[pair.0.0 as int].len(),
                pair.0 == pair.1,
                forall|j: int| 0 <= j < k ==> (#[trigger] out@[j])@.applicable(solution@),
                forall|j: int|
                    0 <= j < k ==> (#[trigger] out@[j])@ == (MixedExchangeParams {
                        route_id: pair.0,
                        position: pairs@[j].1,
                        segment_start: pairs@[j].0,
                        segment_length: 2,
                    }),
            decreases pairs@.len() - k,
        {
            let (segment_start, position) = pairs[k];
            assert(mixed_exchange_allowed(pairs@[k as int].0 as int, pairs@[k as int].1 as int));
            out.push(
                MixedExchangeOperator::new(
                    MixedExchangeParams {
                        route_id: pair.0,
                        position,
                        segment_start,
                        segment_length: 2,
                    },
                ),
            );
            k = k + 1;
        }
        assert(out@.map_values(|o: Self| (o@.segment_start, o@.position)) =~= pairs@);
        out
    }

    /// Exchanges the single activity with the segment.
    pub fn apply(&self, solution: &mut WorkingSolution)
        requires
            self@.applicable(old(solution)@),
        ensures
            final(solution)@ == self@.result(old(solution)@),
            final(solution).limits() == old(solution).limits(),
    {
        let p = self.params;
        let route = solution.route(p.route_id);
        let ghost s = route@;
        let moved = self.moved_jobs(route);
        let start = if p.segment_start < p.position { p.segment_start } else { p.position };
        let last = p.segment_start + p.segment_length - 1;
        let end = if last > p.position { last } else { p.position };
        solution.replace_activities(p.route_id, moved.as_slice(), start, end + 1);
        assert(splice(s, moved@, start as int, end + 1) =~= mixed_exchange_in(
            s,
            p.position as int,
            p.segment_start as int,
            p.segment_length as int,
        ));
    }

    pub fn updated_routes(&self) -> (r: Vec<RouteIdx>)
        ensures
            r@ == seq![self@.route_id],
    {
        let mut v = Vec::new();
        v.push(self.params.route_id);
        assert(v@ =~= seq![self@.route_id]);
        v
    }
}

/// A mixed exchange keeps every activity of the route, as many times each.
pub proof fn lemma_mixed_exchange_keeps_activities(
    s: Seq<ActivityId>,
    position: int,
    start: int,
    len: int,
)
    requires
        len >= 2,
        0 <= position < s.len(),
        0 <= start,
        start + len <= s.len(),
        position != start,
        !(start < position && start + len > position),
    ensures
        mixed_exchange_in(s, position, start, len).to_multiset() == s.to_multiset(),
{
    broadcast use vstd::multiset::group_multiset_axioms;

    if position < start {
        let a = s.subrange(0, position);
        let x = s.subrange(position, position + 1);
        let b = s.subrange(position + 1, start);
        let c = s.subrange(start, start + len);
        let d = s.subrange(start + len, s.len() as int);
        assert(x =~= seq![s[position]]);
        assert(s =~= a + (x + b) + c + d);
        lemma_exchange_middle_keeps_items(a, x + b, c, d);
        assert(mixed_exchange_in(s, position, start, len) =~= a + c + (b + x) + d);
        vstd::seq_lib::lemma_seq_union_to_multiset_commutative(x, b);
        vstd::seq_lib::lemma_multiset_commutative(a + c + (b + x), d);
        vstd::seq_lib::lemma_multiset_commutative(a + c, b + x);
        vstd::seq_lib::lemma_multiset_commutative(a + c + (x + b), d);
        vstd::seq_lib::lemma_multiset_commutative(a + c, x + b);
    } else {
        let a = s.subrange(0, start);
        let c = s.subrange(start, start + len);
        let b = s.subrange(start + len, position);
        let x = s.subrange(position, position + 1);
        let d = s.subrange(position + 1, s.len() as int);
        assert(x =~= seq![s[position]]);
        assert(s =~= a + c + (b + x) + d);
        lemma_exchange_middle_keeps_items(a, c, b + x, d);
        assert(mixed_exchange_in(s, position, start, len) =~= a + (x + b) + c + d);
        vstd::seq_lib::lemma_seq_union_to_multiset_commutative(x, b);
        vstd::seq_lib::lemma_multiset_commutative(a + (x + b) + c, d);
        vstd::seq_lib::lemma_multiset_commutative(a + (x + b), c);
        vstd::seq_lib::lemma_multiset_commutative(a, x + b);
        vstd::seq_lib::lemma_multiset_commutative(a + (b + x) + c, d);
        vstd::seq_lib::lemma_multiset_commutative(a + (b + x), c);
        vstd::seq_lib::lemma_multiset_commutative(a, b + x);
    }
}

} // verus!
