use vstd::prelude::*;

use crate::problem::job::ActivityId;
use crate::solver::ls::cross_exchange::exchange_segments;
use crate::solver::ls::enumerate::{enumerate_pairs, is_enumeration};
use crate::solver::solution::{RouteIdx, WorkingSolution};

verus! {

/// **Inter-Route Mixed Exchange**
///
/// Exchanges the single activity at `position` of the first route with the
/// segment of `segment_length` starting at `segment_start` of the second.
///
/// ```text
/// BEFORE:
///    R1: ... (A) -> [B] -> (C) ...
///    R2: ... (X) -> [Y -> Z] -> (W) ...
///
/// AFTER:
///    R1: ... (A) -> [Y -> Z] -> (C) ...
///    R2: ... (X) -> [B] -> (W) ...
/// ```
#[derive(Debug)]
pub struct InterMixedExchange {
    params: InterMixedExchangeParams,
}

#[derive(Debug, Clone, Copy)]
pub struct InterMixedExchangeParams {
    pub from_route_id: RouteIdx,
    pub to_route_id: RouteIdx,
    pub position: usize,
    pub segment_start: usize,
    pub segment_length: usize,
}

impl InterMixedExchangeParams {
    /// The parameters that the operator accepts: a segment of at least two.
    pub open spec fn valid(&self) -> bool {
        self.segment_length >= 2
    }

    /// The move fits the routes of `solution`.
    pub open spec fn applicable(&self, solution: Seq<Seq<ActivityId>>) -> bool {
        &&& self.valid()
        &&& self.from_route_id != self.to_route_id
        &&& self.from_route_id.0 < solution.len()
        &&& self.to_route_id.0 < solution.len()
        &&& self.position < solution[self.from_route_id.0 as int].len()
        &&& self.segment_start + self.segment_length <= solution[self.to_route_id.0 as int].len()
    }

    /// The routes after the move.
    pub open spec fn result(&self, solution: Seq<Seq<ActivityId>>) -> Seq<Seq<ActivityId>> {
        let e = exchange_segments(
            solution[self.from_route_id.0 as int],
            solution[self.to_route_id.0 as int],
            self.position as int,
            self.position + 1,
            self.segment_start as int,
            self.segment_start + self.segment_length,
        );
        solution.update(self.from_route_id.0 as int, e.0).update(self.to_route_id.0 as int, e.1)
    }
}

impl View for InterMixedExchange {
    type V = InterMixedExchangeParams;

    closed spec fn view(&self) -> InterMixedExchangeParams {
        self.params
    }
}

fn any_pair(_a: usize, _b: usize) -> (r: bool)
    ensures
        r,
{
    true
}

impl InterMixedExchange {
    /// The parameters of the move.
    pub fn params(&self) -> (r: InterMixedExchangeParams)
        ensures
            r == self@,
    {
        self.params
    }

    pub fn new(params: InterMixedExchangeParams) -> (r: Self)
        requires
            params.valid(),
        ensures
            r@ == params,
    {
        InterMixedExchange { params }
    }

    /// The single activity of the first route that moves.
    pub fn r1_moved_jobs(&self, solution: &WorkingSolution) -> (r: Vec<ActivityId>)
        requires
            self@.applicable(solution@),
        ensures
            r@ == solution@[self@.from_route_id.0 as int].subrange(
                self@.position as int,
                self@.position + 1,
            ),
    {
        solution.route(self.params.from_route_id).activity_ids_iter(
            self.params.position,
            self.params.position + 1,
        )
    }

    /// The segment of the second route that moves.
    pub fn r2_moved_jobs(&self, solution: &WorkingSolution) -> (r: Vec<ActivityId>)
        requires
            self@.applicable(solution@),
        ensures
            r@ == solution@[self@.to_route_id.0 as int].subrange(
                self@.segment_start as int,
                self@.segment_start + self@.segment_length,
            ),
    {
        solution.route(self.params.to_route_id).activity_ids_iter(
            self.params.segment_start,
            self.params.segment_start + self.params.segment_length,
        )
    }

    /// Every exchange of a position of the first route with a segment of two
    /// of the second, in increasing order of `(position, segment_start)`; the
    /// segment starts at most at `len2 - 3`, as in the search this library
    /// runs. None when the routes are the same, their bounding boxes (which
    /// the caller computes from the coordinates) do not meet, or the first
    /// route cannot take one more activity.
    pub fn generate_moves(
        solution: &WorkingSolution,
        pair: (RouteIdx, RouteIdx),
        bbox_intersects: bool,
    ) -> (r: Vec<Self>)
        requires
            solution.valid_route(pair.0),
            solution.valid_route(pair.1),
        ensures
            ({
                let len1 = solution@[pair.0.0 as int].len() as int;
                let len2 = solution@[pair.1.0 as int].len() as int;
                let breaks = match solution.limits()[pair.0.0 as int] {
                    Some(m) => len1 + 1 > m,
                    None => false,
                };
                let skip = pair.0 == pair.1 || !bbox_intersects || breaks;
                &&& skip ==> r@.len() == 0
                &&& forall|k: int|
                    0 <= k < r@.len() ==> (#[trigger] r@[k])@.from_route_id == pair.0
                        && r@[k]@.to_route_id == pair.1 && r@[k]@.segment_length == 2
                &&& !skip ==> is_enumeration(
                    r@.map_values(|o: Self| (o@.position, o@.segment_start)),
                    len1,
                    if len2 >= 2 { len2 - 2 } else { 0 },
                    |a: int, b: int| true,
                )
            }),
            forall|k: int| 0 <= k < r@.len() ==> (#[trigger] r@[k])@.applicable(solution@),
    {
        let mut out: Vec<Self> = Vec::new();
        if pair.0 == pair.1 {
            return out;
        }
        if !bbox_intersects {
            return out;
        }
        let route1 = solution.route(pair.0);
        let route2 = solution.route(pair.1);
        let segment_length: usize = 2;
        if route1.will_break_maximum_activities(segment_length - 1) {
            return out;
        }
        let len1 = route1.len();
        let len2 = route2.len();
        let starts = if len2 >= segment_length { len2 - segment_length } else { 0 };
        let pairs = enumerate_pairs(len1, starts, any_pair, Ghost(|a: int, b: int| true));
        let mut k: usize = 0;
        while k < pairs.len()
            invariant
                k <= pairs@.len(),
                is_enumeration(pairs@, len1 as int, starts as int, |a: int, b: int| true),
                out@.len() == k,
                len1 == solution@[pair.0.0 as int].len(),
                len2 == solution@[pair.1.0 as int].len(),
                starts == (if len2 >= 2 { len2 - 2 } else { 0 }),
                pair.0 != pair.1,
                solution.valid_route(pair.0),
                solution.valid_route(pair.1),
                forall|j: int| 0 <= j < k ==> (#[trigger] out@[j])@.applicable(solution@),
                forall|j: int|
                    0 <= j < k ==> (#[trigger] out@[j])@ == (InterMixedExchangeParams {
                        from_route_id: pair.0,
                        to_route_id: pair.1,
                        position: pairs@[j].0,
                        segment_start: pairs@[j].1,
                        segment_length: 2,
                    }),
            decreases pairs@.len() - k,
        {
            let (position, segment_start) = pairs[k];
            out.push(
                InterMixedExchange::new(
                    InterMixedExchangeParams {
                        from_route_id: pair.0,
                        to_route_id: pair.1,
                        position,
                        segment_start,
                        segment_length: 2,
                    },
                ),
            );
            k = k + 1;
        }
        assert(out@.map_values(|o: Self| (o@.position, o@.segment_start)) =~= pairs@);
        out
    }

    /// Exchanges the single activity with the segment.
    pub fn apply(&self, solution: &mut WorkingSolution)
        requires
            self@.applicable(old(solution)@),
        ensures
            final(solution)@ == self@.result(old(solution)@),
            final(solution).limits() == old(solution).limits(),
    {
        let p = self.params;
        let _len1 = solution.route(p.from_route_id).len();
        let _len2 = solution.route(p.to_route_id).len();
        let r1_ids = self.r1_moved_jobs(solution);
        let r2_ids = self.r2_moved_jobs(solution);
        solution.replace_activities(p.from_route_id, r2_ids.as_slice(), p.position, p.position + 1);
        solution.replace_activities(
            p.to_route_id,
            r1_ids.as_slice(),
            p.segment_start,
            p.segment_start + p.segment_length,
        );
        assert(solution@ =~= self@.result(old(solution)@));
    }

    pub fn updated_routes(&self) -> (r: Vec<RouteIdx>)
        ensures
            r@ == seq![self@.from_route_id, self@.to_route_id],
    {
        let mut v = Vec::new();
        v.push(self.params.from_route_id);
        v.push(self.params.to_route_id);
        assert(v@ =~= seq![self@.from_route_id, self@.to_route_id]);
        v
    }
}

} // verus!
