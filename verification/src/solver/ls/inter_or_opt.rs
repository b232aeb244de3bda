use vstd::prelude::*;

use crate::problem::job::ActivityId;
use crate::solver::ls::enumerate::{enumerate_pairs, is_enumeration};
use crate::solver::solution::{splice, RouteIdx, WorkingSolution};

verus! {

/// **Inter-Route Or-Opt**
///
/// Moves a segment (2-3 consecutive nodes) from one route to another.
///
/// ```text
/// BEFORE:
///    Route 1: ... (A) -> [B -> C] -> (D) -> (E) ...
///    Route 2: ... (X) -> (Y) -> (Z) ...
///
/// AFTER:
///    Route 1: ... (A) -> (D) -> (E) ...
///    Route 2: ... (X) -> [B -> C] -> (Y) -> (Z) ...
/// ```
#[derive(Debug)]
pub struct InterOrOptOperator {
    params: InterOrOptParams,
}

#[derive(Debug, Clone, Copy)]
pub struct InterOrOptParams {
    pub from_route_id: RouteIdx,
    pub to_route_id: RouteIdx,
    pub segment_start: usize,
    pub segment_length: usize,
    /// Second route position
    pub to: usize,
}

impl InterOrOptParams {
    /// The parameters that the operator accepts: a segment of at least two.
    pub open spec fn valid(&self) -> bool {
        self.segment_length >= 2
    }

    /// The move fits the routes of `solution`.
    pub open spec fn applicable(&self, solution: Seq<Seq<ActivityId>>) -> bool {
        &&& self.valid()
        &&& self.from_route_id != self.to_route_id
        &&& self.from_route_id.0 < solution.len()
        &&& self.to_route_id.0 < solution.len()
        &&& self.segment_start + self.segment_length <= solution[self.from_route_id.0 as int].len()
        &&& self.to <= solution[self.to_route_id.0 as int].len()
    }

    /// The moved segment.
    pub open spec fn segment(&self, solution: Seq<Seq<ActivityId>>) -> Seq<ActivityId> {
        solution[self.from_route_id.0 as int].subrange(
            self.segment_start as int,
            self.segment_start + self.segment_length,
        )
    }

    /// The routes after the move: the segment leaves the first route and
    /// enters the second at `to`.
    pub open spec fn result(&self, solution: Seq<Seq<ActivityId>>) -> Seq<Seq<ActivityId>> {
        let s1 = solution[self.from_route_id.0 as int];
        let s2 = solution[self.to_route_id.0 as int];
        solution.update(
            self.from_route_id.0 as int,
            splice(
                s1,
                Seq::empty(),
                self.segment_start as int,
                self.segment_start + self.segment_length,
            ),
        ).update(
            self.to_route_id.0 as int,
            splice(s2, self.segment(solution), self.to as int, self.to as int),
        )
    }
}

impl View for InterOrOptOperator {
    type V = InterOrOptParams;

    closed spec fn view(&self) -> InterOrOptParams {
        self.params
    }
}

fn any_pair(_a: usize, _b: usize) -> (r: bool)
    ensures
        r,
{
    true
}

/// `ops` are the moves of segments of `segment_length` from `pair.0` to
/// `pair.1`: every start with the whole segment in the first route and every
/// position of the second, in increasing order.
pub open spec fn segment_moves(
    ops: Seq<InterOrOptOperator>,
    pair: (RouteIdx, RouteIdx),
    segment_length: int,
    len1: int,
    len2: int,
) -> bool {
    &&& forall|k: int|
        0 <= k < ops.len() ==> (#[trigger] ops[k])@.from_route_id == pair.0
            && ops[k]@.to_route_id == pair.1 && ops[k]@.segment_length == segment_length
    &&& is_enumeration(
        ops.map_values(|o: InterOrOptOperator| (o@.segment_start, o@.to)),
        if len1 + 1 >= segment_length { len1 + 1 - segment_length } else { 0 },
        len2 + 1,
        |a: int, b: int| true,
    )
}

impl InterOrOptOperator {
    /// The parameters of the move.
    pub fn params(&self) -> (r: InterOrOptParams)
        ensures
            r == self@,
    {
        self.params
    }

    pub fn new(params: InterOrOptParams) -> (r: Self)
        requires
            params.valid(),
        ensures
            r@ == params,
    {
        InterOrOptOperator { params }
    }

    fn moves_of_length(pair: (RouteIdx, RouteIdx), segment_length: usize, len1: usize, len2: usize) -> (r: Vec<Self>)
        requires
            segment_length >= 2,
            len2 < usize::MAX,
        ensures
            segment_moves(r@, pair, segment_length as int, len1 as int, len2 as int),
            forall|k: int|
                0 <= k < r@.len() ==> (#[trigger] r@[k])@.segment_start + segment_length <= len1
                    && r@[k]@.to <= len2,
    {
        let starts = if len1 >= segment_length - 1 {
            len1 - (segment_length - 1)
        } else {
            0
        };
        let pairs = enumerate_pairs(starts, len2 + 1, any_pair, Ghost(|a: int, b: int| true));
        let mut out: Vec<Self> = Vec::new();
        let mut k: usize = 0;
        while k < pairs.len()
            invariant
                k <= pairs@.len(),
                segment_length >= 2,
                is_enumeration(pairs@, starts as int, len2 + 1 as int, |a: int, b: int| true),
                out@.len() == k,
                starts == (if len1 >= segment_length - 1 { len1 - (segment_length - 1) } else { 0 }),
                forall|j: int|
                    0 <= j < k ==> (#[trigger] out@[j])@.segment_start + segment_length <= len1
                        && out@[j]@.to <= len2,
                forall|j: int|
                    0 <= j < k ==> (#[trigger] out@[j])@ == (InterOrOptParams {
                        from_route_id: pair.0,
                        to_route_id: pair.1,
                        segment_start: pairs@[j].0,
                        segment_length,
                        to: pairs@[j].1,
                    }),
            decreases pairs@.len() - k,
        {
            let (segment_start, to) = pairs[k];
            out.push(
                InterOrOptOperator::new(
                    InterOrOptParams {
                        from_route_id: pair.0,
                        to_route_id: pair.1,
                        segment_start,
                        segment_length,
                        to,
                    },
                ),
            );
            k = k + 1;
        }
        assert(out@.map_values(|o: Self| (o@.segment_start, o@.to)) =~= pairs@);
        out
    }

    /// The moves of segments of two, then those of segments of three, from
    /// the first route to the second (see `segment_moves`); a length is left
    /// out when the second route cannot take that many more activities, and
    /// all when the routes are the same or the first is empty.
    pub fn generate_moves(solution: &WorkingSolution, pair: (RouteIdx, RouteIdx)) -> (r: Vec<
        Self,
    >)
        requires
            solution.valid_route(pair.0),
            solution.valid_route(pair.1),
            solution@[pair.1.0 as int].len() < usize::MAX,
        ensures
            ({
                let len1 = solution@[pair.0.0 as int].len() as int;
                let len2 = solution@[pair.1.0 as int].len() as int;
                let breaks2 = match solution.limits()[pair.1.0 as int] {
                    Some(m) => len2 + 2 > m,
                    None => false,
                };
                let breaks3 = match solution.limits()[pair.1.0 as int] {
                    Some(m) => len2 + 3 > m,
                    None => false,
                };
                &&& (pair.0 == pair.1 || len1 == 0) ==> r@.len() == 0
                &&& (pair.0 != pair.1 && len1 != 0) ==> exists|m: int|
                    #![trigger r@.subrange(0, m)]
                    0 <= m <= r@.len() && (if breaks2 {
                        m == 0
                    } else {
                        segment_moves(r@.subrange(0, m), pair, 2, len1, len2)
                    }) && (if breaks3 {
                        m == r@.len()
                    } else {
                        segment_moves(r@.subrange(m, r@.len() as int), pair, 3, len1, len2)
                    })
            }),
            forall|k: int| 0 <= k < r@.len() ==> (#[trigger] r@[k])@.applicable(solution@),
    {
        let mut out: Vec<Self> = Vec::new();
        if pair.0 == pair.1 {
            return out;
        }
        let from_route = solution.route(pair.0);
        let to_route = solution.route(pair.1);
        if from_route.is_empty() {
            return out;
        }
        let len1 = from_route.len();
        let len2 = to_route.len();
        if !to_route.will_break_maximum_activities(2) {
            out = Self::moves_of_length(pair, 2, len1, len2);
        }
        let m = out.len();
        assert(out@.subrange(0, m as int) =~= out@);
        if !to_route.will_break_maximum_activities(3) {
            let mut more = Self::moves_of_length(pair, 3, len1, len2);
            let ghost first = out@;
            let ghost second = more@;
            out.append(&mut more);
            assert forall|k: int| 0 <= k < out@.len() implies (#[trigger] out@[k])@.applicable(
                solution@,
            ) by {
                if k < first.len() {
                    assert(out@[k] == first[k]);
                } else {
                    assert(out@[k] == second[k - first.len()]);
                }
            }
            assert(out@.subrange(0, m as int) =~= first);
            assert(out@.subrange(m as int, out@.len() as int) =~= second);
        }
        out
    }

    /// Takes the segment out of the first route and inserts it into the
    /// second.
    pub fn apply(&self, solution: &mut WorkingSolution)
        requires
            self@.applicable(old(solution)@),
        ensures
            final(solution)@ == self@.result(old(solution)@),
            final(solution).limits() == old(solution).limits(),
    {
        let p = self.params;
        let moved = solution.route(p.from_route_id).activity_ids_iter(
            p.segment_start,
            p.segment_start + p.segment_length,
        );
        let empty: Vec<ActivityId> = Vec::new();
        solution.replace_activities(
            p.from_route_id,
            empty.as_slice(),
            p.segment_start,
            p.segment_start + p.segment_length,
        );
        solution.replace_activities(p.to_route_id, moved.as_slice(), p.to, p.to);
        assert(solution@ =~= self@.result(old(solution)@));
    }

    pub fn updated_routes(&self) -> (r: Vec<RouteIdx>)
        ensures
            r@ == seq![self@.from_route_id, self@.to_route_id],
    {
        let mut v = Vec::new();
        v.push(self.params.from_route_id);
        v.push(self.params.to_route_id);
        assert(v@ =~= seq![self@.from_route_id, self@.to_route_id]);
        v
    }
}

/// Moving a segment from one route into another keeps every activity of the
/// two routes, as many times each.
pub proof fn lemma_segment_transfer_keeps_activities(
    s1: Seq<ActivityId>,
    s2: Seq<ActivityId>,
    start: int,
    end: int,
    to: int,
)
    requires
        0 <= start <= end <= s1.len(),
        0 <= to <= s2.len(),
    ensures
        (splice(s1, Seq::empty(), start, end) + splice(s2, s1.subrange(start, end), to, to)).to_multiset()
            == (s1 + s2).to_multiset(),
{
    broadcast use vstd::multiset::group_multiset_axioms;
    broadcast use vstd::seq_lib::lemma_multiset_commutative;

    let a = s1.subrange(0, start);
    let b = s1.subrange(start, end);
    let c = s1.subrange(end, s1.len() as int);
    let x = s2.subrange(0, to);
    let y = s2.subrange(to, s2.len() as int);
    assert(s1 =~= a + b + c);
    assert(s2 =~= x + y);
    assert(splice(s1, Seq::empty(), start, end) =~= a + c);
    assert(splice(s2, b, to, to) =~= x + b + y);
    assert((a + c + (x + b + y)).to_multiset() =~= (a + b + c + (x + y)).to_multiset());
}

} // verus!
