//! Where each move puts each activity, position by position.

use vstd::prelude::*;

use crate::problem::job::{ActivityId, JobIdx};
use crate::solver::ls::cross_exchange::CrossExchangeOperatorParams;
use crate::solver::ls::enumerate::{has_pair, is_enumeration};
use crate::solver::ls::inter_mixed_exchange::InterMixedExchangeParams;
use crate::solver::ls::inter_or_opt::InterOrOptParams;
use crate::solver::ls::inter_relocate::InterRelocateParams;
use crate::solver::ls::inter_reverse_two_opt::InterReverseTwoOptOperatorParams;
use crate::solver::ls::inter_two_opt_star::InterTwoOptStarOperatorParams;
use crate::solver::ls::mixed_exchange::MixedExchangeParams;
use crate::solver::ls::or_opt::{or_opt_allowed, OrOptOperatorParams};
use crate::solver::ls::relocate::{first_position, relocate_allowed};
use crate::solver::ls::swap::SwapOperatorParams;
use crate::solver::ls::swap_star::SwapStarParams;
use crate::solver::ls::two_opt::TwoOptParams;

verus! {

/// A 2-opt move reads the activities from `from` to `to` backwards: the
/// activity at `i` in that stretch is the one that was at `from + to - i`;
/// every other activity and route stays.
pub proof fn law_two_opt_reverses_the_stretch(p: TwoOptParams, routes: Seq<Seq<ActivityId>>)
    requires
        p.applicable(routes),
    ensures
        ({
            let r = p.route_id.0 as int;
            let s = routes[r];
            let t = p.result(routes)[r];
            &&& p.result(routes).len() == routes.len()
            &&& forall|k: int| 0 <= k < routes.len() && k != r ==> p.result(routes)[k] == routes[k]
            &&& t.len() == s.len()
            &&& forall|i: int| p.from <= i <= p.to ==> #[trigger] t[i] == s[p.from + p.to - i]
            &&& forall|i: int|
                0 <= i < s.len() && (i < p.from || i > p.to) ==> #[trigger] t[i] == s[i]
        }),
{
}

/// A swap exchanges the activities at `first` and `second`; every other
/// activity and route stays.
pub proof fn law_swap_exchanges_two_positions(p: SwapOperatorParams, routes: Seq<Seq<ActivityId>>)
    requires
        p.applicable(routes),
    ensures
        ({
            let r = p.route_id.0 as int;
            let s = routes[r];
            let t = p.result(routes)[r];
            &&& p.result(routes).len() == routes.len()
            &&& forall|k: int| 0 <= k < routes.len() && k != r ==> p.result(routes)[k] == routes[k]
            &&& t.len() == s.len()
            &&& t[p.first as int] == s[p.second as int]
            &&& t[p.second as int] == s[p.first as int]
            &&& forall|i: int|
                0 <= i < s.len() && i != p.first && i != p.second ==> #[trigger] t[i] == s[i]
        }),
{
}

/// An or-opt move takes the chain of `segment_length` activities from
/// `from` and puts it back, in order, right before the activity that was
/// at `to`; the activities between shift over by the length of the chain.
pub proof fn law_or_opt_moves_the_chain_before_to(
    p: OrOptOperatorParams,
    routes: Seq<Seq<ActivityId>>,
)
    requires
        p.applicable(routes),
    ensures
        ({
            let r = p.route_id.0 as int;
            let s = routes[r];
            let t = p.result(routes)[r];
            let from = p.from as int;
            let to = p.to as int;
            let n = p.segment_length as int;
            &&& p.result(routes).len() == routes.len()
            &&& forall|k: int| 0 <= k < routes.len() && k != r ==> p.result(routes)[k] == routes[k]
            &&& t.len() == s.len()
            &&& from < to ==> {
                &&& forall|i: int| 0 <= i < from ==> #[trigger] t[i] == s[i]
                &&& forall|i: int| from <= i < to - n ==> #[trigger] t[i] == s[i + n]
                &&& forall|k: int| 0 <= k < n ==> #[trigger] t[to - n + k] == s[from + k]
                &&& forall|i: int| to <= i < s.len() ==> #[trigger] t[i] == s[i]
            }
            &&& to < from ==> {
                &&& forall|i: int| 0 <= i < to ==> #[trigger] t[i] == s[i]
                &&& forall|k: int| 0 <= k < n ==> #[trigger] t[to + k] == s[from + k]
                &&& forall|i: int| to + n <= i < from + n ==> #[trigger] t[i] == s[i - n]
                &&& forall|i: int| from + n <= i < s.len() ==> #[trigger] t[i] == s[i]
            }
        }),
{
}

/// The candidate or-opt moves of a route of `len >= 4` activities, as
/// `OrOptOperator::generate_moves` lists them by `(from, to)`: every start
/// `a` of a chain of two and every position `b` of the route, except the
/// start itself, the three positions just after it, and the one just
/// before it.
pub proof fn law_or_opt_candidates(moves: Seq<(usize, usize)>, len: int)
    requires
        len >= 4,
        is_enumeration(moves, len - 1, len, |a: int, b: int| or_opt_allowed(a, b)),
    ensures
        forall|a: int, b: int|
            #[trigger] has_pair(moves, a, b) <==> {
                &&& 0 <= a < len - 1
                &&& 0 <= b < len
                &&& b != a
                &&& !(a < b && b <= a + 3)
                &&& !(b < a && a < b + 2)
            },
        forall|a: int| 0 <= a && a + 4 < len ==> #[trigger] has_pair(moves, a, a + 4),
        forall|a: int| 2 <= a < len - 1 ==> #[trigger] has_pair(moves, a, a - 2),
{
    assert forall|a: int, b: int|
        #[trigger] has_pair(moves, a, b) <==> {
            &&& 0 <= a < len - 1
            &&& 0 <= b < len
            &&& b != a
            &&& !(a < b && b <= a + 3)
            &&& !(b < a && a < b + 2)
        } by {
        if has_pair(moves, a, b) {
            let k = choose|k: int| 0 <= k < moves.len() && moves[k].0 == a && moves[k].1 == b;
            assert(or_opt_allowed(moves[k].0 as int, moves[k].1 as int));
        }
    }
    assert forall|a: int| 0 <= a && a + 4 < len implies #[trigger] has_pair(moves, a, a + 4) by {
        assert(or_opt_allowed(a, a + 4));
    }
    assert forall|a: int| 2 <= a < len - 1 implies #[trigger] has_pair(moves, a, a - 2) by {
        assert(or_opt_allowed(a, a - 2));
    }
}

/// A mixed exchange puts the single activity where the segment began and
/// the segment, in order, where the single activity was (the activities
/// between shift to make room).
pub proof fn law_mixed_exchange_trades_places(
    p: MixedExchangeParams,
    routes: Seq<Seq<ActivityId>>,
)
    requires
        p.applicable(routes),
    ensures
        ({
            let r = p.route_id.0 as int;
            let s = routes[r];
            let t = p.result(routes)[r];
            let a = p.position as int;
            let b = p.segment_start as int;
            let n = p.segment_length as int;
            &&& p.result(routes).len() == routes.len()
            &&& forall|k: int| 0 <= k < routes.len() && k != r ==> p.result(routes)[k] == routes[k]
            &&& t.len() == s.len()
            &&& a < b ==> {
                &&& forall|i: int| 0 <= i < a ==> #[trigger] t[i] == s[i]
                &&& forall|k: int| 0 <= k < n ==> #[trigger] t[a + k] == s[b + k]
                &&& forall|i: int| a + n <= i < b + n - 1 ==> #[trigger] t[i] == s[i - n + 1]
                &&& t[b + n - 1] == s[a]
                &&& forall|i: int| b + n <= i < s.len() ==> #[trigger] t[i] == s[i]
            }
            &&& b < a ==> {
                &&& forall|i: int| 0 <= i < b ==> #[trigger] t[i] == s[i]
                &&& t[b] == s[a]
                &&& forall|i: int| b + 1 <= i < a - n + 1 ==> #[trigger] t[i] == s[i + n - 1]
                &&& forall|k: int| 0 <= k < n ==> #[trigger] t[a - n + 1 + k] == s[b + k]
                &&& forall|i: int| a + 1 <= i < s.len() ==> #[trigger] t[i] == s[i]
            }
        }),
{
}

/// An inter-route relocate takes the activity at `from` out of the first
/// route, closing the gap, and puts it at `to` in the second, right before
/// the activity that was there.
pub proof fn law_inter_relocate_moves_one_activity(
    p: InterRelocateParams,
    routes: Seq<Seq<ActivityId>>,
)
    requires
        p.applicable(routes),
    ensures
        ({
            let i1 = p.from_route_id.0 as int;
            let i2 = p.to_route_id.0 as int;
            let s1 = routes[i1];
            let s2 = routes[i2];
            let t1 = p.result(routes)[i1];
            let t2 = p.result(routes)[i2];
            let from = p.from as int;
            let to = p.to as int;
            &&& p.result(routes).len() == routes.len()
            &&& forall|k: int|
                0 <= k < routes.len() && k != i1 && k != i2 ==> p.result(routes)[k] == routes[k]
            &&& t1.len() == s1.len() - 1
            &&& forall|i: int| 0 <= i < from ==> #[trigger] t1[i] == s1[i]
            &&& forall|i: int| from <= i < t1.len() ==> #[trigger] t1[i] == s1[i + 1]
            &&& t2.len() == s2.len() + 1
            &&& t2[to] == s1[from]
            &&& forall|i: int| 0 <= i < to ==> #[trigger] t2[i] == s2[i]
            &&& forall|i: int| to < i < t2.len() ==> #[trigger] t2[i] == s2[i - 1]
        }),
{
}

/// An inter-route or-opt move takes the chain from `segment_start` out of
/// the first route and puts it, in order, at `to` in the second.
pub proof fn law_inter_or_opt_moves_the_chain(p: InterOrOptParams, routes: Seq<Seq<ActivityId>>)
    requires
        p.applicable(routes),
    ensures
        ({
            let i1 = p.from_route_id.0 as int;
            let i2 = p.to_route_id.0 as int;
            let s1 = routes[i1];
            let s2 = routes[i2];
            let t1 = p.result(routes)[i1];
            let t2 = p.result(routes)[i2];
            let a = p.segment_start as int;
            let n = p.segment_length as int;
            let to = p.to as int;
            &&& p.result(routes).len() == routes.len()
            &&& forall|k: int|
                0 <= k < routes.len() && k != i1 && k != i2 ==> p.result(routes)[k] == routes[k]
            &&& t1.len() == s1.len() - n
            &&& forall|i: int| 0 <= i < a ==> #[trigger] t1[i] == s1[i]
            &&& forall|i: int| a <= i < t1.len() ==> #[trigger] t1[i] == s1[i + n]
            &&& t2.len() == s2.len() + n
            &&& forall|i: int| 0 <= i < to ==> #[trigger] t2[i] == s2[i]
            &&& forall|k: int| 0 <= k < n ==> #[trigger] t2[to + k] == s1[a + k]
            &&& forall|i: int| to + n <= i < t2.len() ==> #[trigger] t2[i] == s2[i - n]
        }),
{
}

/// Exchanging tails: the first route keeps its activities up to
/// `first_from` and goes on with those of the second after `second_from`,
/// and the other way round.
pub proof fn law_inter_two_opt_star_exchanges_the_tails(
    p: InterTwoOptStarOperatorParams,
    routes: Seq<Seq<ActivityId>>,
)
    requires
        p.applicable(routes),
    ensures
        ({
            let i1 = p.first_route_id.0 as int;
            let i2 = p.second_route_id.0 as int;
            let s1 = routes[i1];
            let s2 = routes[i2];
            let t1 = p.result(routes)[i1];
            let t2 = p.result(routes)[i2];
            let c1 = p.first_from as int + 1;
            let c2 = p.second_from as int + 1;
            &&& p.result(routes).len() == routes.len()
            &&& forall|k: int|
                0 <= k < routes.len() && k != i1 && k != i2 ==> p.result(routes)[k] == routes[k]
            &&& t1.len() == c1 + s2.len() - c2
            &&& t2.len() == c2 + s1.len() - c1
            &&& forall|i: int| 0 <= i < c1 ==> #[trigger] t1[i] == s1[i]
            &&& forall|i: int| c1 <= i < t1.len() ==> #[trigger] t1[i] == s2[i - c1 + c2]
            &&& forall|i: int| 0 <= i < c2 ==> #[trigger] t2[i] == s2[i]
            &&& forall|i: int| c2 <= i < t2.len() ==> #[trigger] t2[i] == s1[i - c2 + c1]
        }),
{
}

/// A reverse 2-opt: the first route keeps its head up to `first_position`
/// and goes on with the head of the second up to `second_position`,
/// backwards; the second starts with the tail of the first, backwards, and
/// keeps its own tail.
pub proof fn law_inter_reverse_two_opt_reverses_what_moves(
    p: InterReverseTwoOptOperatorParams,
    routes: Seq<Seq<ActivityId>>,
)
    requires
        p.applicable(routes),
    ensures
        ({
            let i1 = p.first_route_id.0 as int;
            let i2 = p.second_route_id.0 as int;
            let s1 = routes[i1];
            let s2 = routes[i2];
            let t1 = p.result(routes)[i1];
            let t2 = p.result(routes)[i2];
            let c1 = p.first_position as int + 1;
            let c2 = p.second_position as int + 1;
            &&& p.result(routes).len() == routes.len()
            &&& forall|k: int|
                0 <= k < routes.len() && k != i1 && k != i2 ==> p.result(routes)[k] == routes[k]
            &&& t1.len() == c1 + c2
            &&& t2.len() == s1.len() - c1 + s2.len() - c2
            &&& forall|i: int| 0 <= i < c1 ==> #[trigger] t1[i] == s1[i]
            &&& forall|k: int| 0 <= k < c2 ==> #[trigger] t1[c1 + k] == s2[c2 - 1 - k]
            &&& forall|k: int| 0 <= k < s1.len() - c1 ==> #[trigger] t2[k] == s1[s1.len() - 1 - k]
            &&& forall|i: int|
                s1.len() - c1 <= i < t2.len() ==> #[trigger] t2[i] == s2[i - (s1.len() - c1) + c2]
        }),
{
}

/// A cross exchange puts the second segment, in order, where the first was,
/// and the first where the second was.
pub proof fn law_cross_exchange_trades_segments(
    p: CrossExchangeOperatorParams,
    routes: Seq<Seq<ActivityId>>,
)
    requires
        p.applicable(routes),
    ensures
        ({
            let i1 = p.first_route_id.0 as int;
            let i2 = p.second_route_id.0 as int;
            let s1 = routes[i1];
            let s2 = routes[i2];
            let t1 = p.result(routes)[i1];
            let t2 = p.result(routes)[i2];
            let a1 = p.first_start as int;
            let n1 = p.first_end - p.first_start + 1;
            let a2 = p.second_start as int;
            let n2 = p.second_end - p.second_start + 1;
            &&& p.result(routes).len() == routes.len()
            &&& forall|k: int|
                0 <= k < routes.len() && k != i1 && k != i2 ==> p.result(routes)[k] == routes[k]
            &&& t1.len() == s1.len() - n1 + n2
            &&& t2.len() == s2.len() - n2 + n1
            &&& forall|i: int| 0 <= i < a1 ==> #[trigger] t1[i] == s1[i]
            &&& forall|k: int| 0 <= k < n2 ==> #[trigger] t1[a1 + k] == s2[a2 + k]
            &&& forall|i: int| a1 + n2 <= i < t1.len() ==> #[trigger] t1[i] == s1[i - n2 + n1]
            &&& forall|i: int| 0 <= i < a2 ==> #[trigger] t2[i] == s2[i]
            &&& forall|k: int| 0 <= k < n1 ==> #[trigger] t2[a2 + k] == s1[a1 + k]
            &&& forall|i: int| a2 + n1 <= i < t2.len() ==> #[trigger] t2[i] == s2[i - n1 + n2]
        }),
{
}

/// An inter-route mixed exchange puts the segment of the second route, in
/// order, where the single activity of the first was, and that activity
/// where the segment was.
pub proof fn law_inter_mixed_exchange_trades_places(
    p: InterMixedExchangeParams,
    routes: Seq<Seq<ActivityId>>,
)
    requires
        p.applicable(routes),
    ensures
        ({
            let i1 = p.from_route_id.0 as int;
            let i2 = p.to_route_id.0 as int;
            let s1 = routes[i1];
            let s2 = routes[i2];
            let t1 = p.result(routes)[i1];
            let t2 = p.result(routes)[i2];
            let a = p.position as int;
            let b = p.segment_start as int;
            let n = p.segment_length as int;
            &&& p.result(routes).len() == routes.len()
            &&& forall|k: int|
                0 <= k < routes.len() && k != i1 && k != i2 ==> p.result(routes)[k] == routes[k]
            &&& t1.len() == s1.len() - 1 + n
            &&& t2.len() == s2.len() - n + 1
            &&& forall|i: int| 0 <= i < a ==> #[trigger] t1[i] == s1[i]
            &&& forall|k: int| 0 <= k < n ==> #[trigger] t1[a + k] == s2[b + k]
            &&& forall|i: int| a + n <= i < t1.len() ==> #[trigger] t1[i] == s1[i - n + 1]
            &&& forall|i: int| 0 <= i < b ==> #[trigger] t2[i] == s2[i]
            &&& t2[b] == s1[a]
            &&& forall|i: int| b + 1 <= i < t2.len() ==> #[trigger] t2[i] == s2[i + n - 1]
        }),
{
}

/// A SWAP* move takes the activity at `first_position` out of the first
/// route and the one at `second_position` out of the second, and puts each
/// into the other route right before the activity that was at its insertion
/// point there.
pub proof fn law_swap_star_places_each_activity(p: SwapStarParams, routes: Seq<Seq<ActivityId>>)
    requires
        p.applicable(routes),
    ensures
        ({
            let i1 = p.first_route.0 as int;
            let i2 = p.second_route.0 as int;
            let s1 = routes[i1];
            let s2 = routes[i2];
            let t1 = p.result(routes)[i1];
            let t2 = p.result(routes)[i2];
            let p1 = p.first_position as int;
            let p2 = p.second_position as int;
            let q1 = if p.first_insertion > p.first_position {
                p.first_insertion - 1
            } else {
                p.first_insertion as int
            };
            let q2 = if p.second_insertion > p.second_position {
                p.second_insertion - 1
            } else {
                p.second_insertion as int
            };
            &&& p.result(routes).len() == routes.len()
            &&& forall|k: int|
                0 <= k < routes.len() && k != i1 && k != i2 ==> p.result(routes)[k] == routes[k]
            &&& t1.len() == s1.len()
            &&& t2.len() == s2.len()
            &&& t1[q1] == s2[p2]
            &&& t2[q2] == s1[p1]
            &&& forall|i: int| 0 <= i < p1 && i < q1 ==> #[trigger] t1[i] == s1[i]
            &&& forall|i: int| p1 < i && q1 < i < s1.len() ==> #[trigger] t1[i] == s1[i]
            &&& forall|i: int| p1 <= i < q1 ==> #[trigger] t1[i] == s1[i + 1]
            &&& forall|i: int| q1 < i <= p1 ==> #[trigger] t1[i] == s1[i - 1]
            &&& forall|i: int| 0 <= i < p2 && i < q2 ==> #[trigger] t2[i] == s2[i]
            &&& forall|i: int| p2 < i && q2 < i < s2.len() ==> #[trigger] t2[i] == s2[i]
            &&& forall|i: int| p2 <= i < q2 ==> #[trigger] t2[i] == s2[i + 1]
            &&& forall|i: int| q2 < i <= p2 ==> #[trigger] t2[i] == s2[i - 1]
        }),
{
}

/// The candidate relocate moves of a route, as
/// `RelocateOperator::generate_moves` lists them by `(from, to)`: a service
/// may go before any activity or to the end, except back to its own place
/// (`to` equal to `from` or `from + 1`); a pickup only up to its delivery,
/// and a delivery only after its pickup.
pub proof fn law_relocate_candidates(moves: Seq<(usize, usize)>, s: Seq<ActivityId>)
    requires
        is_enumeration(
            moves,
            s.len() as int,
            s.len() + 1 as int,
            |a: int, b: int| relocate_allowed(s, a, b),
        ),
    ensures
        forall|a: int, b: int|
            0 <= a < s.len() && s[a] is Service ==> (#[trigger] has_pair(moves, a, b) <==> (0 <= b
                <= s.len() && b != a && b != a + 1)),
        forall|a: int, b: int, j: JobIdx, d: int|
            #![trigger has_pair(moves, a, b), first_position(s, ActivityId::ShipmentDelivery(j), d)]
            0 <= a < s.len() && s[a] == ActivityId::ShipmentPickup(j) && first_position(
                s,
                ActivityId::ShipmentDelivery(j),
                d,
            ) ==> (has_pair(moves, a, b) <==> a + 2 <= b <= d),
        forall|a: int, b: int, j: JobIdx, q: int|
            #![trigger has_pair(moves, a, b), first_position(s, ActivityId::ShipmentPickup(j), q)]
            0 <= a < s.len() && s[a] == ActivityId::ShipmentDelivery(j) && first_position(
                s,
                ActivityId::ShipmentPickup(j),
                q,
            ) ==> (has_pair(moves, a, b) <==> (q + 1 <= b <= s.len() && b != a && b != a + 1)),
{
    assert forall|a: int, b: int| has_pair(moves, a, b) implies relocate_allowed(s, a, b) by {
        let k = choose|k: int| 0 <= k < moves.len() && moves[k].0 == a && moves[k].1 == b;
        assert(relocate_allowed(s, moves[k].0 as int, moves[k].1 as int));
    }
    assert forall|a: int, b: int|
        0 <= a < s.len() && s[a] is Service implies (#[trigger] has_pair(moves, a, b) <==> (0 <= b
        <= s.len() && b != a && b != a + 1)) by {
        if 0 <= b <= s.len() && b != a && b != a + 1 {
            assert(relocate_allowed(s, a, b));
        }
    }
    assert forall|a: int, b: int, j: JobIdx, d: int|
        #![trigger has_pair(moves, a, b), first_position(s, ActivityId::ShipmentDelivery(j), d)]
        0 <= a < s.len() && s[a] == ActivityId::ShipmentPickup(j) && first_position(
            s,
            ActivityId::ShipmentDelivery(j),
            d,
        ) implies (has_pair(moves, a, b) <==> a + 2 <= b <= d) by {
        if has_pair(moves, a, b) {
            let d2 = choose|d2: int|
                first_position(s, ActivityId::ShipmentDelivery(j), d2) && a + 1 <= b <= d2;
            if d2 < d {
                assert(s[d2] == ActivityId::ShipmentDelivery(j));
            }
            if d < d2 {
                assert(s[d] == ActivityId::ShipmentDelivery(j));
            }
        }
        if a + 2 <= b <= d {
            assert(first_position(s, ActivityId::ShipmentDelivery(j), d) && a + 1 <= b <= d);
            assert(s[a] is ShipmentPickup && s[a]->ShipmentPickup_0 == j);
            assert(relocate_allowed(s, a, b));
        }
    }
    assert forall|a: int, b: int, j: JobIdx, q: int|
        #![trigger has_pair(moves, a, b), first_position(s, ActivityId::ShipmentPickup(j), q)]
        0 <= a < s.len() && s[a] == ActivityId::ShipmentDelivery(j) && first_position(
            s,
            ActivityId::ShipmentPickup(j),
            q,
        ) implies (has_pair(moves, a, b) <==> (q + 1 <= b <= s.len() && b != a && b != a + 1)) by {
        if has_pair(moves, a, b) {
            let q2 = choose|q2: int|
                first_position(s, ActivityId::ShipmentPickup(j), q2) && q2 + 1 <= b <= s.len();
            if q2 < q {
                assert(s[q2] == ActivityId::ShipmentPickup(j));
            }
            if q < q2 {
                assert(s[q] == ActivityId::ShipmentPickup(j));
            }
        }
        if q + 1 <= b <= s.len() && b != a && b != a + 1 {
            assert(first_position(s, ActivityId::ShipmentPickup(j), q) && q + 1 <= b <= s.len());
            assert(s[a] is ShipmentDelivery && s[a]->ShipmentDelivery_0 == j);
            assert(relocate_allowed(s, a, b));
        }
    }
}

} // verus!
