//! What every move of the local search keeps: no activity of the solution
//! is lost or duplicated, only moved.

use vstd::prelude::*;

use crate::problem::job::ActivityId;
use crate::solver::ls::cross_exchange::{
    exchange_segments, lemma_exchange_segments_keeps_activities, CrossExchangeOperatorParams,
};
use crate::solver::ls::inter_mixed_exchange::InterMixedExchangeParams;
use crate::solver::ls::inter_or_opt::{lemma_segment_transfer_keeps_activities, InterOrOptParams};
use crate::solver::ls::inter_relocate::{lemma_inter_relocate_keeps_activities, InterRelocateParams};
use crate::solver::ls::inter_reverse_two_opt::{
    exchange_reversed, lemma_exchange_reversed_keeps_activities, InterReverseTwoOptOperatorParams,
};
use crate::solver::ls::inter_swap::{lemma_inter_swap_of_services, InterSwapOperatorParams};
use crate::solver::ls::local_search_move::LocalSearchMove;
use crate::solver::intensify::intensify_operator::IntensifyOperator;
use crate::solver::ls::inter_two_opt_star::{
    exchange_tails, lemma_exchange_tails, InterTwoOptStarOperatorParams,
};
use crate::solver::ls::enumerate::{has_pair, is_enumeration};
use crate::solver::ls::mixed_exchange::{
    lemma_mixed_exchange_keeps_activities, mixed_exchange_allowed, MixedExchangeParams,
};
use crate::solver::ls::or_opt::{lemma_or_opt_keeps_activities, OrOptOperatorParams};
use crate::solver::ls::relocate::{lemma_relocate_keeps_activities, RelocateOperatorParams};
use crate::solver::ls::swap::{lemma_swap_keeps_activities, SwapOperatorParams};
use crate::solver::ls::swap_star::{exchange_in, lemma_swap_star_keeps_activities, SwapStarParams};
use crate::solver::ls::two_opt::{lemma_two_opt_keeps_activities, TwoOptParams};
use crate::solver::solution::{all_activities, lemma_all_activities_update, RouteIdx};

verus! {

/// Replacing one route by another with the same activities keeps the
/// activities of the solution.
proof fn lemma_route_rearranged(routes: Seq<Seq<ActivityId>>, i: int, t: Seq<ActivityId>)
    requires
        0 <= i < routes.len(),
        t.to_multiset() == routes[i].to_multiset(),
    ensures
        all_activities(routes.update(i, t)) == all_activities(routes),
{
    broadcast use vstd::multiset::group_multiset_axioms;

    lemma_all_activities_update(routes, i, t);
    let after = all_activities(routes.update(i, t));
    assert forall|x: ActivityId| after.count(x) == all_activities(routes).count(x) by {
        assert(after.add(routes[i].to_multiset()).count(x) == all_activities(routes).add(
            t.to_multiset(),
        ).count(x));
    }
    assert(after =~= all_activities(routes));
}

/// Replacing two different routes by two others that hold, together, the
/// same activities keeps the activities of the solution.
proof fn lemma_two_routes_rearranged(
    routes: Seq<Seq<ActivityId>>,
    i: int,
    j: int,
    a: Seq<ActivityId>,
    b: Seq<ActivityId>,
)
    requires
        0 <= i < routes.len(),
        0 <= j < routes.len(),
        i != j,
        (a + b).to_multiset() == (routes[i] + routes[j]).to_multiset(),
    ensures
        all_activities(routes.update(i, a).update(j, b)) == all_activities(routes),
{
    broadcast use vstd::multiset::group_multiset_axioms;

    let mid = routes.update(i, a);
    lemma_all_activities_update(routes, i, a);
    lemma_all_activities_update(mid, j, b);
    vstd::seq_lib::lemma_multiset_commutative(a, b);
    vstd::seq_lib::lemma_multiset_commutative(routes[i], routes[j]);
    assert(mid[j] == routes[j]);
    let after = all_activities(mid.update(j, b));
    let whole = all_activities(routes);
    assert forall|x: ActivityId| after.count(x) == whole.count(x) by {
        assert(after.add(routes[j].to_multiset()).count(x) == all_activities(mid).add(
            b.to_multiset(),
        ).count(x));
        assert(all_activities(mid).add(routes[i].to_multiset()).count(x) == whole.add(
            a.to_multiset(),
        ).count(x));
        assert((a + b).to_multiset().count(x) == (routes[i] + routes[j]).to_multiset().count(x));
        assert((a + b).to_multiset().count(x) == a.to_multiset().count(x) + b.to_multiset().count(
            x,
        ));
        assert((routes[i] + routes[j]).to_multiset().count(x) == routes[i].to_multiset().count(x)
            + routes[j].to_multiset().count(x));
    }
    assert(after =~= whole);
}

/// A 2-opt move keeps every activity of the solution, as many times each.
pub proof fn law_two_opt_keeps_activities(p: TwoOptParams, routes: Seq<Seq<ActivityId>>)
    requires
        p.applicable(routes),
    ensures
        all_activities(p.result(routes)) == all_activities(routes),
{
    let i = p.route_id.0 as int;
    lemma_two_opt_keeps_activities(routes[i], p.from as int, p.to as int);
    lemma_route_rearranged(routes, i, p.result(routes)[i]);
}

/// A relocate move keeps every activity of the solution, as many times each.
pub proof fn law_relocate_keeps_activities(p: RelocateOperatorParams, routes: Seq<Seq<ActivityId>>)
    requires
        p.applicable(routes),
    ensures
        all_activities(p.result(routes)) == all_activities(routes),
{
    let i = p.route_id.0 as int;
    lemma_relocate_keeps_activities(routes[i], p.from as int, p.to as int);
    lemma_route_rearranged(routes, i, p.result(routes)[i]);
}

/// A swap keeps every activity of the solution, as many times each.
pub proof fn law_swap_keeps_activities(p: SwapOperatorParams, routes: Seq<Seq<ActivityId>>)
    requires
        p.applicable(routes),
    ensures
        all_activities(p.result(routes)) == all_activities(routes),
{
    let i = p.route_id.0 as int;
    lemma_swap_keeps_activities(routes[i], p.first as int, p.second as int);
    lemma_route_rearranged(routes, i, p.result(routes)[i]);
}

/// An or-opt move keeps every activity of the solution, as many times each.
pub proof fn law_or_opt_keeps_activities(p: OrOptOperatorParams, routes: Seq<Seq<ActivityId>>)
    requires
        p.applicable(routes),
    ensures
        all_activities(p.result(routes)) == all_activities(routes),
{
    let i = p.route_id.0 as int;
    lemma_or_opt_keeps_activities(
        routes[i],
        p.from as int,
        p.to as int,
        p.segment_length as int,
    );
    lemma_route_rearranged(routes, i, p.result(routes)[i]);
}

/// A mixed exchange keeps every activity of the solution, as many times
/// each.
pub proof fn law_mixed_exchange_keeps_activities(
    p: MixedExchangeParams,
    routes: Seq<Seq<ActivityId>>,
)
    requires
        p.applicable(routes),
    ensures
        all_activities(p.result(routes)) == all_activities(routes),
{
    let i = p.route_id.0 as int;
    lemma_mixed_exchange_keeps_activities(
        routes[i],
        p.position as int,
        p.segment_start as int,
        p.segment_length as int,
    );
    lemma_route_rearranged(routes, i, p.result(routes)[i]);
}

/// An inter-route relocate keeps every activity of the solution, as many
/// times each.
pub proof fn law_inter_relocate_keeps_activities(
    p: InterRelocateParams,
    routes: Seq<Seq<ActivityId>>,
)
    requires
        p.applicable(routes),
    ensures
        all_activities(p.result(routes)) == all_activities(routes),
{
    let i = p.from_route_id.0 as int;
    let j = p.to_route_id.0 as int;
    let s1 = routes[i];
    let s2 = routes[j];
    lemma_inter_relocate_keeps_activities(s1, s2, p.from as int, p.to as int);
    lemma_two_routes_rearranged(
        routes,
        i,
        j,
        s1.remove(p.from as int),
        s2.insert(p.to as int, s1[p.from as int]),
    );
}

/// An inter-route or-opt move keeps every activity of the solution, as many
/// times each.
pub proof fn law_inter_or_opt_keeps_activities(p: InterOrOptParams, routes: Seq<Seq<ActivityId>>)
    requires
        p.applicable(routes),
    ensures
        all_activities(p.result(routes)) == all_activities(routes),
{
    let i = p.from_route_id.0 as int;
    let j = p.to_route_id.0 as int;
    let r = p.result(routes);
    lemma_segment_transfer_keeps_activities(
        routes[i],
        routes[j],
        p.segment_start as int,
        p.segment_start + p.segment_length,
        p.to as int,
    );
    lemma_two_routes_rearranged(routes, i, j, r[i], r[j]);
}

/// An inter-route swap of two services keeps every activity of the
/// solution, as many times each.
pub proof fn law_inter_swap_of_services_keeps_activities(
    p: InterSwapOperatorParams,
    routes: Seq<Seq<ActivityId>>,
)
    requires
        p.applicable(routes),
        p.swaps_services(routes),
    ensures
        all_activities(p.result(routes)) == all_activities(routes),
{
    let i = p.first_route_id.0 as int;
    let j = p.second_route_id.0 as int;
    let r = p.result(routes);
    lemma_inter_swap_of_services(routes[i], routes[j], p.first as int, p.second as int);
    lemma_two_routes_rearranged(routes, i, j, r[i], r[j]);
}

/// Exchanging the tails of two routes keeps every activity of the solution,
/// as many times each.
pub proof fn law_inter_two_opt_star_keeps_activities(
    p: InterTwoOptStarOperatorParams,
    routes: Seq<Seq<ActivityId>>,
)
    requires
        p.applicable(routes),
    ensures
        all_activities(p.result(routes)) == all_activities(routes),
{
    let i = p.first_route_id.0 as int;
    let j = p.second_route_id.0 as int;
    let e = exchange_tails(routes[i], routes[j], p.first_from as int, p.second_from as int);
    lemma_exchange_tails(routes[i], routes[j], p.first_from as int, p.second_from as int);
    lemma_two_routes_rearranged(routes, i, j, e.0, e.1);
}

/// A cross exchange keeps every activity of the solution, as many times
/// each.
pub proof fn law_cross_exchange_keeps_activities(
    p: CrossExchangeOperatorParams,
    routes: Seq<Seq<ActivityId>>,
)
    requires
        p.applicable(routes),
    ensures
        all_activities(p.result(routes)) == all_activities(routes),
{
    let i = p.first_route_id.0 as int;
    let j = p.second_route_id.0 as int;
    let e = exchange_segments(
        routes[i],
        routes[j],
        p.first_start as int,
        p.first_end + 1,
        p.second_start as int,
        p.second_end + 1,
    );
    lemma_exchange_segments_keeps_activities(
        routes[i],
        routes[j],
        p.first_start as int,
        p.first_end + 1,
        p.second_start as int,
        p.second_end + 1,
    );
    lemma_two_routes_rearranged(routes, i, j, e.0, e.1);
}

/// An inter-route mixed exchange keeps every activity of the solution, as
/// many times each.
pub proof fn law_inter_mixed_exchange_keeps_activities(
    p: InterMixedExchangeParams,
    routes: Seq<Seq<ActivityId>>,
)
    requires
        p.applicable(routes),
    ensures
        all_activities(p.result(routes)) == all_activities(routes),
{
    let i = p.from_route_id.0 as int;
    let j = p.to_route_id.0 as int;
    let e = exchange_segments(
        routes[i],
        routes[j],
        p.position as int,
        p.position + 1,
        p.segment_start as int,
        p.segment_start + p.segment_length,
    );
    lemma_exchange_segments_keeps_activities(
        routes[i],
        routes[j],
        p.position as int,
        p.position + 1,
        p.segment_start as int,
        p.segment_start + p.segment_length,
    );
    lemma_two_routes_rearranged(routes, i, j, e.0, e.1);
}

/// An inter-route reverse 2-opt move keeps every activity of the solution,
/// as many times each.
pub proof fn law_inter_reverse_two_opt_keeps_activities(
    p: InterReverseTwoOptOperatorParams,
    routes: Seq<Seq<ActivityId>>,
)
    requires
        p.applicable(routes),
    ensures
        all_activities(p.result(routes)) == all_activities(routes),
{
    let i = p.first_route_id.0 as int;
    let j = p.second_route_id.0 as int;
    let e = exchange_reversed(
        routes[i],
        routes[j],
        p.first_position as int,
        p.second_position as int,
    );
    lemma_exchange_reversed_keeps_activities(
        routes[i],
        routes[j],
        p.first_position as int,
        p.second_position as int,
    );
    lemma_two_routes_rearranged(routes, i, j, e.0, e.1);
}

/// A SWAP* move keeps every activity of the solution, as many times each:
/// the two activities only change routes.
pub proof fn law_swap_star_keeps_activities(p: SwapStarParams, routes: Seq<Seq<ActivityId>>)
    requires
        p.applicable(routes),
    ensures
        all_activities(p.result(routes)) == all_activities(routes),
{
    let i = p.first_route.0 as int;
    let j = p.second_route.0 as int;
    let s1 = routes[i];
    let s2 = routes[j];
    lemma_swap_star_keeps_activities(
        s1,
        s2,
        p.first_position as int,
        p.first_insertion as int,
        p.second_position as int,
        p.second_insertion as int,
    );
    lemma_two_routes_rearranged(
        routes,
        i,
        j,
        exchange_in(s1, p.first_position as int, p.first_insertion as int, s2[p.second_position as int]),
        exchange_in(s2, p.second_position as int, p.second_insertion as int, s1[p.first_position as int]),
    );
}

/// The same 2-opt move applied twice gives back the solution.
pub proof fn law_two_opt_twice_is_identity(p: TwoOptParams, routes: Seq<Seq<ActivityId>>)
    requires
        p.applicable(routes),
    ensures
        p.result(p.result(routes)) == routes,
{
    let i = p.route_id.0 as int;
    crate::solver::ls::two_opt::lemma_two_opt_involution(routes[i], p.from as int, p.to as int);
    assert(p.result(p.result(routes)) =~= routes);
}

/// The same swap applied twice gives back the solution.
pub proof fn law_swap_twice_is_identity(p: SwapOperatorParams, routes: Seq<Seq<ActivityId>>)
    requires
        p.applicable(routes),
    ensures
        p.result(p.result(routes)) == routes,
{
    let i = p.route_id.0 as int;
    crate::solver::ls::swap::lemma_swap_involution(routes[i], p.first as int, p.second as int);
    assert(p.result(p.result(routes)) =~= routes);
}

/// The same exchange of tails applied twice gives back the solution.
pub proof fn law_inter_two_opt_star_twice_is_identity(
    p: InterTwoOptStarOperatorParams,
    routes: Seq<Seq<ActivityId>>,
)
    requires
        p.applicable(routes),
    ensures
        p.result(p.result(routes)) == routes,
{
    let i = p.first_route_id.0 as int;
    let j = p.second_route_id.0 as int;
    lemma_exchange_tails(routes[i], routes[j], p.first_from as int, p.second_from as int);
    let once = p.result(routes);
    assert(once[i] == exchange_tails(routes[i], routes[j], p.first_from as int, p.second_from as int).0);
    assert(once[j] == exchange_tails(routes[i], routes[j], p.first_from as int, p.second_from as int).1);
    assert(p.result(once) =~= routes);
}

/// A cross exchange of two segments of the same length, applied twice, gives
/// back the solution.
pub proof fn law_cross_exchange_twice_is_identity(
    p: CrossExchangeOperatorParams,
    routes: Seq<Seq<ActivityId>>,
)
    requires
        p.applicable(routes),
        p.first_end - p.first_start == p.second_end - p.second_start,
    ensures
        p.result(p.result(routes)) == routes,
{
    let i = p.first_route_id.0 as int;
    let j = p.second_route_id.0 as int;
    let a1 = p.first_start as int;
    let b1 = p.first_end + 1;
    let a2 = p.second_start as int;
    let b2 = p.second_end + 1;
    crate::solver::ls::cross_exchange::lemma_exchange_segments_involution(
        routes[i],
        routes[j],
        a1,
        b1,
        a2,
        b2,
    );
    let once = p.result(routes);
    assert(once[i] == exchange_segments(routes[i], routes[j], a1, b1, a2, b2).0);
    assert(once[j] == exchange_segments(routes[i], routes[j], a1, b1, a2, b2).1);
    assert(p.result(once) =~= routes);
}

/// The same inter-route swap of two services applied twice gives back the
/// solution.
pub proof fn law_inter_swap_of_services_twice_is_identity(
    p: InterSwapOperatorParams,
    routes: Seq<Seq<ActivityId>>,
)
    requires
        p.applicable(routes),
        p.swaps_services(routes),
    ensures
        p.result(p.result(routes)) == routes,
{
    let i = p.first_route_id.0 as int;
    let j = p.second_route_id.0 as int;
    lemma_inter_swap_of_services(routes[i], routes[j], p.first as int, p.second as int);
    assert(p.result(p.result(routes)) =~= routes);
}

/// Every move of the local search keeps every activity of the solution, as
/// many times each; an inter-route swap does so when it exchanges two
/// services (it puts each job back as a service).
pub proof fn law_local_search_move_keeps_activities(m: LocalSearchMove, routes: Seq<Seq<ActivityId>>)
    requires
        m.applicable(routes),
        m matches LocalSearchMove::InterSwap(op) ==> op@.swaps_services(routes),
    ensures
        all_activities(m.result(routes)) == all_activities(routes),
{
    match m {
        LocalSearchMove::TwoOpt(op) => law_two_opt_keeps_activities(op@, routes),
        LocalSearchMove::Relocate(op) => law_relocate_keeps_activities(op@, routes),
        LocalSearchMove::Swap(op) => law_swap_keeps_activities(op@, routes),
        LocalSearchMove::SwapStar(op) => law_swap_star_keeps_activities(op@, routes),
        LocalSearchMove::MixedExchange(op) => law_mixed_exchange_keeps_activities(op@, routes),
        LocalSearchMove::InterMixedExchange(op) => law_inter_mixed_exchange_keeps_activities(
            op@,
            routes,
        ),
        LocalSearchMove::OrOpt(op) => law_or_opt_keeps_activities(op@, routes),
        LocalSearchMove::InterOrOpt(op) => law_inter_or_opt_keeps_activities(op@, routes),
        LocalSearchMove::InterRelocate(op) => law_inter_relocate_keeps_activities(op@, routes),
        LocalSearchMove::InterSwap(op) => law_inter_swap_of_services_keeps_activities(
            op@,
            routes,
        ),
        LocalSearchMove::TwoOptStar(op) => law_inter_two_opt_star_keeps_activities(op@, routes),
        LocalSearchMove::CrossExchange(op) => law_cross_exchange_keeps_activities(op@, routes),
        LocalSearchMove::InterTwoOptStar(op) => law_inter_two_opt_star_keeps_activities(
            op@,
            routes,
        ),
        LocalSearchMove::ReverseTwoOpt(op) => law_inter_reverse_two_opt_keeps_activities(
            op@,
            routes,
        ),
    }
}

/// Every move of the intensification keeps every activity of the solution,
/// as many times each; an inter-route swap does so when it exchanges two
/// services.
pub proof fn law_intensify_operator_keeps_activities(
    m: IntensifyOperator,
    routes: Seq<Seq<ActivityId>>,
)
    requires
        m.applicable(routes),
        m matches IntensifyOperator::InterSwap(op) ==> op@.swaps_services(routes),
    ensures
        all_activities(m.result(routes)) == all_activities(routes),
{
    match m {
        IntensifyOperator::TwoOpt(op) => law_two_opt_keeps_activities(op@, routes),
        IntensifyOperator::Relocate(op) => law_relocate_keeps_activities(op@, routes),
        IntensifyOperator::Swap(op) => law_swap_keeps_activities(op@, routes),
        IntensifyOperator::OrOpt(op) => law_or_opt_keeps_activities(op@, routes),
        IntensifyOperator::InterRelocate(op) => law_inter_relocate_keeps_activities(op@, routes),
        IntensifyOperator::InterSwap(op) => law_inter_swap_of_services_keeps_activities(
            op@,
            routes,
        ),
        IntensifyOperator::CrossExchange(op) => law_cross_exchange_keeps_activities(op@, routes),
        IntensifyOperator::TwoOptStar(op) => {
            let p = op@;
            let i = p.first_route_id as int;
            let j = p.second_route_id as int;
            let e = exchange_tails(routes[i], routes[j], p.first_from as int, p.second_from as int);
            lemma_exchange_tails(routes[i], routes[j], p.first_from as int, p.second_from as int);
            lemma_two_routes_rearranged(routes, i, j, e.0, e.1);
        },
        IntensifyOperator::InterTwoOptStar(op) => {
            let p = op@;
            let i = p.first_route_id as int;
            let j = p.second_route_id as int;
            let e = exchange_tails(routes[i], routes[j], p.first_from as int, p.second_from as int);
            lemma_exchange_tails(routes[i], routes[j], p.first_from as int, p.second_from as int);
            lemma_two_routes_rearranged(routes, i, j, e.0, e.1);
        },
    }
}

/// A move of the local search changes no route but those that it reports
/// in `updated_routes`, and keeps the number of routes.
pub proof fn law_local_search_move_touches_only_updated_routes(
    m: LocalSearchMove,
    routes: Seq<Seq<ActivityId>>,
)
    requires
        m.applicable(routes),
    ensures
        m.result(routes).len() == routes.len(),
        forall|i: int|
            0 <= i < routes.len() && !m.spec_updated_routes().contains(RouteIdx(i as usize))
                ==> #[trigger] m.result(routes)[i] == routes[i],
{
    let updated = m.spec_updated_routes();
    assert forall|i: int|
        0 <= i < routes.len() && !updated.contains(RouteIdx(i as usize)) implies #[trigger] m.result(
        routes,
    )[i] == routes[i] by {
        assert(updated.len() >= 1 && updated[0] != RouteIdx(i as usize)) by {
            if updated[0] == RouteIdx(i as usize) {
                assert(updated.contains(updated[0]));
            }
        }
        if updated.len() == 2 {
            assert(updated[1] != RouteIdx(i as usize)) by {
                if updated[1] == RouteIdx(i as usize) {
                    assert(updated.contains(updated[1]));
                }
            }
        }
    }
}

/// A move of the intensification changes no route but those that it
/// reports in `updated_routes`, and keeps the number of routes.
pub proof fn law_intensify_operator_touches_only_updated_routes(
    m: IntensifyOperator,
    routes: Seq<Seq<ActivityId>>,
)
    requires
        m.applicable(routes),
    ensures
        m.result(routes).len() == routes.len(),
        forall|i: int|
            0 <= i < routes.len() && !m.spec_updated_routes().contains(i as usize)
                ==> #[trigger] m.result(routes)[i] == routes[i],
{
    let updated = m.spec_updated_routes();
    assert forall|i: int|
        0 <= i < routes.len() && !updated.contains(i as usize) implies #[trigger] m.result(
        routes,
    )[i] == routes[i] by {
        assert(updated.len() >= 1 && updated[0] != i as usize) by {
            if updated[0] == i as usize {
                assert(updated.contains(updated[0]));
            }
        }
        if updated.len() == 2 {
            assert(updated[1] != i as usize) by {
                if updated[1] == i as usize {
                    assert(updated.contains(updated[1]));
                }
            }
        }
    }
}

/// The candidate mixed exchanges of a route of `len >= 4` activities, as
/// `MixedExchangeOperator::generate_moves` lists them by `(segment_start,
/// position)`: every segment start `a` with a next activity and every
/// position `b` of the route, except the start itself, the two positions
/// just before the segment and the two just after its start (inside the
/// segment or right behind it). In particular a position three after the
/// start is a candidate whenever the route has it.
pub proof fn law_mixed_exchange_candidates(moves: Seq<(usize, usize)>, len: int)
    requires
        len >= 4,
        is_enumeration(moves, len - 1, len, |a: int, b: int| mixed_exchange_allowed(a, b)),
    ensures
        forall|a: int, b: int|
            #[trigger] has_pair(moves, a, b) <==> {
                &&& 0 <= a < len - 1
                &&& 0 <= b < len
                &&& b != a
                &&& !(b < a && b + 2 >= a)
                &&& !(a < b && b <= a + 2)
            },
        forall|a: int| 0 <= a && a + 3 < len ==> #[trigger] has_pair(moves, a, a + 3),
{
    assert forall|a: int, b: int|
        #[trigger] has_pair(moves, a, b) <==> {
            &&& 0 <= a < len - 1
            &&& 0 <= b < len
            &&& b != a
            &&& !(b < a && b + 2 >= a)
            &&& !(a < b && b <= a + 2)
        } by {
        if has_pair(moves, a, b) {
            let k = choose|k: int| 0 <= k < moves.len() && moves[k].0 == a && moves[k].1 == b;
            assert(mixed_exchange_allowed(moves[k].0 as int, moves[k].1 as int));
        }
    }
    assert forall|a: int| 0 <= a && a + 3 < len implies #[trigger] has_pair(moves, a, a + 3) by {
        assert(mixed_exchange_allowed(a, a + 3));
    }
}

/// A relocate puts the moved activity right before the activity that was at
/// `to` (at the end when `to` is the length): moving backwards, it lands at
/// index `to` and the activities from `to` up to it shift one place right;
/// moving forwards, it lands at index `to - 1` and the activities after it
/// up to `to` shift one place left. Nothing else changes.
pub proof fn law_relocate_places_activity_before_to(
    p: RelocateOperatorParams,
    routes: Seq<Seq<ActivityId>>,
)
    requires
        p.applicable(routes),
    ensures
        ({
            let i = p.route_id.0 as int;
            let s = routes[i];
            let t = p.result(routes)[i];
            let from = p.from as int;
            let to = p.to as int;
            &&& p.result(routes).len() == routes.len()
            &&& forall|k: int| 0 <= k < routes.len() && k != i ==> p.result(routes)[k] == routes[k]
            &&& t.len() == s.len()
            &&& to < from ==> t == s.subrange(0, to) + seq![s[from]] + s.subrange(to, from)
                + s.subrange(from + 1, s.len() as int)
            &&& to < from ==> t[to] == s[from]
            &&& from < to ==> t == s.subrange(0, from) + s.subrange(from + 1, to) + seq![s[from]]
                + s.subrange(to, s.len() as int)
            &&& from < to ==> t[to - 1] == s[from]
        }),
{
    let i = p.route_id.0 as int;
    let s = routes[i];
    let t = p.result(routes)[i];
    let from = p.from as int;
    let to = p.to as int;
    if to < from {
        assert(t =~= s.subrange(0, to) + seq![s[from]] + s.subrange(to, from) + s.subrange(
            from + 1,
            s.len() as int,
        ));
    }
    if from < to {
        assert(t =~= s.subrange(0, from) + s.subrange(from + 1, to) + seq![s[from]] + s.subrange(
            to,
            s.len() as int,
        ));
    }
}

/// An inter-route swap puts at `first` of the first route a service of the
/// job whose activity was at `second` of the second route, and at `second`
/// a service of the job that was at `first`, whatever the kind of the
/// activities taken out; every other position and route stays.
pub proof fn law_inter_swap_puts_services_of_the_exchanged_jobs(
    p: InterSwapOperatorParams,
    routes: Seq<Seq<ActivityId>>,
)
    requires
        p.applicable(routes),
    ensures
        ({
            let i = p.first_route_id.0 as int;
            let j = p.second_route_id.0 as int;
            let after = p.result(routes);
            &&& after.len() == routes.len()
            &&& forall|k: int| 0 <= k < routes.len() && k != i && k != j ==> after[k] == routes[k]
            &&& after[i].len() == routes[i].len()
            &&& after[j].len() == routes[j].len()
            &&& after[i][p.first as int] == ActivityId::Service(
                routes[j][p.second as int].spec_job_id(),
            )
            &&& after[j][p.second as int] == ActivityId::Service(
                routes[i][p.first as int].spec_job_id(),
            )
            &&& forall|q: int|
                0 <= q < routes[i].len() && q != p.first ==> after[i][q] == routes[i][q]
            &&& forall|q: int|
                0 <= q < routes[j].len() && q != p.second ==> after[j][q] == routes[j][q]
        }),
{
}

} // verus!
