//! Slack Induction by String Removals for Vehicle Routing Problems
//! Jan Christiaens, Greet Vanden Berghe

use rand::rngs::SmallRng;
use vstd::prelude::*;

use crate::problem::job::ActivityId;
use crate::solver::random::{choose_item, random_range, random_ratio};
use crate::solver::solution::{RouteIdx, WorkingSolution};

verus! {

/// `start` begins a string of `string_length` activities that holds position
/// `index` and lies inside a route of `route_length` activities.
pub open spec fn is_possible_string_start(
    string_length: int,
    index: int,
    route_length: int,
    start: int,
) -> bool {
    &&& 0 <= start
    &&& index - string_length + 1 <= start <= index
    &&& start + string_length <= route_length
}

/// The route after removing the string of `length` activities from `start`.
pub open spec fn remove_string_in(s: Seq<ActivityId>, start: int, length: int) -> Seq<ActivityId> {
    s.subrange(0, start) + s.subrange(start + length, s.len() as int)
}

/// The route after removing the string of `string_length` activities from
/// `start`, except the `preserved_string_length` of them that begin
/// `start_of_preserved_string` into it.
pub open spec fn remove_split_string_in(
    s: Seq<ActivityId>,
    start: int,
    start_of_preserved_string: int,
    string_length: int,
    preserved_string_length: int,
) -> Seq<ActivityId> {
    s.subrange(0, start) + s.subrange(
        start + start_of_preserved_string,
        start + start_of_preserved_string + preserved_string_length,
    ) + s.subrange(start + string_length + preserved_string_length, s.len() as int)
}

/// Removes strings of consecutive activities from routes.
pub struct RuinString {
    /// Min numbers of string to ruin
    k_min: usize,
    /// Max numbers of string to ruin
    k_max: usize,
    /// Minimum length of string to ruin
    l_min: usize,
    /// Maximum length of string to ruin
    l_max: usize,
}

pub struct RuinSplitStringParams {
    pub route_id: RouteIdx,
    pub start: usize,
    pub start_of_preserved_string: usize,
    pub string_length: usize,
    pub preserved_string_length: usize,
}

impl Default for RuinString {
    fn default() -> (r: Self)
        ensures
            r.spec_l_min() == 3,
            r.spec_l_max() == 10,
            r.spec_k_min() == 1,
            r.spec_k_max() == 3,
    {
        RuinString { k_min: 1, k_max: 3, l_min: 3, l_max: 10 }
    }
}

impl RuinString {
    pub closed spec fn spec_k_min(&self) -> usize {
        self.k_min
    }

    pub closed spec fn spec_k_max(&self) -> usize {
        self.k_max
    }

    pub closed spec fn spec_l_min(&self) -> usize {
        self.l_min
    }

    pub closed spec fn spec_l_max(&self) -> usize {
        self.l_max
    }

    /// The bounds on the length of a string make a range that is not empty.
    pub open spec fn well_formed(&self) -> bool {
        1 <= self.spec_l_min() <= self.spec_l_max() < usize::MAX
    }

    /// The starts of every string of `string_length` activities that holds
    /// position `index` of a route of `route_length`, from the leftmost.
    pub fn compute_possible_string_start(
        string_length: usize,
        index: usize,
        route_length: usize,
    ) -> (r: Vec<usize>)
        requires
            string_length <= i64::MAX,
            index <= i64::MAX,
            index + string_length <= usize::MAX + 1,
        ensures
            forall|k: int|
                0 <= k < r@.len() ==> is_possible_string_start(
                    string_length as int,
                    index as int,
                    route_length as int,
                    #[trigger] r@[k] as int,
                ),
            forall|start: int|
                #[trigger] is_possible_string_start(
                    string_length as int,
                    index as int,
                    route_length as int,
                    start,
                ) ==> r@.contains(start as usize),
            forall|k1: int, k2: int| 0 <= k1 < k2 < r@.len() ==> r@[k1] < r@[k2],
    {
        let mut starts: Vec<usize> = Vec::new();
        let mut done: usize = 0;
        while done < string_length
            invariant
                done <= string_length,
                string_length <= i64::MAX,
                index <= i64::MAX,
                index + string_length <= usize::MAX + 1,
                forall|k: int|
                    0 <= k < starts@.len() ==> is_possible_string_start(
                        string_length as int,
                        index as int,
                        route_length as int,
                        #[trigger] starts@[k] as int,
                    ) && starts@[k] < index - string_length + done + 1,
                forall|start: int|
                    #[trigger] is_possible_string_start(
                        string_length as int,
                        index as int,
                        route_length as int,
                        start,
                    ) && start < index - string_length + done + 1 ==> starts@.contains(
                        start as usize,
                    ),
                forall|k1: int, k2: int| 0 <= k1 < k2 < starts@.len() ==> starts@[k1] < starts@[k2],
            decreases string_length - done,
        {
            let i = done + 1;
            let lower: i64 = index as i64 - (string_length as i64 - i as i64);
            let upper = index + (i - 1);
            let ghost prev = starts@;
            if lower >= 0 && upper < route_length {
                starts.push(lower as usize);
                assert(starts@[prev.len() as int] == index - string_length + i);
                assert forall|start: int|
                    #[trigger] is_possible_string_start(
                        string_length as int,
                        index as int,
                        route_length as int,
                        start,
                    ) && start < index - string_length + i + 1 implies starts@.contains(
                    start as usize,
                ) by {
                    if start == index - string_length + i {
                        assert(starts@[prev.len() as int] == start as usize);
                    } else {
                        assert(prev.contains(start as usize));
                        let k = choose|k: int| 0 <= k < prev.len() && prev[k] == start as usize;
                        assert(starts@[k] == prev[k]);
                    }
                }
            }
            done = done + 1;
        }
        starts
    }

    /// The length of the stretch kept inside a split string: none when the
    /// string is the whole route, else from one up to what the route leaves
    /// beside the string, each further activity kept with a chance of 99 in
    /// 100.
    pub fn compute_preserved_length(
        string_length: usize,
        route_length: usize,
        rng: &mut SmallRng,
    ) -> (r: usize)
        requires
            string_length <= route_length || string_length < usize::MAX,
        ensures
            string_length == route_length ==> r == 0,
            string_length < route_length ==> 1 <= r && string_length + r <= route_length,
            string_length > route_length ==> r == 1,
    {
        // Cannot preserve anything in this case
        if string_length == route_length {
            return 0;
        }
        let mut preserved_length: usize = 1;
        while string_length < route_length && preserved_length < route_length - string_length
            invariant
                string_length != route_length,
                1 <= preserved_length,
                string_length < route_length ==> string_length + preserved_length
                    <= route_length,
                string_length > route_length ==> preserved_length == 1,
            decreases route_length - preserved_length,
        {
            if random_ratio(rng, 1, 100) {
                return preserved_length;
            } else {
                preserved_length = preserved_length + 1;
            }
        }
        preserved_length
    }

    /// Removes one string of consecutive activities, of a length drawn
    /// between the bounds (and at most the whole route), around a position
    /// drawn at random.
    pub fn ruin_string(&self, solution: &mut WorkingSolution, rng: &mut SmallRng, route_id: RouteIdx)
        requires
            self.well_formed(),
            old(solution).valid_route(route_id),
            old(solution)@[route_id.0 as int].len() > 0,
            old(solution)@[route_id.0 as int].len() <= i64::MAX,
            2 * old(solution)@[route_id.0 as int].len() <= usize::MAX + 1,
        ensures
            final(solution).limits() == old(solution).limits(),
            final(solution)@.len() == old(solution)@.len(),
            forall|i: int|
                0 <= i < old(solution)@.len() && i != route_id.0 ==> final(solution)@[i]
                    == old(solution)@[i],
            ({
                let s = old(solution)@[route_id.0 as int];
                exists|start: int, length: int|
                    {
                        &&& 0 <= start
                        &&& start + length <= s.len()
                        &&& (if self.spec_l_min() < s.len() { self.spec_l_min() as int } else { s.len() as int }) <= length
                        &&& length <= self.spec_l_max()
                        &&& final(solution)@[route_id.0 as int] == #[trigger] remove_string_in(
                            s,
                            start,
                            length,
                        )
                    }
            }),
    {
        let ghost s = solution@[route_id.0 as int];
        let route = solution.route(route_id);
        let route_length = route.len();
        let drawn = random_range(rng, self.l_min, self.l_max + 1);
        let string_length = if drawn < route_length { drawn } else { route_length };
        let random_activity = random_range(rng, 0, route_length);
        let possible_starts = Self::compute_possible_string_start(
            string_length,
            random_activity,
            route_length,
        );
        let chosen = choose_item(possible_starts.as_slice(), rng);
        let start = match chosen {
            Some(start) => start,
            None => {
                let ghost w: int = if random_activity + string_length <= route_length {
                    random_activity as int
                } else {
                    route_length - string_length
                };
                assert(is_possible_string_start(
                    string_length as int,
                    random_activity as int,
                    route_length as int,
                    w,
                ));
                assert(possible_starts@.contains(w as usize));
                return;
            },
        };
        let ghost k = choose|k: int| 0 <= k < possible_starts@.len() && possible_starts@[k] == start;
        assert(possible_starts@[k] == start);
        let end = start + string_length;
        let mut position = start;
        while position < end
            invariant
                start <= position <= end,
                end == start + string_length,
                end <= route_length,
                route_length == s.len(),
                solution.valid_route(route_id),
                solution@.len() == old(solution)@.len(),
                solution.limits() == old(solution).limits(),
                s == old(solution)@[route_id.0 as int],
                forall|i: int|
                    0 <= i < old(solution)@.len() && i != route_id.0 ==> solution@[i]
                        == old(solution)@[i],
                solution@[route_id.0 as int] == s.subrange(0, start as int) + s.subrange(
                    position as int,
                    s.len() as int,
                ),
            decreases end - position,
        {
            // Always remove the start, as the start+1 becomes the start once start is removed
            solution.remove_activity(route_id, start);
            position = position + 1;
            assert(solution@[route_id.0 as int] =~= s.subrange(0, start as int) + s.subrange(
                position as int,
                s.len() as int,
            ));
        }
        assert(solution@[route_id.0 as int] == remove_string_in(
            s,
            start as int,
            string_length as int,
        ));
    }

    /// Removes a string of consecutive activities except a stretch inside it
    /// that is kept, the lengths and positions drawn at random.
    pub fn ruin_split_string(
        &self,
        solution: &mut WorkingSolution,
        rng: &mut SmallRng,
        route_id: RouteIdx,
    )
        requires
            self.well_formed(),
            old(solution).valid_route(route_id),
            old(solution)@[route_id.0 as int].len() > 0,
            old(solution)@[route_id.0 as int].len() <= i64::MAX,
            2 * old(solution)@[route_id.0 as int].len() <= usize::MAX + 1,
        ensures
            final(solution).limits() == old(solution).limits(),
            final(solution)@.len() == old(solution)@.len(),
            forall|i: int|
                0 <= i < old(solution)@.len() && i != route_id.0 ==> final(solution)@[i]
                    == old(solution)@[i],
            ({
                let s = old(solution)@[route_id.0 as int];
                exists|start: int, sop: int, length: int, kept: int|
                    {
                        &&& 0 <= start
                        &&& 0 <= sop < length
                        &&& 0 <= kept
                        &&& start + length + kept <= s.len()
                        &&& (if self.spec_l_min() < s.len() { self.spec_l_min() as int } else { s.len() as int }) <= length
                        &&& length <= self.spec_l_max()
                        &&& length == s.len() ==> kept == 0
                        &&& length < s.len() ==> 1 <= kept
                        &&& final(solution)@[route_id.0 as int] == #[trigger] remove_split_string_in(
                            s,
                            start,
                            sop,
                            length,
                            kept,
                        )
                    }
            }),
    {
        let route = solution.route(route_id);
        let route_length = route.len();
        let drawn = random_range(rng, self.l_min, self.l_max + 1);
        let string_length = if drawn < route_length { drawn } else { route_length };
        let preserved_string_length = Self::compute_preserved_length(
            string_length,
            route_length,
            rng,
        );
        let total_string_length = string_length + preserved_string_length;
        let random_activity = random_range(rng, 0, route_length);
        let possible_starts = Self::compute_possible_string_start(
            total_string_length,
            random_activity,
            route_length,
        );
        let chosen = choose_item(possible_starts.as_slice(), rng);
        let start = match chosen {
            Some(start) => start,
            None => {
                let ghost w: int = if random_activity + total_string_length <= route_length {
                    random_activity as int
                } else {
                    route_length - total_string_length
                };
                assert(is_possible_string_start(
                    total_string_length as int,
                    random_activity as int,
                    route_length as int,
                    w,
                ));
                assert(possible_starts@.contains(w as usize));
                return;
            },
        };
        let ghost k = choose|k: int| 0 <= k < possible_starts@.len() && possible_starts@[k] == start;
        assert(possible_starts@[k] == start);
        let start_of_preserved_string = random_range(rng, 0, string_length);
        self.remove_split_string(
            solution,
            RuinSplitStringParams {
                route_id,
                start,
                start_of_preserved_string,
                string_length,
                preserved_string_length,
            },
        );
    }

    /// Removes the string of `string_length + preserved_string_length`
    /// activities from `start`, except the `preserved_string_length` of them
    /// that begin `start_of_preserved_string` into it.
    pub fn remove_split_string(&self, solution: &mut WorkingSolution, params: RuinSplitStringParams)
        requires
            old(solution).valid_route(params.route_id),
            params.start_of_preserved_string < params.string_length,
            params.start + params.string_length + params.preserved_string_length <= old(
                solution,
            )@[params.route_id.0 as int].len(),
        ensures
            final(solution).limits() == old(solution).limits(),
            final(solution)@ == old(solution)@.update(
                params.route_id.0 as int,
                remove_split_string_in(
                    old(solution)@[params.route_id.0 as int],
                    params.start as int,
                    params.start_of_preserved_string as int,
                    params.string_length as int,
                    params.preserved_string_length as int,
                ),
            ),
    {
        let RuinSplitStringParams {
            route_id,
            start,
            start_of_preserved_string,
            string_length,
            preserved_string_length,
        } = params;
        let ghost s = solution@[route_id.0 as int];
        let _len = solution.route(route_id).len();
        let total_string_length = string_length + preserved_string_length;
        let mut preserved: usize = 0;
        let mut string_position: usize = 0;
        while string_position < total_string_length
            invariant
                string_position <= total_string_length,
                total_string_length == string_length + preserved_string_length,
                start_of_preserved_string < string_length,
                start + total_string_length <= s.len(),
                s.len() <= usize::MAX,
                s == old(solution)@[route_id.0 as int],
                solution.valid_route(route_id),
                solution.limits() == old(solution).limits(),
                solution@.len() == old(solution)@.len(),
                forall|i: int|
                    0 <= i < old(solution)@.len() && i != route_id.0 ==> solution@[i]
                        == old(solution)@[i],
                preserved == (if string_position <= start_of_preserved_string {
                    0
                } else if string_position <= start_of_preserved_string + preserved_string_length {
                    string_position - start_of_preserved_string
                } else {
                    preserved_string_length as int
                }),
                solution@[route_id.0 as int] == s.subrange(0, start as int) + s.subrange(
                    start + start_of_preserved_string,
                    start + start_of_preserved_string + preserved,
                ) + s.subrange(start + string_position, s.len() as int),
            decreases total_string_length - string_position,
        {
            if string_position >= start_of_preserved_string && string_position
                < start_of_preserved_string + preserved_string_length {
                preserved = preserved + 1;
                string_position = string_position + 1;
                assert(solution@[route_id.0 as int] =~= s.subrange(0, start as int) + s.subrange(
                    start + start_of_preserved_string,
                    start + start_of_preserved_string + preserved,
                ) + s.subrange(start + string_position, s.len() as int));
                continue;
            }
            solution.remove_activity(route_id, start + preserved);
            string_position = string_position + 1;
            assert(solution@[route_id.0 as int] =~= s.subrange(0, start as int) + s.subrange(
                start + start_of_preserved_string,
                start + start_of_preserved_string + preserved,
            ) + s.subrange(start + string_position, s.len() as int));
        }
        assert(solution@ =~= old(solution)@.update(
            route_id.0 as int,
            remove_split_string_in(
                s,
                start as int,
                start_of_preserved_string as int,
                string_length as int,
                preserved_string_length as int,
            ),
        ));
    }
}

/// A split-string removal takes `string_length + preserved_string_length`
/// activities out from `start` except exactly the
/// `preserved_string_length` of them that begin `start_of_preserved_string`
/// into the string: the route loses `string_length` activities, keeps those
/// before `start`, then the kept stretch in order, then everything after
/// the string.
pub proof fn law_split_string_keeps_its_preserved_stretch(
    s: Seq<ActivityId>,
    start: int,
    start_of_preserved_string: int,
    string_length: int,
    preserved_string_length: int,
)
    requires
        0 <= start,
        0 <= start_of_preserved_string < string_length,
        0 <= preserved_string_length,
        start + string_length + preserved_string_length <= s.len(),
    ensures
        ({
            let t = remove_split_string_in(
                s,
                start,
                start_of_preserved_string,
                string_length,
                preserved_string_length,
            );
            &&& t.len() == s.len() - string_length
            &&& forall|i: int| 0 <= i < start ==> t[i] == s[i]
            &&& forall|i: int|
                0 <= i < preserved_string_length ==> #[trigger] t[start + i] == s[start
                    + start_of_preserved_string + i]
            &&& forall|i: int|
                start + preserved_string_length <= i < t.len() ==> #[trigger] t[i] == s[i
                    + string_length]
        }),
{
}

/// Removing a string takes out exactly the `length` activities from
/// `start`: those before stay in place, those after move `length` places
/// forward.
pub proof fn law_string_removal_closes_the_gap(s: Seq<ActivityId>, start: int, length: int)
    requires
        0 <= start,
        0 <= length,
        start + length <= s.len(),
    ensures
        ({
            let t = remove_string_in(s, start, length);
            &&& t.len() == s.len() - length
            &&& forall|i: int| 0 <= i < start ==> #[trigger] t[i] == s[i]
            &&& forall|i: int| start <= i < t.len() ==> #[trigger] t[i] == s[i + length]
        }),
{
}

/// The possible starts of a string of `string_length >= 1` activities
/// holding position `index` are exactly the positions from
/// `index - string_length + 1` (but not below 0) to `index` (but not past
/// `route_length - string_length`).
pub proof fn law_possible_string_starts(
    string_length: int,
    index: int,
    route_length: int,
    start: int,
)
    requires
        string_length >= 1,
    ensures
        is_possible_string_start(string_length, index, route_length, start) <==> (0 <= start
            && index - string_length + 1 <= start && start <= index && start <= route_length
            - string_length),
        0 <= index < route_length && string_length <= route_length ==> exists|w: int|
            #[trigger] is_possible_string_start(string_length, index, route_length, w),
{
    if 0 <= index < route_length && string_length <= route_length {
        let w = if index + string_length <= route_length {
            index
        } else {
            route_length - string_length
        };
        assert(is_possible_string_start(string_length, index, route_length, w));
    }
}

} // verus!
