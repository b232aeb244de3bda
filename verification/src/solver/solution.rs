use vstd::prelude::*;

use crate::problem::job::{ActivityId, JobIdx};
use vstd::multiset::Multiset;

verus! {

/// `s` with the items in `[start, end)` replaced by `items`.
pub open spec fn splice<A>(s: Seq<A>, items: Seq<A>, start: int, end: int) -> Seq<A> {
    s.subrange(0, start) + items + s.subrange(end, s.len() as int)
}

/// Every activity of every route, as many times as it occurs.
pub open spec fn all_activities(routes: Seq<Seq<ActivityId>>) -> Multiset<ActivityId>
    decreases routes.len(),
{
    if routes.len() == 0 {
        Multiset::empty()
    } else {
        all_activities(routes.drop_last()).add(routes.last().to_multiset())
    }
}

/// Replacing route `i` by `t` takes the activities of the old route out of
/// the whole and puts those of `t` in.
pub proof fn lemma_all_activities_update(routes: Seq<Seq<ActivityId>>, i: int, t: Seq<ActivityId>)
    requires
        0 <= i < routes.len(),
    ensures
        all_activities(routes.update(i, t)).add(routes[i].to_multiset()) == all_activities(
            routes,
        ).add(t.to_multiset()),
    decreases routes.len(),
{
    broadcast use vstd::multiset::group_multiset_axioms;

    let u = routes.update(i, t);
    if i == routes.len() - 1 {
        assert(u.drop_last() =~= routes.drop_last());
        assert(all_activities(u).add(routes[i].to_multiset()) =~= all_activities(routes).add(
            t.to_multiset(),
        ));
    } else {
        let d = routes.drop_last();
        lemma_all_activities_update(d, i, t);
        assert(u.drop_last() =~= d.update(i, t));
        assert(u.last() == routes.last());
        assert(d[i] == routes[i]);
        let before = all_activities(d.update(i, t));
        assert(all_activities(u) == before.add(routes.last().to_multiset()));
        assert(all_activities(routes) == all_activities(d).add(routes.last().to_multiset()));
        assert(before.add(routes[i].to_multiset()) == all_activities(d).add(t.to_multiset()));
        let lhs = all_activities(u).add(routes[i].to_multiset());
        let rhs = all_activities(routes).add(t.to_multiset());
        assert forall|x: ActivityId| lhs.count(x) == rhs.count(x) by {
            assert(before.add(routes[i].to_multiset()).count(x) == all_activities(d).add(
                t.to_multiset(),
            ).count(x));
        }
        assert(lhs =~= rhs);
    }
}

/// The activities of `first` followed by those of `second`.
pub fn concat(first: &[ActivityId], second: &[ActivityId]) -> (r: Vec<ActivityId>)
    ensures
        r@ == first@ + second@,
{
    let mut out: Vec<ActivityId> = Vec::new();
    let mut k: usize = 0;
    while k < first.len()
        invariant
            k <= first@.len(),
            out@ == first@.subrange(0, k as int),
        decreases first@.len() - k,
    {
        out.push(first[k]);
        k = k + 1;
    }
    let mut j: usize = 0;
    while j < second.len()
        invariant
            j <= second@.len(),
            out@ == first@ + second@.subrange(0, j as int),
        decreases second@.len() - j,
    {
        out.push(second[j]);
        j = j + 1;
    }
    assert(first@.subrange(0, first@.len() as int) =~= first@);
    assert(second@.subrange(0, second@.len() as int) =~= second@);
    out
}

/// A route of `len` activities under the bound `limit` would hold more
/// activities than the bound once `incoming` activities take the place of
/// `outgoing` of its own.
pub open spec fn breaks_limit(len: int, limit: Option<usize>, incoming: int, outgoing: int) -> bool {
    match limit {
        Some(m) => len + incoming - outgoing > m,
        None => false,
    }
}

/// `s` without the activities of job `job`.
pub open spec fn without_job(s: Seq<ActivityId>, job: JobIdx) -> Seq<ActivityId>
    decreases s.len(),
{
    if s.len() == 0 {
        s
    } else {
        let rest = without_job(s.drop_last(), job);
        if s.last().spec_job_id() == job {
            rest
        } else {
            rest.push(s.last())
        }
    }
}

/// Some route holds an activity of job `job`.
pub open spec fn holds_job(routes: Seq<Seq<ActivityId>>, job: JobIdx) -> bool {
    exists|k: int, i: int|
        0 <= k < routes.len() && 0 <= i < routes[k].len() && (#[trigger] routes[k][i]).spec_job_id()
            == job
}

/// Taking out a job that no route holds leaves the routes as they are.
pub proof fn lemma_remove_absent_job(routes: Seq<Seq<ActivityId>>, job: JobIdx)
    requires
        !holds_job(routes, job),
    ensures
        remove_job_from(routes, job) == routes,
{
    assert forall|k: int| 0 <= k < routes.len() implies without_job(routes[k], job) == routes[k] by {
        assert forall|i: int| 0 <= i < routes[k].len() implies (#[trigger] routes[k][i]).spec_job_id()
            != job by {
            assert(!(0 <= k < routes.len() && 0 <= i < routes[k].len() && routes[k][i].spec_job_id()
                == job));
        }
        lemma_without_absent_job(routes[k], job);
    }
    assert(remove_job_from(routes, job) =~= routes);
}

/// Taking out of a route a job that it does not hold leaves it as it is.
proof fn lemma_without_absent_job(s: Seq<ActivityId>, job: JobIdx)
    requires
        forall|i: int| 0 <= i < s.len() ==> (#[trigger] s[i]).spec_job_id() != job,
    ensures
        without_job(s, job) == s,
    decreases s.len(),
{
    if s.len() > 0 {
        lemma_without_absent_job(s.drop_last(), job);
        assert(s.drop_last().push(s.last()) =~= s);
    }
}

/// Once a job is taken out, no route holds it.
pub proof fn law_removed_job_is_gone(routes: Seq<Seq<ActivityId>>, job: JobIdx)
    ensures
        !holds_job(remove_job_from(routes, job), job),
{
    let after = remove_job_from(routes, job);
    assert forall|k: int, i: int|
        0 <= k < after.len() && 0 <= i < after[k].len() implies (#[trigger] after[k][i]).spec_job_id()
        != job by {
        lemma_without_job_lacks_job(routes[k], job, i);
    }
}

/// Taking a job out of a route keeps every activity of the other jobs, as
/// many times each.
pub proof fn law_removing_a_job_keeps_the_others(s: Seq<ActivityId>, job: JobIdx, a: ActivityId)
    requires
        a.spec_job_id() != job,
    ensures
        without_job(s, job).to_multiset().count(a) == s.to_multiset().count(a),
        without_job(s, job).len() <= s.len(),
    decreases s.len(),
{
    broadcast use vstd::multiset::group_multiset_axioms;

    if s.len() > 0 {
        let d = s.drop_last();
        let x = s.last();
        law_removing_a_job_keeps_the_others(d, job, a);
        let rest = without_job(d, job);
        vstd::seq_lib::to_multiset_insert(d, d.len() as int, x);
        assert(d.insert(d.len() as int, x) =~= s);
        if x.spec_job_id() != job {
            vstd::seq_lib::to_multiset_insert(rest, rest.len() as int, x);
            assert(rest.insert(rest.len() as int, x) =~= rest.push(x));
        }
    }
}

/// Taking a job out leaves every other job that a route held still held.
pub proof fn law_removing_a_job_keeps_other_jobs_held(
    routes: Seq<Seq<ActivityId>>,
    removed: JobIdx,
    job: JobIdx,
)
    requires
        holds_job(routes, job),
        job != removed,
    ensures
        holds_job(remove_job_from(routes, removed), job),
{
    let (k, i) = choose|k: int, i: int|
        0 <= k < routes.len() && 0 <= i < routes[k].len() && (#[trigger] routes[k][i]).spec_job_id()
            == job;
    let a = routes[k][i];
    let t = without_job(routes[k], removed);
    law_removing_a_job_keeps_the_others(routes[k], removed, a);
    vstd::seq_lib::to_multiset_contains(routes[k], a);
    vstd::seq_lib::to_multiset_contains(t, a);
    assert(routes[k].contains(a));
    assert(t.contains(a));
    let q = choose|q: int| 0 <= q < t.len() && t[q] == a;
    let after = remove_job_from(routes, removed);
    assert(after[k] == t);
    assert(after[k][q].spec_job_id() == job);
}

/// No activity of `without_job(s, job)` belongs to `job`.
proof fn lemma_without_job_lacks_job(s: Seq<ActivityId>, job: JobIdx, i: int)
    requires
        0 <= i < without_job(s, job).len(),
    ensures
        without_job(s, job)[i].spec_job_id() != job,
    decreases s.len(),
{
    if s.len() > 0 {
        let rest = without_job(s.drop_last(), job);
        if i < rest.len() {
            lemma_without_job_lacks_job(s.drop_last(), job, i);
        }
    }
}

/// The routes without the activities of job `job`.
pub open spec fn remove_job_from(routes: Seq<Seq<ActivityId>>, job: JobIdx) -> Seq<
    Seq<ActivityId>,
> {
    Seq::new(routes.len(), |k: int| without_job(routes[k], job))
}

/// Index of a route in a solution.
#[derive(Clone, Copy, Debug, PartialEq, Eq, Hash, Structural)]
pub struct RouteIdx(pub usize);

impl RouteIdx {
    pub fn new(index: usize) -> (r: RouteIdx)
        ensures
            r.0 == index,
    {
        RouteIdx(index)
    }

    pub fn get(&self) -> (r: usize)
        ensures
            r == self.0,
    {
        self.0
    }
}

/// A route: the ordered activities that one vehicle performs, together with
/// the bound that its vehicle sets on their number, if any.
pub struct WorkingSolutionRoute {
    activity_ids: Vec<ActivityId>,
    maximum_activities: Option<usize>,
}

impl View for WorkingSolutionRoute {
    type V = Seq<ActivityId>;

    closed spec fn view(&self) -> Seq<ActivityId> {
        self.activity_ids@
    }
}

impl WorkingSolutionRoute {
    pub closed spec fn spec_maximum_activities(&self) -> Option<usize> {
        self.maximum_activities
    }

    /// True when the route would hold more activities than its vehicle allows
    /// once `count` more are added.
    pub open spec fn spec_will_break_maximum_activities(&self, count: int) -> bool {
        match self.spec_maximum_activities() {
            Some(m) => self@.len() + count > m,
            None => false,
        }
    }

    pub fn new(activity_ids: Vec<ActivityId>, maximum_activities: Option<usize>) -> (r: Self)
        ensures
            r@ == activity_ids@,
            r.spec_maximum_activities() == maximum_activities,
    {
        WorkingSolutionRoute { activity_ids, maximum_activities }
    }

    pub fn empty(maximum_activities: Option<usize>) -> (r: Self)
        ensures
            r@ == Seq::<ActivityId>::empty(),
            r.spec_maximum_activities() == maximum_activities,
    {
        WorkingSolutionRoute { activity_ids: Vec::new(), maximum_activities }
    }

    pub fn len(&self) -> (r: usize)
        ensures
            r == self@.len(),
    {
        self.activity_ids.len()
    }

    pub fn is_empty(&self) -> (r: bool)
        ensures
            r == (self@.len() == 0),
    {
        self.activity_ids.len() == 0
    }

    pub fn maximum_activities(&self) -> (r: Option<usize>)
        ensures
            r == self.spec_maximum_activities(),
    {
        self.maximum_activities
    }

    pub fn activity_ids(&self) -> (r: &Vec<ActivityId>)
        ensures
            r@ == self@,
    {
        &self.activity_ids
    }

    pub fn activity_id(&self, position: usize) -> (r: ActivityId)
        requires
            position < self@.len(),
        ensures
            r == self@[position as int],
    {
        self.activity_ids[position]
    }

    /// The activity at `position`, if there is one.
    pub fn get(&self, position: usize) -> (r: Option<ActivityId>)
        ensures
            position < self@.len() ==> r == Some(self@[position as int]),
            position >= self@.len() ==> r is None,
    {
        if position < self.activity_ids.len() {
            Some(self.activity_ids[position])
        } else {
            None
        }
    }

    /// The activities in `[start, end)`, in route order.
    pub fn activity_ids_iter(&self, start: usize, end: usize) -> (r: Vec<ActivityId>)
        requires
            start <= end <= self@.len(),
        ensures
            r@ == self@.subrange(start as int, end as int),
    {
        let mut out: Vec<ActivityId> = Vec::new();
        let mut k: usize = start;
        while k < end
            invariant
                start <= k <= end <= self.activity_ids@.len(),
                out@ == self.activity_ids@.subrange(start as int, k as int),
            decreases end - k,
        {
            out.push(self.activity_ids[k]);
            k = k + 1;
        }
        out
    }

    /// Position of `activity` in the route, if it is there.
    pub fn job_position(&self, activity: ActivityId) -> (r: Option<usize>)
        ensures
            r matches Some(p) ==> p < self@.len() && self@[p as int] == activity && forall|
                q: int,
            |
                0 <= q < p ==> self@[q] != activity,
            r is None ==> !self@.contains(activity),
    {
        let mut k: usize = 0;
        while k < self.activity_ids.len()
            invariant
                k <= self.activity_ids@.len(),
                forall|q: int| 0 <= q < k ==> self.activity_ids@[q] != activity,
            decreases self.activity_ids@.len() - k,
        {
            if self.activity_ids[k] == activity {
                return Some(k);
            }
            k = k + 1;
        }
        None
    }

    /// True when the route already holds as many activities as its vehicle
    /// allows.
    pub fn has_maximum_activities(&self) -> (r: bool)
        ensures
            r == self.spec_will_break_maximum_activities(1),
    {
        match self.maximum_activities {
            Some(m) => self.activity_ids.len() >= m,
            None => false,
        }
    }

    /// True when the route would hold more activities than its vehicle
    /// allows once `incoming` activities take the place of `outgoing` of its
    /// own.
    pub fn will_break_maximum_activities_after(&self, incoming: usize, outgoing: usize) -> (r: bool)
        requires
            outgoing <= self@.len(),
        ensures
            r == breaks_limit(
                self@.len() as int,
                self.spec_maximum_activities(),
                incoming as int,
                outgoing as int,
            ),
    {
        match self.maximum_activities {
            Some(m) => {
                let kept = self.activity_ids.len() - outgoing;
                kept > m || incoming > m - kept
            },
            None => false,
        }
    }

    /// True when adding `count` activities would exceed the bound of the
    /// vehicle.
    pub fn will_break_maximum_activities(&self, count: usize) -> (r: bool)
        ensures
            r == self.spec_will_break_maximum_activities(count as int),
    {
        match self.maximum_activities {
            Some(m) => {
                let len = self.activity_ids.len();
                len > m || count > m - len
            },
            None => false,
        }
    }

    /// Replaces the activities in `[start, end)` by `activities`.
    pub fn replace_activities(&mut self, activities: &[ActivityId], start: usize, end: usize)
        requires
            start <= end <= old(self)@.len(),
        ensures
            final(self)@ == splice(old(self)@, activities@, start as int, end as int),
            final(self).spec_maximum_activities() == old(self).spec_maximum_activities(),
    {
        let ghost s = self.activity_ids@;
        let mut out: Vec<ActivityId> = Vec::new();
        let mut k: usize = 0;
        while k < start
            invariant
                k <= start <= end <= s.len(),
                s == self.activity_ids@,
                out@ == s.subrange(0, k as int),
            decreases start - k,
        {
            out.push(self.activity_ids[k]);
            k = k + 1;
        }
        let mut j: usize = 0;
        while j < activities.len()
            invariant
                j <= activities@.len(),
                out@ == s.subrange(0, start as int) + activities@.subrange(0, j as int),
            decreases activities@.len() - j,
        {
            out.push(activities[j]);
            j = j + 1;
        }
        assert(activities@.subrange(0, activities@.len() as int) =~= activities@);
        let len = self.activity_ids.len();
        let mut k: usize = end;
        while k < len
            invariant
                start <= end <= k <= len,
                len == s.len(),
                s == self.activity_ids@,
                out@ == s.subrange(0, start as int) + activities@ + s.subrange(end as int, k as int),
            decreases len - k,
        {
            out.push(self.activity_ids[k]);
            k = k + 1;
        }
        self.activity_ids = out;
    }

    /// Removes every activity of job `job`; tells whether there was one.
    pub fn remove_job(&mut self, job: JobIdx) -> (r: bool)
        ensures
            final(self)@ == without_job(old(self)@, job),
            r == exists|i: int| 0 <= i < old(self)@.len() && (#[trigger] old(self)@[i]).spec_job_id() == job,
            final(self).spec_maximum_activities() == old(self).spec_maximum_activities(),
    {
        let ghost s = self.activity_ids@;
        let mut kept: Vec<ActivityId> = Vec::new();
        let mut found = false;
        let mut k: usize = 0;
        while k < self.activity_ids.len()
            invariant
                k <= s.len(),
                s == self.activity_ids@,
                kept@ == without_job(s.subrange(0, k as int), job),
                found == exists|i: int| 0 <= i < k && (#[trigger] s[i]).spec_job_id() == job,
            decreases s.len() - k,
        {
            let a = self.activity_ids[k];
            assert(s.subrange(0, k + 1).drop_last() =~= s.subrange(0, k as int));
            if a.job_id() == job {
                found = true;
            } else {
                kept.push(a);
            }
            k = k + 1;
        }
        assert(s.subrange(0, s.len() as int) =~= s);
        self.activity_ids = kept;
        found
    }

    /// Removes the activity at `position`.
    pub fn remove(&mut self, position: usize) -> (r: ActivityId)
        requires
            position < old(self)@.len(),
        ensures
            r == old(self)@[position as int],
            final(self)@ == old(self)@.remove(position as int),
            final(self).spec_maximum_activities() == old(self).spec_maximum_activities(),
    {
        self.activity_ids.remove(position)
    }

    /// Inserts `activity` at `position`.
    pub fn insert(&mut self, position: usize, activity: ActivityId)
        requires
            position <= old(self)@.len(),
        ensures
            final(self)@ == old(self)@.insert(position as int, activity),
            final(self).spec_maximum_activities() == old(self).spec_maximum_activities(),
    {
        self.activity_ids.insert(position, activity);
    }
}

/// The routes of a solution.
pub struct WorkingSolution {
    routes: Vec<WorkingSolutionRoute>,
}

impl View for WorkingSolution {
    type V = Seq<Seq<ActivityId>>;

    closed spec fn view(&self) -> Seq<Seq<ActivityId>> {
        Seq::new(self.routes@.len(), |i: int| self.routes@[i]@)
    }
}

impl WorkingSolution {
    /// The bound on the number of activities of each route.
    pub closed spec fn limits(&self) -> Seq<Option<usize>> {
        Seq::new(self.routes@.len(), |i: int| self.routes@[i].spec_maximum_activities())
    }

    pub open spec fn valid_route(&self, route_id: RouteIdx) -> bool {
        route_id.0 < self@.len()
    }

    pub proof fn lemma_limits_len(&self)
        ensures
            self.limits().len() == self@.len(),
    {
    }

    pub fn new(routes: Vec<WorkingSolutionRoute>) -> (r: Self)
        ensures
            r@.len() == routes@.len(),
            forall|i: int| 0 <= i < routes@.len() ==> r@[i] == routes@[i]@,
            forall|i: int|
                0 <= i < routes@.len() ==> r.limits()[i]
                    == routes@[i].spec_maximum_activities(),
            r.limits().len() == routes@.len(),
    {
        WorkingSolution { routes }
    }

    pub fn routes(&self) -> (r: &Vec<WorkingSolutionRoute>)
        ensures
            r@.len() == self@.len(),
            forall|i: int| 0 <= i < r@.len() ==> r@[i]@ == self@[i],
            forall|i: int|
                0 <= i < r@.len() ==> r@[i].spec_maximum_activities() == self.limits()[i],
    {
        &self.routes
    }

    pub fn len(&self) -> (r: usize)
        ensures
            r == self@.len(),
    {
        self.routes.len()
    }

    pub fn route(&self, route_id: RouteIdx) -> (r: &WorkingSolutionRoute)
        requires
            self.valid_route(route_id),
        ensures
            r@ == self@[route_id.0 as int],
            r@.len() <= usize::MAX,
            r.spec_maximum_activities() == self.limits()[route_id.0 as int],
    {
        let r = &self.routes[route_id.0];
        let _len = r.len();
        r
    }

    /// Replaces the activities in `[start, end)` of a route by `activities`.
    pub fn replace_activities(
        &mut self,
        route_id: RouteIdx,
        activities: &[ActivityId],
        start: usize,
        end: usize,
    )
        requires
            old(self).valid_route(route_id),
            start <= end <= old(self)@[route_id.0 as int].len(),
        ensures
            final(self)@ == old(self)@.update(
                route_id.0 as int,
                splice(old(self)@[route_id.0 as int], activities@, start as int, end as int),
            ),
            final(self).limits() == old(self).limits(),
    {
        let i = route_id.0;
        let route = &mut self.routes[i];
        route.replace_activities(activities, start, end);
        assert(self@ =~= old(self)@.update(
            route_id.0 as int,
            splice(old(self)@[route_id.0 as int], activities@, start as int, end as int),
        ));
        assert(self.limits() =~= old(self).limits());
    }

    /// Removes the activity at `position` of a route.
    pub fn remove_activity(&mut self, route_id: RouteIdx, position: usize) -> (r: ActivityId)
        requires
            old(self).valid_route(route_id),
            position < old(self)@[route_id.0 as int].len(),
        ensures
            r == old(self)@[route_id.0 as int][position as int],
            final(self)@ == old(self)@.update(
                route_id.0 as int,
                old(self)@[route_id.0 as int].remove(position as int),
            ),
            final(self).limits() == old(self).limits(),
    {
        let i = route_id.0;
        let route = &mut self.routes[i];
        let r = route.remove(position);
        assert(self@ =~= old(self)@.update(
            route_id.0 as int,
            old(self)@[route_id.0 as int].remove(position as int),
        ));
        assert(self.limits() =~= old(self).limits());
        r
    }

    /// Removes every activity of job `job` from the routes; tells whether
    /// a route held one.
    pub fn remove_job(&mut self, job: JobIdx) -> (r: bool)
        ensures
            final(self)@ == remove_job_from(old(self)@, job),
            r == holds_job(old(self)@, job),
            final(self).limits() == old(self).limits(),
    {
        let n = self.routes.len();
        let mut found = false;
        let mut k: usize = 0;
        while k < n
            invariant
                k <= n,
                n == old(self)@.len(),
                self@.len() == n,
                self.limits() == old(self).limits(),
                forall|j: int| 0 <= j < k ==> self@[j] == without_job(old(self)@[j], job),
                forall|j: int| k <= j < n ==> self@[j] == old(self)@[j],
                found == exists|j: int, i: int|
                    0 <= j < k && 0 <= i < old(self)@[j].len() && (#[trigger] old(
                        self,
                    )@[j][i]).spec_job_id() == job,
            decreases n - k,
        {
            let ghost before = self@;
            let ghost limits_before = self.limits();
            let route = &mut self.routes[k];
            let here = route.remove_job(job);
            assert(self@ =~= before.update(k as int, without_job(before[k as int], job)));
            assert(self.limits() =~= limits_before);
            if here {
                found = true;
            }
            k = k + 1;
        }
        assert(self@ =~= remove_job_from(old(self)@, job));
        found
    }

    /// Inserts `activity` at `position` of a route.
    pub fn insert_activity(&mut self, route_id: RouteIdx, position: usize, activity: ActivityId)
        requires
            old(self).valid_route(route_id),
            position <= old(self)@[route_id.0 as int].len(),
        ensures
            final(self)@ == old(self)@.update(
                route_id.0 as int,
                old(self)@[route_id.0 as int].insert(position as int, activity),
            ),
            final(self).limits() == old(self).limits(),
    {
        let i = route_id.0;
        let route = &mut self.routes[i];
        route.insert(position, activity);
        assert(self@ =~= old(self)@.update(
            route_id.0 as int,
            old(self)@[route_id.0 as int].insert(position as int, activity),
        ));
        assert(self.limits() =~= old(self).limits());
    }
}

} // verus!
