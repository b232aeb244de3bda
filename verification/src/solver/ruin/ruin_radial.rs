use vstd::prelude::*;

use crate::problem::job::{ActivityId, JobIdx};
use crate::solver::solution::{
    holds_job, law_removed_job_is_gone, law_removing_a_job_keeps_other_jobs_held,
    lemma_remove_absent_job, remove_job_from, WorkingSolution,
};

verus! {

/// The routes after taking out, in the order of `jobs`, each job that a
/// route holds, until `remaining` jobs are out or the list ends.
pub open spec fn radial_removal(
    routes: Seq<Seq<ActivityId>>,
    jobs: Seq<JobIdx>,
    remaining: nat,
) -> Seq<Seq<ActivityId>>
    decreases jobs.len(),
{
    if jobs.len() == 0 || remaining == 0 {
        routes
    } else if holds_job(routes, jobs[0]) {
        radial_removal(remove_job_from(routes, jobs[0]), jobs.drop_first(), (remaining - 1) as nat)
    } else {
        radial_removal(routes, jobs.drop_first(), remaining)
    }
}

/// Radial ruin: removes the jobs nearest to a location drawn at random.
pub struct RuinRadial;

impl RuinRadial {
    /// Takes out of the routes, nearest first, the jobs of `nearest_jobs`
    /// (the jobs in order of distance to the drawn location) until
    /// `num_jobs_to_remove` of them are out; a job that no route holds
    /// counts for nothing.
    pub fn ruin_solution(
        &self,
        solution: &mut WorkingSolution,
        nearest_jobs: &[JobIdx],
        num_jobs_to_remove: usize,
    )
        requires
            num_jobs_to_remove >= 1,
        ensures
            final(solution)@ == radial_removal(
                old(solution)@,
                nearest_jobs@,
                num_jobs_to_remove as nat,
            ),
            final(solution).limits() == old(solution).limits(),
    {
        let mut remaining_jobs_to_remove = num_jobs_to_remove;
        let mut k: usize = 0;
        assert(nearest_jobs@.subrange(0, nearest_jobs@.len() as int) =~= nearest_jobs@);
        while k < nearest_jobs.len() && remaining_jobs_to_remove > 0
            invariant
                k <= nearest_jobs@.len(),
                solution.limits() == old(solution).limits(),
                radial_removal(
                    solution@,
                    nearest_jobs@.subrange(k as int, nearest_jobs@.len() as int),
                    remaining_jobs_to_remove as nat,
                ) == radial_removal(old(solution)@, nearest_jobs@, num_jobs_to_remove as nat),
            decreases nearest_jobs@.len() - k,
        {
            let ghost rest = nearest_jobs@.subrange(k as int, nearest_jobs@.len() as int);
            let job_id = nearest_jobs[k];
            assert(rest[0] == job_id);
            assert(rest.drop_first() =~= nearest_jobs@.subrange(k + 1, nearest_jobs@.len() as int));
            let ghost before = solution@;
            let ghost remaining_before = remaining_jobs_to_remove as nat;
            if solution.remove_job(job_id) {
                remaining_jobs_to_remove = remaining_jobs_to_remove - 1;
            } else {
                proof {
                    lemma_remove_absent_job(before, job_id);
                }
            }
            assert(radial_removal(before, rest, remaining_before) == radial_removal(
                solution@,
                rest.drop_first(),
                remaining_jobs_to_remove as nat,
            ));
            k = k + 1;
        }
        let ghost rest = nearest_jobs@.subrange(k as int, nearest_jobs@.len() as int);
        assert(rest.len() == 0 || remaining_jobs_to_remove == 0);
    }
}

/// With a count of one, radial removal takes out the first job of the list
/// that a route holds, and that job only: every other job that was held is
/// still held.
pub proof fn law_radial_removal_takes_the_first_held_job(
    routes: Seq<Seq<ActivityId>>,
    jobs: Seq<JobIdx>,
    first: int,
)
    requires
        0 <= first < jobs.len(),
        holds_job(routes, jobs[first]),
        forall|k: int| 0 <= k < first ==> !holds_job(routes, #[trigger] jobs[k]),
    ensures
        !holds_job(radial_removal(routes, jobs, 1), jobs[first]),
        forall|j: JobIdx|
            j != jobs[first] && holds_job(routes, j) ==> #[trigger] holds_job(
                radial_removal(routes, jobs, 1),
                j,
            ),
    decreases first,
{
    if first == 0 {
        let after = remove_job_from(routes, jobs[0]);
        assert(radial_removal(after, jobs.drop_first(), 0) == after);
        law_removed_job_is_gone(routes, jobs[0]);
        assert forall|j: JobIdx| j != jobs[first] && holds_job(routes, j) implies #[trigger] holds_job(
            radial_removal(routes, jobs, 1),
            j,
        ) by {
            law_removing_a_job_keeps_other_jobs_held(routes, jobs[0], j);
        }
    } else {
        assert(!holds_job(routes, jobs[0]));
        let rest = jobs.drop_first();
        assert(rest[first - 1] == jobs[first]);
        assert forall|k: int| 0 <= k < first - 1 implies !holds_job(routes, #[trigger] rest[k]) by {
            assert(rest[k] == jobs[k + 1]);
        }
        law_radial_removal_takes_the_first_held_job(routes, rest, first - 1);
    }
}

/// Radial removal never takes out a job that is not on the list: every
/// activity of an unlisted job stays, as many times as it was there, in
/// each route.
pub proof fn law_radial_removal_keeps_unlisted_jobs(
    routes: Seq<Seq<ActivityId>>,
    jobs: Seq<JobIdx>,
    remaining: nat,
    a: ActivityId,
)
    requires
        !jobs.contains(a.spec_job_id()),
    ensures
        radial_removal(routes, jobs, remaining).len() == routes.len(),
        forall|k: int|
            0 <= k < routes.len() ==> (#[trigger] radial_removal(routes, jobs, remaining)[k]).to_multiset().count(a)
                == routes[k].to_multiset().count(a),
    decreases jobs.len(),
{
    if jobs.len() > 0 && remaining > 0 {
        let rest = jobs.drop_first();
        assert(!rest.contains(a.spec_job_id())) by {
            if rest.contains(a.spec_job_id()) {
                let q = choose|q: int| 0 <= q < rest.len() && rest[q] == a.spec_job_id();
                assert(jobs[q + 1] == a.spec_job_id());
            }
        }
        assert(jobs[0] != a.spec_job_id());
        if holds_job(routes, jobs[0]) {
            let after = remove_job_from(routes, jobs[0]);
            law_radial_removal_keeps_unlisted_jobs(after, rest, (remaining - 1) as nat, a);
            assert forall|k: int| 0 <= k < routes.len() implies after[k].to_multiset().count(a)
                == routes[k].to_multiset().count(a) by {
                crate::solver::solution::law_removing_a_job_keeps_the_others(routes[k], jobs[0], a);
            }
        } else {
            law_radial_removal_keeps_unlisted_jobs(routes, rest, remaining, a);
        }
    }
}

} // verus!
