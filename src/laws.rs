//! Properties of the queue that relate several operations, proved over the
//! relations the operations' contracts state.
use crate::retry::{decision_for, RetryPolicy};
use crate::schedule::fire_after;
use crate::store::{
    acknowledge_post, enqueued, failed_job, has_key, jobs_wf, lease_post, leasable, leased_job,
    Job, JobStatus, StoreError,
};
use crate::trigger::{due_at, enqueued_all, occurrences, targets, TriggerGenerator};
use vstd::prelude::*;

verus! {

/// Job `k` of `jobs` is keyed by `ns` and `t`.
pub open spec fn keyed(jobs: Seq<Job>, k: int, ns: Seq<char>, t: u64) -> bool {
    0 <= k < jobs.len() && jobs[k].namespace@ == ns && jobs[k].scheduled_for == t
}

/// Enqueuing the same namespace and fire time twice leaves exactly one job
/// with that key; the second enqueue changes nothing, and a key that was new
/// belongs to a pending job.
pub proof fn law_enqueue_dedup(jobs: Seq<Job>, ns: String, t: u64, p1: u64, p2: u64)
    requires
        jobs_wf(jobs),
    ensures
        enqueued(enqueued(jobs, ns, t, p1), ns, t, p2) == enqueued(jobs, ns, t, p1),
        exists|i: int|
            keyed(enqueued(jobs, ns, t, p1), i, ns@, t) && forall|k: int|
                keyed(enqueued(jobs, ns, t, p1), k, ns@, t) ==> k == i,
        !has_key(jobs, ns@, t) ==> enqueued(jobs, ns, t, p1).last().status == JobStatus::Pending,
{
    let e1 = enqueued(jobs, ns, t, p1);
    if has_key(jobs, ns@, t) {
        let i = choose|i: int| 0 <= i < jobs.len() && #[trigger] jobs[i].namespace@ == ns@ && jobs[i].scheduled_for == t;
        assert forall|k: int| keyed(e1, k, ns@, t) implies k == i by {
            if k != i {
                assert(!crate::store::same_key(jobs[i], jobs[k]));
            }
        }
        assert(keyed(e1, i, ns@, t));
    } else {
        let i = jobs.len() as int;
        assert(e1[i].namespace@ == ns@);
        assert(has_key(e1, ns@, t));
        assert forall|k: int| keyed(e1, k, ns@, t) implies k == i by {
            if k < i {
                assert(e1[k] == jobs[k]);
            }
        }
        assert(keyed(e1, i, ns@, t));
    }
}

/// While a job's lease has not expired, no other lease can take it: a lease
/// at any instant up to the expiry picks another job or none.
pub proof fn law_mutual_exclusion(
    s0: Seq<Job>,
    s1: Seq<Job>,
    ns: Seq<char>,
    worker: u64,
    duration: u64,
    now: u64,
    j: Job,
    s2: Seq<Job>,
    ns2: Seq<char>,
    worker2: u64,
    duration2: u64,
    now2: u64,
    r2: Option<Job>,
)
    requires
        jobs_wf(s0),
        lease_post(s0, s1, ns, worker, duration, now, Some(j)),
        now2 <= j.lease_expires_at->0,
        lease_post(s1, s2, ns2, worker2, duration2, now2, r2),
    ensures
        r2 matches Some(j2) ==> j2.id != j.id,
        !leasable(s1[j.id as int], ns2, now2),
{
}

/// A leased job that is neither acknowledged nor failed becomes leasable
/// again strictly after its lease expires, and not before; a lease after
/// that instant then finds a job.
pub proof fn law_lease_recovery(
    jobs: Seq<Job>,
    i: int,
    ns: Seq<char>,
    now: u64,
    after: Seq<Job>,
    worker: u64,
    duration: u64,
    r: Option<Job>,
)
    requires
        0 <= i < jobs.len(),
        jobs[i].status == JobStatus::Leased,
        jobs[i].lease_expires_at is Some,
        jobs[i].namespace@ == ns,
        lease_post(jobs, after, ns, worker, duration, now, r),
    ensures
        leasable(jobs[i], ns, now) <==> now > jobs[i].lease_expires_at->0,
        now > jobs[i].lease_expires_at->0 ==> r is Some,
{
    if now > jobs[i].lease_expires_at->0 {
        assert(leasable(jobs[i], ns, now));
    }
}

/// The job after each attempt in `attempts` (a worker, an instant and an
/// error message) was leased and then failed.
pub open spec fn failing_run(j: Job, policy: RetryPolicy, duration: u64, attempts: Seq<(u64, u64, String)>) -> Job
    decreases attempts.len(),
{
    if attempts.len() == 0 {
        j
    } else {
        let prev = failing_run(j, policy, duration, attempts.drop_last());
        let (worker, now, error) = attempts.last();
        let leased = leased_job(prev, worker, now, duration);
        failed_job(leased, error, decision_for(policy, leased.attempts), now)
    }
}

/// A fresh job whose every attempt fails is pending after fewer than
/// `max_attempts` attempts and failed after exactly `max_attempts`; a failed
/// job is never leased again.
pub proof fn law_retry_bound(j: Job, policy: RetryPolicy, duration: u64, attempts: Seq<(u64, u64, String)>)
    requires
        j.status == JobStatus::Pending,
        j.attempts == 0,
        1 <= policy.max_attempts,
        attempts.len() <= policy.max_attempts,
    ensures
        failing_run(j, policy, duration, attempts).attempts == attempts.len(),
        failing_run(j, policy, duration, attempts).status == if attempts.len() < policy.max_attempts {
            JobStatus::Pending
        } else {
            JobStatus::Failed
        },
        attempts.len() == policy.max_attempts ==> forall|ns: Seq<char>, now: u64|
            !leasable(#[trigger] failing_run(j, policy, duration, attempts), ns, now),
    decreases attempts.len(),
{
    if attempts.len() > 0 {
        law_retry_bound(j, policy, duration, attempts.drop_last());
    }
}

proof fn lemma_enqueued_keeps_and_adds(jobs: Seq<Job>, ns: String, t: u64, p: u64)
    ensures
        has_key(enqueued(jobs, ns, t, p), ns@, t),
        enqueued(jobs, ns, t, p).len() >= jobs.len(),
        forall|k: int| 0 <= k < jobs.len() ==> enqueued(jobs, ns, t, p)[k] == jobs[k],
{
    if !has_key(jobs, ns@, t) {
        let e = enqueued(jobs, ns, t, p);
        assert(e[jobs.len() as int].namespace@ == ns@);
    }
}

/// After enqueuing every time of `times`, each of them has a job, and the
/// jobs that were there stay.
pub proof fn lemma_enqueued_all_has_keys(jobs: Seq<Job>, ns: String, times: Seq<u64>)
    ensures
        forall|k: int| 0 <= k < times.len() ==> has_key(enqueued_all(jobs, ns, times), ns@, #[trigger] times[k]),
        enqueued_all(jobs, ns, times).len() >= jobs.len(),
        forall|k: int| 0 <= k < jobs.len() ==> #[trigger] enqueued_all(jobs, ns, times)[k] == jobs[k],
    decreases times.len(),
{
    if times.len() > 0 {
        let rest = times.drop_last();
        lemma_enqueued_all_has_keys(jobs, ns, rest);
        let prev = enqueued_all(jobs, ns, rest);
        let t = times.last();
        lemma_enqueued_keeps_and_adds(prev, ns, t, t);
        let e = enqueued_all(jobs, ns, times);
        assert forall|k: int| 0 <= k < times.len() implies has_key(e, ns@, #[trigger] times[k]) by {
            if k < times.len() - 1 {
                assert(rest[k] == times[k]);
                assert(has_key(prev, ns@, rest[k]));
                let w = choose|w: int| 0 <= w < prev.len() && #[trigger] prev[w].namespace@ == ns@ && prev[w].scheduled_for == rest[k];
                assert(e[w] == prev[w]);
            }
        }
    }
}

/// Every job that enqueuing `times` adds is keyed by `ns` and one of
/// `times`, and it adds at most one job per time.
pub proof fn lemma_enqueued_all_adds_only(jobs: Seq<Job>, ns: String, times: Seq<u64>)
    ensures
        enqueued_all(jobs, ns, times).len() <= jobs.len() + times.len(),
        forall|k: int|
            jobs.len() <= k < enqueued_all(jobs, ns, times).len() ==> {
                &&& (#[trigger] enqueued_all(jobs, ns, times)[k]).namespace@ == ns@
                &&& times.contains(enqueued_all(jobs, ns, times)[k].scheduled_for)
            },
    decreases times.len(),
{
    if times.len() > 0 {
        let rest = times.drop_last();
        lemma_enqueued_all_adds_only(jobs, ns, rest);
        lemma_enqueued_all_has_keys(jobs, ns, rest);
        let prev = enqueued_all(jobs, ns, rest);
        let t = times.last();
        let e = enqueued_all(jobs, ns, times);
        lemma_enqueued_keeps_and_adds(prev, ns, t, t);
        assert forall|k: int| jobs.len() <= k < e.len() implies {
            &&& (#[trigger] e[k]).namespace@ == ns@
            &&& times.contains(e[k].scheduled_for)
        } by {
            if k < prev.len() {
                assert(e[k] == prev[k]);
                let x = prev[k].scheduled_for;
                let w = choose|w: int| 0 <= w < rest.len() && rest[w] == x;
                assert(times[w] == rest[w]);
            } else {
                assert(times[times.len() - 1] == t);
            }
        }
    }
}

/// A generator that was paused across two occurrences `a` and `b` enqueues
/// both when it next ticks; when it coalesces missed occurrences it
/// enqueues only the latest due one.
pub proof fn law_catch_up(jobs: Seq<Job>, g: TriggerGenerator, now: u64, a: u64, b: u64)
    requires
        jobs_wf(jobs),
        fire_after(g.schedule@, g.last_fire) == Some(a),
        fire_after(g.schedule@, a) == Some(b),
        g.last_fire < a < b <= now,
    ensures
        !g.coalesce_missed ==> {
            &&& has_key(enqueued_all(jobs, g.namespace, targets(due_at(g, now), g.coalesce_missed)), g.namespace@, a)
            &&& has_key(enqueued_all(jobs, g.namespace, targets(due_at(g, now), g.coalesce_missed)), g.namespace@, b)
        },
        g.coalesce_missed ==> {
            let latest = due_at(g, now).last();
            &&& b <= latest
            &&& has_key(enqueued_all(jobs, g.namespace, targets(due_at(g, now), true)), g.namespace@, latest)
            &&& enqueued_all(jobs, g.namespace, targets(due_at(g, now), true)).len() <= jobs.len() + 1
            &&& forall|k: int|
                jobs.len() <= k < enqueued_all(jobs, g.namespace, targets(due_at(g, now), true)).len()
                    ==> (#[trigger] enqueued_all(jobs, g.namespace, targets(due_at(g, now), true))[k]).scheduled_for
                    == latest
        },
{
    let e = g.schedule@;
    let due = due_at(g, now);
    assert(occurrences(e, a, now) == seq![b] + occurrences(e, b, now));
    assert(due == seq![a] + occurrences(e, a, now));
    assert(due[0] == a);
    assert(due[1] == b);
    lemma_occurrences_increasing(e, b, now);
    let ts = targets(due, g.coalesce_missed);
    lemma_enqueued_all_has_keys(jobs, g.namespace, ts);
    if !g.coalesce_missed {
        assert(ts[0] == a);
        assert(ts[1] == b);
    } else {
        assert(ts[0] == due.last());
        lemma_enqueued_all_adds_only(jobs, g.namespace, ts);
        if due.len() > 2 {
            let rest = occurrences(e, b, now);
            assert(due.last() == rest.last());
        }
        let en = enqueued_all(jobs, g.namespace, ts);
        assert forall|k: int| jobs.len() <= k < en.len() implies (#[trigger] en[k]).scheduled_for == due.last() by {
            assert(ts.contains(en[k].scheduled_for));
        }
    }
}

/// Every occurrence after `from` is later than `from`.
pub proof fn lemma_occurrences_increasing(e: Seq<char>, from: u64, until: u64)
    ensures
        forall|k: int| 0 <= k < occurrences(e, from, until).len() ==> #[trigger] occurrences(e, from, until)[k] > from,
    decreases until - from,
{
    match fire_after(e, from) {
        Some(t) => if from < t && t <= until {
            lemma_occurrences_increasing(e, t, until);
            let o = occurrences(e, from, until);
            assert forall|k: int| 0 <= k < o.len() implies #[trigger] o[k] > from by {
                if k > 0 {
                    assert(o[k] == occurrences(e, t, until)[k - 1]);
                }
            }
        },
        None => {},
    }
}

/// Acknowledging a job twice is the same as once: when the first call
/// succeeds, the second succeeds too and changes nothing, the attempt
/// count included.
pub proof fn law_acknowledge_idempotent(
    s0: Seq<Job>,
    s1: Seq<Job>,
    s2: Seq<Job>,
    id: u64,
    r1: Result<(), StoreError>,
    r2: Result<(), StoreError>,
)
    requires
        acknowledge_post(s0, s1, id, r1),
        r1 is Ok,
        acknowledge_post(s1, s2, id, r2),
    ensures
        r2 is Ok,
        s2 == s1,
        s1[id as int].status == JobStatus::Succeeded,
        s1[id as int].attempts == s0[id as int].attempts,
{
}

} // verus!
