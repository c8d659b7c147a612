//! The trigger generator: on each tick it enqueues one job per occurrence of
//! its schedule that fell due since the previous tick, so that a pause never
//! loses an occurrence (unless it is configured to coalesce them).
use crate::schedule::{fire_after, CronSchedule};
use crate::store::{enqueued, Job, JobStore};
use vstd::prelude::*;

verus! {

/// The fire times of `expr` in `(from, until]`, in increasing order.
pub open spec fn occurrences(expr: Seq<char>, from: u64, until: u64) -> Seq<u64>
    decreases until - from,
{
    match fire_after(expr, from) {
        Some(t) => if from < t && t <= until {
            seq![t] + occurrences(expr, t, until)
        } else {
            Seq::<u64>::empty()
        },
        None => Seq::<u64>::empty(),
    }
}

/// The fire times to enqueue: all of them, or only the latest when missed
/// occurrences are coalesced.
pub open spec fn targets(due: Seq<u64>, coalesce: bool) -> Seq<u64> {
    if coalesce && due.len() > 0 {
        seq![due.last()]
    } else {
        due
    }
}

/// The table after enqueuing a job for each fire time of `times` in turn;
/// the payload of each job is its fire time.
pub open spec fn enqueued_all(jobs: Seq<Job>, namespace: String, times: Seq<u64>) -> Seq<Job>
    decreases times.len(),
{
    if times.len() == 0 {
        jobs
    } else {
        let t = times.last();
        enqueued(enqueued_all(jobs, namespace, times.drop_last()), namespace, t, t)
    }
}

/// All fire times of `schedule` in `(from, until]`.
pub fn due_occurrences(schedule: &CronSchedule, from: u64, until: u64) -> (r: Vec<u64>)
    ensures
        r@ == occurrences(schedule@, from, until),
{
    let mut out: Vec<u64> = Vec::new();
    let mut t: u64 = from;
    loop
        invariant
            out@ + occurrences(schedule@, t, until) == occurrences(schedule@, from, until),
        ensures
            out@ == occurrences(schedule@, from, until),
        decreases until - t,
    {
        match schedule.next_fire(t) {
            Ok(n) => {
                if n <= until {
                    assert(occurrences(schedule@, t, until) == seq![n] + occurrences(schedule@, n, until));
                    assert(out@.push(n) + occurrences(schedule@, n, until) == out@ + (seq![n] + occurrences(schedule@, n, until)));
                    out.push(n);
                    t = n;
                } else {
                    assert(occurrences(schedule@, t, until) == Seq::<u64>::empty());
                    assert(out@ + Seq::<u64>::empty() == out@);
                    break;
                }
            },
            Err(_) => {
                assert(occurrences(schedule@, t, until) == Seq::<u64>::empty());
                assert(out@ + Seq::<u64>::empty() == out@);
                break;
            },
        }
    }
    out
}

/// Keeps every due fire time, or only the latest one when `coalesce`.
pub fn select_targets(due: Vec<u64>, coalesce: bool) -> (r: Vec<u64>)
    ensures
        r@ == targets(due@, coalesce),
{
    if coalesce && due.len() > 0 {
        let latest = due[due.len() - 1];
        let mut r: Vec<u64> = Vec::new();
        r.push(latest);
        r
    } else {
        due
    }
}

/// Enqueues a job for each fire time of `times`, its payload the fire time;
/// times that already have a job are skipped.
pub fn enqueue_times(store: &mut JobStore, namespace: &String, times: &Vec<u64>)
    ensures
        final(store).wf(),
        final(store)@ == enqueued_all(old(store)@, *namespace, times@),
{
    // `len` states the well-formedness the loop invariant starts from.
    let _ = store.len();
    let mut i: usize = 0;
    while i < times.len()
        invariant
            i <= times@.len(),
            store.wf(),
            store@ == enqueued_all(old(store)@, *namespace, times@.subrange(0, i as int)),
        decreases times@.len() - i,
    {
        let t = times[i];
        assert(times@.subrange(0, i + 1).drop_last() == times@.subrange(0, i as int));
        let _ = store.enqueue(namespace.clone(), t, t);
        i += 1;
    }
    assert(times@.subrange(0, times@.len() as int) == times@);
}

/// Turns the occurrences of one schedule into jobs of one namespace.
pub struct TriggerGenerator {
    pub namespace: String,
    pub schedule: CronSchedule,
    /// The latest fire time already handed to the store.
    pub last_fire: u64,
    /// Enqueue only the latest of several missed occurrences.
    pub coalesce_missed: bool,
}

/// The fire times that are due when `generator` ticks at `now`.
pub open spec fn due_at(generator: TriggerGenerator, now: u64) -> Seq<u64> {
    occurrences(generator.schedule@, generator.last_fire, now)
}

impl TriggerGenerator {
    /// A generator whose first occurrence is the first one after `start`.
    pub fn new(namespace: String, schedule: CronSchedule, start: u64, coalesce_missed: bool) -> (r: TriggerGenerator)
        ensures
            r.namespace == namespace,
            r.schedule@ == schedule@,
            r.last_fire == start,
            r.coalesce_missed == coalesce_missed,
    {
        TriggerGenerator { namespace, schedule, last_fire: start, coalesce_missed }
    }

    /// Enqueues the occurrences due since the previous tick up to `now`
    /// (only the latest when coalescing) and advances `last_fire` to the
    /// latest of them. Returns how many jobs were added.
    pub fn tick(&mut self, store: &mut JobStore, now: u64) -> (r: usize)
        ensures
            final(store).wf(),
            final(store)@ == enqueued_all(
                old(store)@,
                old(self).namespace,
                targets(due_at(*old(self), now), old(self).coalesce_missed),
            ),
            r == final(store)@.len() - old(store)@.len(),
            final(self).last_fire == if due_at(*old(self), now).len() > 0 {
                due_at(*old(self), now).last()
            } else {
                old(self).last_fire
            },
            final(self).namespace == old(self).namespace,
            final(self).schedule@ == old(self).schedule@,
            final(self).coalesce_missed == old(self).coalesce_missed,
    {
        let due = due_occurrences(&self.schedule, self.last_fire, now);
        let latest: Option<u64> = if due.len() > 0 { Some(due[due.len() - 1]) } else { None };
        let times = select_targets(due, self.coalesce_missed);
        let before = store.len();
        enqueue_times(store, &self.namespace, &times);
        proof {
            lemma_enqueued_all_grows(old(store)@, self.namespace, times@);
        }
        if let Some(t) = latest {
            self.last_fire = t;
        }
        store.len() - before
    }
}

/// Enqueuing never removes or changes a job.
pub proof fn lemma_enqueued_all_grows(jobs: Seq<Job>, namespace: String, times: Seq<u64>)
    ensures
        enqueued_all(jobs, namespace, times).len() >= jobs.len(),
        enqueued_all(jobs, namespace, times).subrange(0, jobs.len() as int) == jobs,
    decreases times.len(),
{
    if times.len() > 0 {
        lemma_enqueued_all_grows(jobs, namespace, times.drop_last());
        let prev = enqueued_all(jobs, namespace, times.drop_last());
        let t = times.last();
        assert(enqueued(prev, namespace, t, t).subrange(0, prev.len() as int) == prev);
        assert(enqueued(prev, namespace, t, t).subrange(0, jobs.len() as int) == prev.subrange(0, jobs.len() as int));
    }
}

} // verus!
