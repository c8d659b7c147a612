//! A worker's decisions. The loop around them (running the handler under a
//! deadline, sleeping between polls) belongs to the caller: it asks `poll`
//! what to do next and hands the handler's outcome to `report`.
use crate::retry::{Decision, RetryPolicy};
use crate::store::{acknowledge_post, fail_post, lease_post, Job, JobStore, StoreError};
use vstd::prelude::*;

verus! {

/// The error recorded when a handler outlives its lease.
pub open spec fn deadline_message() -> Seq<char> {
    "deadline exceeded"@
}

/// How an execution of a job ended.
pub enum Outcome {
    Success,
    /// The handler failed with this message.
    Error(String),
    /// The handler did not finish before the lease expired.
    DeadlineExceeded,
}

/// What a worker does next.
pub enum Step {
    /// Run the handler on this job, finishing before its lease expires.
    Execute(Job),
    /// Nothing to do: sleep this many seconds, then poll again.
    Sleep(u64),
}

/// One worker of a namespace.
pub struct Worker {
    pub id: u64,
    pub namespace: String,
    /// How long a lease lasts, which is also the handler's deadline.
    pub lease_duration: u64,
    /// How long to sleep when there is nothing to do.
    pub poll_interval: u64,
}

/// The job a step executes, if any.
pub open spec fn step_job(s: Step) -> Option<Job> {
    match s {
        Step::Execute(j) => Some(j),
        Step::Sleep(_) => None,
    }
}

impl Worker {
    pub fn new(id: u64, namespace: String, lease_duration: u64, poll_interval: u64) -> (r: Worker)
        ensures
            r.id == id,
            r.namespace == namespace,
            r.lease_duration == lease_duration,
            r.poll_interval == poll_interval,
    {
        Worker { id, namespace, lease_duration, poll_interval }
    }

    /// Leases the next job of the worker's namespace; with none leasable
    /// the worker sleeps for its poll interval.
    pub fn poll(&self, store: &mut JobStore, now: u64) -> (r: Step)
        ensures
            final(store).wf(),
            lease_post(old(store)@, final(store)@, self.namespace@, self.id, self.lease_duration, now, step_job(r)),
            r matches Step::Sleep(d) ==> d == self.poll_interval,
    {
        match store.lease(&self.namespace, self.id, self.lease_duration, now) {
            Some(job) => Step::Execute(job),
            None => Step::Sleep(self.poll_interval),
        }
    }

    /// Records how the execution of job `job_id` ended: success
    /// acknowledges it; a handler error or a missed deadline fails it
    /// through the retry policy, whose decision comes back.
    pub fn report(
        &self,
        store: &mut JobStore,
        job_id: u64,
        outcome: Outcome,
        policy: &RetryPolicy,
        now: u64,
    ) -> (r: Result<Option<Decision>, StoreError>)
        ensures
            final(store).wf(),
            match outcome {
                Outcome::Success => acknowledge_post(
                    old(store)@,
                    final(store)@,
                    job_id,
                    match r {
                        Ok(_) => Ok::<(), StoreError>(()),
                        Err(e) => Err(e),
                    },
                ) && (r matches Ok(d) ==> d is None),
                Outcome::Error(message) => exists|d: Result<Decision, StoreError>|
                    fail_post(old(store)@, final(store)@, job_id, message, *policy, now, d) && r == match d {
                        Ok(x) => Ok::<Option<Decision>, StoreError>(Some(x)),
                        Err(e) => Err(e),
                    },
                Outcome::DeadlineExceeded => exists|e: String, d: Result<Decision, StoreError>|
                    e@ == deadline_message() && fail_post(old(store)@, final(store)@, job_id, e, *policy, now, d)
                        && r == match d {
                        Ok(x) => Ok::<Option<Decision>, StoreError>(Some(x)),
                        Err(e) => Err(e),
                    },
            },
    {
        let error = match outcome {
            Outcome::Success => {
                return match store.acknowledge(job_id) {
                    Ok(()) => Ok(None),
                    Err(e) => Err(e),
                };
            },
            Outcome::Error(message) => message,
            Outcome::DeadlineExceeded => "deadline exceeded".to_string(),
        };
        let d = store.fail(job_id, error, policy, now);
        match d {
            Ok(x) => Ok(Some(x)),
            Err(e) => Err(e),
        }
    }
}

} // verus!
