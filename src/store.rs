//! The job store: a table of job records with enqueue, lease, acknowledge
//! and fail operations. Each operation is one atomic step on the table.
use crate::retry::{decision_for, Decision, RetryPolicy};
use vstd::prelude::*;

verus! {

/// Where a job is in its life cycle.
#[derive(Clone, Copy, Debug, PartialEq, Eq, Structural)]
pub enum JobStatus {
    Pending,
    Leased,
    Succeeded,
    Failed,
}

/// One unit of durable work.
#[derive(Clone, Debug)]
pub struct Job {
    /// Assigned at enqueue time: the job's position in the table.
    pub id: u64,
    /// The schedule family the job belongs to.
    pub namespace: String,
    /// When the job became due (seconds since the Unix epoch).
    pub scheduled_for: u64,
    /// Data handed to the handler: the fire time of the trigger.
    pub payload: u64,
    pub status: JobStatus,
    /// Attempts started so far.
    pub attempts: u64,
    pub lease_owner: Option<u64>,
    pub lease_expires_at: Option<u64>,
    /// A pending job is not leased before this instant.
    pub not_before: Option<u64>,
    pub last_error: Option<String>,
}

/// Errors of the job store.
#[derive(Clone, Copy, Debug, PartialEq, Eq, Structural)]
pub enum StoreError {
    /// A job with the same namespace and fire time already exists.
    Duplicate,
    /// No job has the given id.
    NotFound,
    /// The job is not in a state the operation applies to.
    NotLeased,
}

pub open spec fn sat_add(a: u64, b: u64) -> u64 {
    if a + b > u64::MAX {
        u64::MAX
    } else {
        (a + b) as u64
    }
}

/// Lease fields are set exactly while the job is leased.
pub open spec fn lease_consistent(j: Job) -> bool {
    if j.status == JobStatus::Leased {
        j.lease_owner is Some && j.lease_expires_at is Some
    } else {
        j.lease_owner is None && j.lease_expires_at is None
    }
}

pub open spec fn same_key(a: Job, b: Job) -> bool {
    a.namespace@ == b.namespace@ && a.scheduled_for == b.scheduled_for
}

/// Ids are positions, lease fields follow the status, and no two jobs share
/// a namespace and fire time.
pub open spec fn jobs_wf(jobs: Seq<Job>) -> bool {
    &&& forall|i: int| 0 <= i < jobs.len() ==> #[trigger] jobs[i].id == i && lease_consistent(jobs[i])
    &&& forall|i: int, k: int|
        0 <= i < jobs.len() && 0 <= k < jobs.len() && i != k ==> !same_key(#[trigger] jobs[i], #[trigger] jobs[k])
}

/// Some job of `jobs` is keyed by `ns` and `t`.
pub open spec fn has_key(jobs: Seq<Job>, ns: Seq<char>, t: u64) -> bool {
    exists|k: int| 0 <= k < jobs.len() && #[trigger] jobs[k].namespace@ == ns && jobs[k].scheduled_for == t
}

/// A fresh pending job.
pub open spec fn new_job(id: u64, namespace: String, scheduled_for: u64, payload: u64) -> Job {
    Job {
        id,
        namespace,
        scheduled_for,
        payload,
        status: JobStatus::Pending,
        attempts: 0,
        lease_owner: None,
        lease_expires_at: None,
        not_before: None,
        last_error: None,
    }
}

/// The table after enqueuing: unchanged when the key exists, else one more
/// pending job at the end.
pub open spec fn enqueued(jobs: Seq<Job>, namespace: String, scheduled_for: u64, payload: u64) -> Seq<Job> {
    if has_key(jobs, namespace@, scheduled_for) {
        jobs
    } else {
        jobs.push(new_job(jobs.len() as u64, namespace, scheduled_for, payload))
    }
}

/// A job a worker of `ns` may claim at `now`: pending and past its
/// `not_before`, or leased with a lease that expired strictly before `now`.
pub open spec fn leasable(j: Job, ns: Seq<char>, now: u64) -> bool {
    &&& j.namespace@ == ns
    &&& match j.status {
        JobStatus::Pending => j.not_before is None || j.not_before->0 <= now,
        JobStatus::Leased => j.lease_expires_at is Some && now > j.lease_expires_at->0,
        _ => false,
    }
}

/// Job `i` comes no later than job `k` in lease order: oldest fire time
/// first, then lowest id.
pub open spec fn precedes(jobs: Seq<Job>, i: int, k: int) -> bool {
    jobs[i].scheduled_for < jobs[k].scheduled_for || (jobs[i].scheduled_for == jobs[k].scheduled_for && i <= k)
}

/// Job `i` is the one `lease` picks.
pub open spec fn first_leasable(jobs: Seq<Job>, ns: Seq<char>, now: u64, i: int) -> bool {
    &&& 0 <= i < jobs.len()
    &&& leasable(jobs[i], ns, now)
    &&& forall|k: int| 0 <= k < jobs.len() && leasable(#[trigger] jobs[k], ns, now) ==> precedes(jobs, i, k)
}

pub open spec fn leased_job(j: Job, worker: u64, now: u64, lease_duration: u64) -> Job {
    Job {
        status: JobStatus::Leased,
        attempts: sat_add(j.attempts, 1),
        lease_owner: Some(worker),
        lease_expires_at: Some(sat_add(now, lease_duration)),
        not_before: None,
        ..j
    }
}

pub open spec fn acknowledged_job(j: Job) -> Job {
    Job { status: JobStatus::Succeeded, lease_owner: None, lease_expires_at: None, ..j }
}

/// The job after a failed attempt, under `decision`.
pub open spec fn failed_job(j: Job, error: String, decision: Decision, now: u64) -> Job {
    match decision {
        Decision::GiveUp => Job {
            status: JobStatus::Failed,
            lease_owner: None,
            lease_expires_at: None,
            last_error: Some(error),
            ..j
        },
        Decision::Retry { delay } => Job {
            status: JobStatus::Pending,
            lease_owner: None,
            lease_expires_at: None,
            not_before: Some(sat_add(now, delay)),
            last_error: Some(error),
            ..j
        },
    }
}

/// What `lease` does: `r` is the first leasable job, now leased, or `None`
/// when no job is leasable and the table is unchanged.
pub open spec fn lease_post(
    before: Seq<Job>,
    after: Seq<Job>,
    ns: Seq<char>,
    worker: u64,
    lease_duration: u64,
    now: u64,
    r: Option<Job>,
) -> bool {
    &&& r is None <==> forall|k: int| 0 <= k < before.len() ==> !leasable(#[trigger] before[k], ns, now)
    &&& r is None ==> after == before
    &&& r matches Some(j) ==> {
        &&& first_leasable(before, ns, now, j.id as int)
        &&& after == before.update(j.id as int, leased_job(before[j.id as int], worker, now, lease_duration))
        &&& j == after[j.id as int]
    }
}

/// What `acknowledge` does to job `id`.
pub open spec fn acknowledge_post(before: Seq<Job>, after: Seq<Job>, id: u64, r: Result<(), StoreError>) -> bool {
    if id >= before.len() {
        r == Err::<(), StoreError>(StoreError::NotFound) && after == before
    } else {
        match before[id as int].status {
            JobStatus::Leased => r == Ok::<(), StoreError>(()) && after == before.update(
                id as int,
                acknowledged_job(before[id as int]),
            ),
            JobStatus::Succeeded => r == Ok::<(), StoreError>(()) && after == before,
            _ => r == Err::<(), StoreError>(StoreError::NotLeased) && after == before,
        }
    }
}

/// What `fail` does to job `id`.
pub open spec fn fail_post(
    before: Seq<Job>,
    after: Seq<Job>,
    id: u64,
    error: String,
    policy: RetryPolicy,
    now: u64,
    r: Result<Decision, StoreError>,
) -> bool {
    if id >= before.len() {
        r == Err::<Decision, StoreError>(StoreError::NotFound) && after == before
    } else if before[id as int].status == JobStatus::Leased {
        let d = decision_for(policy, before[id as int].attempts);
        r == Ok::<Decision, StoreError>(d) && after == before.update(id as int, failed_job(before[id as int], error, d, now))
    } else {
        r == Err::<Decision, StoreError>(StoreError::NotLeased) && after == before
    }
}

/// Replacing a job by one with the same id and key, and lease fields that
/// follow its status, keeps the table well formed.
proof fn lemma_update_keeps_wf(jobs: Seq<Job>, i: int, j: Job)
    requires
        jobs_wf(jobs),
        0 <= i < jobs.len(),
        j.id == jobs[i].id,
        same_key(j, jobs[i]),
        lease_consistent(j),
    ensures
        jobs_wf(jobs.update(i, j)),
{
    let s = jobs.update(i, j);
    assert forall|a: int| 0 <= a < s.len() implies #[trigger] s[a].id == a && lease_consistent(s[a]) by {
        if a != i {
            assert(s[a] == jobs[a]);
        }
    }
    assert forall|a: int, b: int|
        0 <= a < s.len() && 0 <= b < s.len() && a != b implies !same_key(#[trigger] s[a], #[trigger] s[b]) by {
        assert(same_key(s[a], s[b]) == same_key(jobs[a], jobs[b]));
    }
}

impl Job {
    /// A copy of the record.
    pub fn snapshot(&self) -> (r: Job)
        ensures
            r == *self,
    {
        let last_error = match &self.last_error {
            Some(e) => Some(e.clone()),
            None => None,
        };
        Job {
            id: self.id,
            namespace: self.namespace.clone(),
            scheduled_for: self.scheduled_for,
            payload: self.payload,
            status: self.status,
            attempts: self.attempts,
            lease_owner: self.lease_owner,
            lease_expires_at: self.lease_expires_at,
            not_before: self.not_before,
            last_error,
        }
    }

    /// Whether a worker of `namespace` may claim this job at `now`.
    pub fn is_leasable(&self, namespace: &String, now: u64) -> (r: bool)
        ensures
            r == leasable(*self, namespace@, now),
    {
        if self.namespace != *namespace {
            return false;
        }
        match self.status {
            JobStatus::Pending => match self.not_before {
                Some(nb) => nb <= now,
                None => true,
            },
            JobStatus::Leased => match self.lease_expires_at {
                Some(e) => now > e,
                None => false,
            },
            _ => false,
        }
    }
}

/// The table of jobs.
pub struct JobStore {
    jobs: Vec<Job>,
}

impl View for JobStore {
    type V = Seq<Job>;

    closed spec fn view(&self) -> Seq<Job> {
        self.jobs@
    }
}

impl JobStore {
    #[verifier::type_invariant]
    spec fn inv(&self) -> bool {
        jobs_wf(self.jobs@)
    }

    /// The table is well formed; every store is.
    pub open spec fn wf(&self) -> bool {
        jobs_wf(self@)
    }

    /// An empty store.
    pub fn new() -> (r: JobStore)
        ensures
            r@ == Seq::<Job>::empty(),
            r.wf(),
    {
        JobStore { jobs: Vec::new() }
    }

    /// Number of jobs ever enqueued.
    pub fn len(&self) -> (r: usize)
        ensures
            r == self@.len(),
            self.wf(),
    {
        proof {
            use_type_invariant(self);
        }
        self.jobs.len()
    }

    /// A copy of the job with id `id`.
    pub fn get(&self, id: u64) -> (r: Option<Job>)
        ensures
            r == if id < self@.len() {
                Some(self@[id as int])
            } else {
                None::<Job>
            },
    {
        if id >= self.jobs.len() as u64 {
            return None;
        }
        Some(self.jobs[id as usize].snapshot())
    }

    /// Whether a job keyed by `namespace` and `scheduled_for` exists.
    pub fn contains_key(&self, namespace: &String, scheduled_for: u64) -> (r: bool)
        ensures
            r == has_key(self@, namespace@, scheduled_for),
    {
        let mut k: usize = 0;
        while k < self.jobs.len()
            invariant
                k <= self@.len(),
                forall|m: int|
                    0 <= m < k ==> !(#[trigger] self@[m].namespace@ == namespace@ && self@[m].scheduled_for
                        == scheduled_for),
            decreases self@.len() - k,
        {
            if self.jobs[k].scheduled_for == scheduled_for && self.jobs[k].namespace == *namespace {
                return true;
            }
            k += 1;
        }
        false
    }

    /// Inserts a pending job, unless one with the same namespace and fire
    /// time exists, in which case the store is unchanged and `Duplicate`
    /// comes back.
    pub fn enqueue(&mut self, namespace: String, scheduled_for: u64, payload: u64) -> (r: Result<u64, StoreError>)
        ensures
            final(self).wf(),
            final(self)@ == enqueued(old(self)@, namespace, scheduled_for, payload),
            r is Err <==> has_key(old(self)@, namespace@, scheduled_for),
            r matches Err(e) ==> e == StoreError::Duplicate,
            r matches Ok(id) ==> id == old(self)@.len(),
    {
        proof {
            use_type_invariant(&*self);
        }
        if self.contains_key(&namespace, scheduled_for) {
            return Err(StoreError::Duplicate);
        }
        let id = self.jobs.len() as u64;
        let job = Job {
            id,
            namespace,
            scheduled_for,
            payload,
            status: JobStatus::Pending,
            attempts: 0,
            lease_owner: None,
            lease_expires_at: None,
            not_before: None,
            last_error: None,
        };
        let mut jobs: Vec<Job> = Vec::new();
        std::mem::swap(&mut jobs, &mut self.jobs);
        jobs.push(job);
        self.jobs = jobs;
        proof {
            let s = self@;
            assert forall|i: int, k: int|
                0 <= i < s.len() && 0 <= k < s.len() && i != k implies !same_key(#[trigger] s[i], #[trigger] s[k]) by {
                if i == s.len() - 1 {
                    assert(old(self)@[k] == s[k]);
                } else if k == s.len() - 1 {
                    assert(old(self)@[i] == s[i]);
                } else {
                    assert(old(self)@[i] == s[i] && old(self)@[k] == s[k]);
                }
            }
        }
        Ok(id)
    }

    /// Claims the oldest-due job of `namespace` that is pending, or leased
    /// under an expired lease: it becomes leased to `worker` until
    /// `now + lease_duration` and its attempt count goes up by one. `None`
    /// when no job is leasable, the store then unchanged.
    pub fn lease(&mut self, namespace: &String, worker: u64, lease_duration: u64, now: u64) -> (r: Option<Job>)
        ensures
            final(self).wf(),
            lease_post(old(self)@, final(self)@, namespace@, worker, lease_duration, now, r),
    {
        proof {
            use_type_invariant(&*self);
        }
        let mut best: Option<usize> = None;
        let mut k: usize = 0;
        while k < self.jobs.len()
            invariant
                k <= self@.len(),
                best matches Some(b) ==> {
                    &&& b < k
                    &&& leasable(self@[b as int], namespace@, now)
                    &&& forall|m: int| 0 <= m < k && leasable(#[trigger] self@[m], namespace@, now) ==> precedes(self@, b as int, m)
                },
                best is None ==> forall|m: int| 0 <= m < k ==> !leasable(#[trigger] self@[m], namespace@, now),
            decreases self@.len() - k,
        {
            if self.jobs[k].is_leasable(namespace, now) {
                match best {
                    None => {
                        best = Some(k);
                    },
                    Some(b) => {
                        if self.jobs[k].scheduled_for < self.jobs[b].scheduled_for {
                            best = Some(k);
                        }
                    },
                }
            }
            k += 1;
        }
        match best {
            None => None,
            Some(b) => {
                let old_job = self.jobs[b].snapshot();
                let job = Job {
                    status: JobStatus::Leased,
                    attempts: old_job.attempts.saturating_add(1),
                    lease_owner: Some(worker),
                    lease_expires_at: Some(now.saturating_add(lease_duration)),
                    not_before: None,
                    ..old_job
                };
                let out = job.snapshot();
                let mut jobs: Vec<Job> = Vec::new();
                std::mem::swap(&mut jobs, &mut self.jobs);
                jobs.set(b, job);
                proof {
                    lemma_update_keeps_wf(old(self)@, b as int, jobs@[b as int]);
                }
                self.jobs = jobs;
                Some(out)
            },
        }
    }

    /// Marks a leased job `Succeeded`. On a job that already succeeded it
    /// does nothing and succeeds too.
    pub fn acknowledge(&mut self, job_id: u64) -> (r: Result<(), StoreError>)
        ensures
            final(self).wf(),
            acknowledge_post(old(self)@, final(self)@, job_id, r),
    {
        proof {
            use_type_invariant(&*self);
        }
        if job_id >= self.jobs.len() as u64 {
            return Err(StoreError::NotFound);
        }
        let i = job_id as usize;
        match self.jobs[i].status {
            JobStatus::Leased => {
                let old_job = self.jobs[i].snapshot();
                let job = Job { status: JobStatus::Succeeded, lease_owner: None, lease_expires_at: None, ..old_job };
                let mut jobs: Vec<Job> = Vec::new();
                std::mem::swap(&mut jobs, &mut self.jobs);
                jobs.set(i, job);
                proof {
                    lemma_update_keeps_wf(old(self)@, i as int, jobs@[i as int]);
                }
                self.jobs = jobs;
                Ok(())
            },
            JobStatus::Succeeded => Ok(()),
            _ => Err(StoreError::NotLeased),
        }
    }

    /// Reports a failed attempt of a leased job: the retry policy decides
    /// from the job's attempt count whether it goes back to `Pending`
    /// (leasable once the delay has passed) or ends `Failed`. Either way the
    /// error is recorded and the lease cleared.
    pub fn fail(&mut self, job_id: u64, error: String, policy: &RetryPolicy, now: u64) -> (r: Result<Decision, StoreError>)
        ensures
            final(self).wf(),
            fail_post(old(self)@, final(self)@, job_id, error, *policy, now, r),
    {
        proof {
            use_type_invariant(&*self);
        }
        if job_id >= self.jobs.len() as u64 {
            return Err(StoreError::NotFound);
        }
        let i = job_id as usize;
        if self.jobs[i].status != JobStatus::Leased {
            return Err(StoreError::NotLeased);
        }
        let old_job = self.jobs[i].snapshot();
        let decision = policy.decide(old_job.attempts);
        let job = match decision {
            Decision::GiveUp => Job {
                status: JobStatus::Failed,
                lease_owner: None,
                lease_expires_at: None,
                last_error: Some(error),
                ..old_job
            },
            Decision::Retry { delay } => Job {
                status: JobStatus::Pending,
                lease_owner: None,
                lease_expires_at: None,
                not_before: Some(now.saturating_add(delay)),
                last_error: Some(error),
                ..old_job
            },
        };
        let mut jobs: Vec<Job> = Vec::new();
        std::mem::swap(&mut jobs, &mut self.jobs);
        jobs.set(i, job);
        proof {
            lemma_update_keeps_wf(old(self)@, i as int, jobs@[i as int]);
        }
        self.jobs = jobs;
        Ok(decision)
    }
}

} // verus!
