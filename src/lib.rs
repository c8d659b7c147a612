//! A durable, cron-triggered job queue: cron schedules produce due
//! triggers, a job store holds pending work with deduplication, workers
//! lease jobs under time-limited leases, and a bounded retry policy decides
//! what becomes of failed attempts.
pub mod fences;
pub mod laws;
pub mod retry;
pub mod schedule;
pub mod store;
pub mod tools;
pub mod trigger;
pub mod worker;
