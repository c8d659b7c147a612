//! Schedule evaluation: cron expressions (six fields, seconds first) and the
//! next fire time after a given instant. Instants are whole seconds since the
//! Unix epoch, in UTC.
use vstd::prelude::*;

verus! {

/// The last instant a schedule is evaluated at: 9999-12-31T23:59:59Z.
pub const LATEST_TIMESTAMP: u64 = 253402300799;

#[verifier::external_type_specification]
#[verifier::external_body]
pub struct ExCronSchedule(apalis_cron::Schedule);

#[verifier::external_type_specification]
#[verifier::external_body]
pub struct ExCronError(cron::error::Error);

/// Whether the cron crate accepts `expr` as a schedule.
pub uninterp spec fn cron_accepts(expr: Seq<char>) -> bool;

/// The first occurrence of the schedule written `expr` strictly after
/// `after`, as the cron crate computes it, or `None` when it has none.
pub uninterp spec fn cron_next(expr: Seq<char>, after: u64) -> Option<u64>;

/// Relies on `cron::Schedule::from_str`: whether parsing succeeds depends on
/// the text alone.
#[verifier::external_body]
fn compile(expr: &str) -> (r: Result<apalis_cron::Schedule, cron::error::Error>)
    ensures
        r is Ok <==> cron_accepts(expr@),
{
    <apalis_cron::Schedule as std::str::FromStr>::from_str(expr)
}

/// Errors of schedule evaluation.
#[derive(Clone, Copy, Debug, PartialEq, Eq, Structural)]
pub enum ScheduleError {
    /// The expression is not a cron schedule.
    InvalidExpression,
    /// The schedule has no occurrence after the given instant.
    NoFutureOccurrence,
}

/// Maps the cron crate's parse error to the library's own.
fn schedule_error(_e: cron::error::Error) -> (r: ScheduleError)
    ensures
        r == ScheduleError::InvalidExpression,
{
    ScheduleError::InvalidExpression
}

/// A parsed cron schedule together with the text it was parsed from.
pub struct CronSchedule {
    expr: String,
    compiled: apalis_cron::Schedule,
}

impl View for CronSchedule {
    type V = Seq<char>;

    closed spec fn view(&self) -> Seq<char> {
        self.expr@
    }
}

/// The next fire time of the schedule written `expr` strictly after `after`;
/// none past `LATEST_TIMESTAMP`.
pub open spec fn fire_after(expr: Seq<char>, after: u64) -> Option<u64> {
    if after > LATEST_TIMESTAMP {
        None
    } else {
        cron_next(expr, after)
    }
}

/// Relies on the first item of `cron::Schedule::after` in UTC: the first
/// occurrence strictly after `after` (the search starts one second later),
/// which depends on the expression and `after` alone (`compiled` is always
/// the parse of `expr`). `chrono` converts between seconds and its
/// `DateTime`; it does so for every instant up to `LATEST_TIMESTAMP`, and
/// adding the one second cannot overflow there.
#[verifier::external_body]
fn first_after(schedule: &CronSchedule, after: u64) -> (r: Option<u64>)
    requires
        after <= LATEST_TIMESTAMP,
    ensures
        r == cron_next(schedule@, after),
        r matches Some(t) ==> t > after,
{
    let start = chrono::DateTime::<chrono::Utc>::from_timestamp(after as i64, 0)?;
    match schedule.compiled.after(&start).next() {
        Some(t) => Some(t.timestamp() as u64),
        None => None,
    }
}

impl CronSchedule {
    /// Parses a cron expression.
    pub fn parse(expr: &str) -> (r: Result<CronSchedule, ScheduleError>)
        ensures
            r is Ok <==> cron_accepts(expr@),
            r matches Ok(s) ==> s@ == expr@,
            r matches Err(e) ==> e == ScheduleError::InvalidExpression,
    {
        match compile(expr) {
            Ok(compiled) => Ok(CronSchedule { expr: expr.to_string(), compiled }),
            Err(e) => Err(schedule_error(e)),
        }
    }

    /// The text the schedule was parsed from.
    pub fn expression(&self) -> (r: String)
        ensures
            r@ == self@,
    {
        self.expr.clone()
    }

    /// The first fire time strictly after `after`.
    pub fn next_fire(&self, after: u64) -> (r: Result<u64, ScheduleError>)
        ensures
            r == match fire_after(self@, after) {
                Some(t) => Ok::<u64, ScheduleError>(t),
                None => Err(ScheduleError::NoFutureOccurrence),
            },
            r matches Ok(t) ==> t > after,
    {
        if after > LATEST_TIMESTAMP {
            return Err(ScheduleError::NoFutureOccurrence);
        }
        match first_after(self, after) {
            Some(t) => Ok(t),
            None => Err(ScheduleError::NoFutureOccurrence),
        }
    }
}

/// Parses `cron_expr` and returns its first fire time strictly after `after`.
pub fn next_fire(cron_expr: &str, after: u64) -> (r: Result<u64, ScheduleError>)
    ensures
        !cron_accepts(cron_expr@) ==> r == Err::<u64, ScheduleError>(ScheduleError::InvalidExpression),
        cron_accepts(cron_expr@) ==> r == match fire_after(cron_expr@, after) {
            Some(t) => Ok::<u64, ScheduleError>(t),
            None => Err(ScheduleError::NoFutureOccurrence),
        },
{
    let schedule = CronSchedule::parse(cron_expr)?;
    schedule.next_fire(after)
}

} // verus!
