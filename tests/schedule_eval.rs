use jobqueue::schedule::{next_fire, CronSchedule, ScheduleError, LATEST_TIMESTAMP};

#[test]
fn every_two_minutes_from_epoch() {
    let s = CronSchedule::parse("0 */2 * * * *").unwrap();
    assert_eq!(s.expression(), "0 */2 * * * *");
    assert_eq!(s.next_fire(0), Ok(120));
    assert_eq!(s.next_fire(119), Ok(120));
    assert_eq!(s.next_fire(120), Ok(240));
    assert_eq!(s.next_fire(1_700_000_000), Ok(1_700_000_040));
}

#[test]
fn next_fire_parses_then_evaluates() {
    assert_eq!(next_fire("30 * * * * *", 0), Ok(30));
    assert_eq!(next_fire("30 * * * * *", 30), Ok(90));
}

#[test]
fn malformed_expression_is_rejected() {
    assert!(matches!(CronSchedule::parse("not a cron"), Err(ScheduleError::InvalidExpression)));
    assert_eq!(next_fire("61 * * * * *", 0), Err(ScheduleError::InvalidExpression));
}

#[test]
fn exhausted_schedule_has_no_future_occurrence() {
    let s = CronSchedule::parse("0 0 0 1 1 * 1999").unwrap();
    assert_eq!(s.next_fire(0), Ok(915_148_800));
    assert_eq!(s.next_fire(915_148_800), Err(ScheduleError::NoFutureOccurrence));
    assert_eq!(s.next_fire(LATEST_TIMESTAMP + 1), Err(ScheduleError::NoFutureOccurrence));
}
