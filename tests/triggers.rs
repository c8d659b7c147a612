use jobqueue::schedule::CronSchedule;
use jobqueue::store::{JobStatus, JobStore};
use jobqueue::trigger::{due_occurrences, select_targets, TriggerGenerator};

fn every_two_minutes() -> CronSchedule {
    CronSchedule::parse("0 */2 * * * *").unwrap()
}

#[test]
fn due_occurrences_lists_the_window() {
    let s = every_two_minutes();
    assert_eq!(due_occurrences(&s, 0, 600), vec![120, 240, 360, 480, 600]);
    assert_eq!(due_occurrences(&s, 0, 599), vec![120, 240, 360, 480]);
    assert_eq!(due_occurrences(&s, 600, 600), Vec::<u64>::new());
    assert_eq!(due_occurrences(&s, 600, 100), Vec::<u64>::new());
}

#[test]
fn select_targets_coalesces_to_latest() {
    assert_eq!(select_targets(vec![120, 240, 360], true), vec![360]);
    assert_eq!(select_targets(vec![120, 240, 360], false), vec![120, 240, 360]);
    assert_eq!(select_targets(Vec::new(), true), Vec::<u64>::new());
}

#[test]
fn paused_generator_catches_up_on_every_missed_occurrence() {
    let mut store = JobStore::new();
    let mut g = TriggerGenerator::new("ns".to_string(), every_two_minutes(), 0, false);
    assert_eq!(g.tick(&mut store, 100), 0);
    assert_eq!(g.last_fire, 0);
    assert_eq!(g.tick(&mut store, 250), 2);
    assert_eq!(g.last_fire, 240);
    assert_eq!(store.get(0).unwrap().scheduled_for, 120);
    assert_eq!(store.get(1).unwrap().scheduled_for, 240);
    assert_eq!(store.get(1).unwrap().payload, 240);
    assert_eq!(store.get(1).unwrap().status, JobStatus::Pending);
    assert_eq!(g.tick(&mut store, 250), 0);
    assert_eq!(store.len(), 2);
}

#[test]
fn coalescing_generator_enqueues_only_the_latest() {
    let mut store = JobStore::new();
    let mut g = TriggerGenerator::new("ns".to_string(), every_two_minutes(), 0, true);
    assert_eq!(g.tick(&mut store, 500), 1);
    assert_eq!(store.len(), 1);
    assert_eq!(store.get(0).unwrap().scheduled_for, 480);
    assert_eq!(g.last_fire, 480);
}

#[test]
fn restarted_generator_does_not_enqueue_twice() {
    let mut store = JobStore::new();
    let mut g = TriggerGenerator::new("ns".to_string(), every_two_minutes(), 0, false);
    assert_eq!(g.tick(&mut store, 360), 3);
    let mut restarted = TriggerGenerator::new("ns".to_string(), every_two_minutes(), 0, false);
    assert_eq!(restarted.tick(&mut store, 480), 1);
    assert_eq!(store.len(), 4);
    assert_eq!(store.get(3).unwrap().scheduled_for, 480);
}
