use wings_rs::schedule::{
    cron_wait, run_requested, split_triggers, ActionOutcome, ActionStep, CpuValue, CronWait,
    RunAction, ScheduleComparator, ScheduleCondition, ScheduleRun, ScheduleStatus, ScheduleTrigger,
    ServerFacts, ServerPowerAction, ServerState,
};

fn facts() -> ServerFacts {
    ServerFacts {
        state: ServerState::Running,
        uptime: 600,
        cpu_absolute: CpuValue::Number { key: 50 },
        memory_bytes: 1024,
        disk_bytes: 4096,
        existing_files: vec!["server.properties".to_string()],
    }
}

#[test]
fn triggers_compare_by_kind_and_value() {
    let a = ScheduleTrigger::Cron { schedule: "0 * * * * *".to_string() };
    let b = ScheduleTrigger::Cron { schedule: "0 * * * * *".to_string() };
    let c = ScheduleTrigger::Cron { schedule: "1 * * * * *".to_string() };
    assert!(a == b);
    assert!(a != c);
    assert!(ScheduleTrigger::Crash == ScheduleTrigger::Crash);
    assert!(
        ScheduleTrigger::PowerAction { action: ServerPowerAction::Start }
            != ScheduleTrigger::PowerAction { action: ServerPowerAction::Stop }
    );
    assert!(
        ScheduleTrigger::ServerState { state: ServerState::Offline }
            == ScheduleTrigger::ServerState { state: ServerState::Offline }
    );
    assert!(ScheduleTrigger::Crash != ScheduleTrigger::ServerState { state: ServerState::Offline });
}

#[test]
fn comparators() {
    assert!(ScheduleComparator::SmallerThan.compare(1, 2));
    assert!(!ScheduleComparator::SmallerThan.compare(2, 2));
    assert!(ScheduleComparator::SmallerThanOrEquals.compare(2, 2));
    assert!(ScheduleComparator::Equal.compare(5, 5));
    assert!(ScheduleComparator::GreaterThan.compare(3, 2));
    assert!(ScheduleComparator::GreaterThanOrEquals.compare(2, 2));
    assert!(!ScheduleComparator::GreaterThanOrEquals.compare(1, 2));
}

#[test]
fn cpu_not_a_number_never_compares() {
    for cmp in [
        ScheduleComparator::SmallerThan,
        ScheduleComparator::SmallerThanOrEquals,
        ScheduleComparator::Equal,
        ScheduleComparator::GreaterThan,
        ScheduleComparator::GreaterThanOrEquals,
    ] {
        assert!(!cmp.compare_cpu(CpuValue::NotANumber, CpuValue::Number { key: 1 }));
        assert!(!cmp.compare_cpu(CpuValue::Number { key: 1 }, CpuValue::NotANumber));
    }
    assert!(ScheduleComparator::Equal.compare_cpu(CpuValue::Number { key: 9 }, CpuValue::Number { key: 9 }));
}

#[test]
fn leaf_conditions() {
    let f = facts();
    assert!(ScheduleCondition::NoCondition.evaluate(&f));
    assert!(ScheduleCondition::ServerState { state: ServerState::Running }.evaluate(&f));
    assert!(!ScheduleCondition::ServerState { state: ServerState::Offline }.evaluate(&f));
    assert!(ScheduleCondition::Uptime { comparator: ScheduleComparator::GreaterThan, value: 60 }.evaluate(&f));
    assert!(ScheduleCondition::MemoryUsage { comparator: ScheduleComparator::Equal, value: 1024 }.evaluate(&f));
    assert!(!ScheduleCondition::DiskUsage { comparator: ScheduleComparator::SmallerThan, value: 100 }.evaluate(&f));
    assert!(ScheduleCondition::CpuUsage {
        comparator: ScheduleComparator::SmallerThan,
        value: CpuValue::Number { key: 80 }
    }
    .evaluate(&f));
    assert!(ScheduleCondition::FileExists { file: "server.properties".to_string() }.evaluate(&f));
    assert!(!ScheduleCondition::FileExists { file: "missing.txt".to_string() }.evaluate(&f));
}

#[test]
fn and_or_conditions() {
    let f = facts();
    let yes = || ScheduleCondition::NoCondition;
    let no = || ScheduleCondition::ServerState { state: ServerState::Stopping };
    assert!(ScheduleCondition::And { conditions: vec![] }.evaluate(&f));
    assert!(!ScheduleCondition::Or { conditions: vec![] }.evaluate(&f));
    assert!(ScheduleCondition::And { conditions: vec![yes(), yes()] }.evaluate(&f));
    assert!(!ScheduleCondition::And { conditions: vec![yes(), no()] }.evaluate(&f));
    assert!(ScheduleCondition::Or { conditions: vec![no(), yes()] }.evaluate(&f));
    assert!(!ScheduleCondition::Or { conditions: vec![no(), no()] }.evaluate(&f));
    let nested = ScheduleCondition::And {
        conditions: vec![ScheduleCondition::Or { conditions: vec![no(), yes()] }, yes()],
    };
    assert!(nested.evaluate(&f));
}

#[test]
fn referenced_files_lists_every_file() {
    let c = ScheduleCondition::Or {
        conditions: vec![
            ScheduleCondition::FileExists { file: "a".to_string() },
            ScheduleCondition::And {
                conditions: vec![
                    ScheduleCondition::FileExists { file: "b".to_string() },
                    ScheduleCondition::NoCondition,
                ],
            },
        ],
    };
    assert_eq!(c.referenced_files(), vec!["a".to_string(), "b".to_string()]);
    assert!(ScheduleCondition::NoCondition.referenced_files().is_empty());
}

#[test]
fn condition_outcome_ignores_unmentioned_files() {
    let c = ScheduleCondition::FileExists { file: "a".to_string() };
    let mut f = facts();
    f.existing_files = vec!["a".to_string()];
    let mut g = facts();
    g.existing_files = vec!["a".to_string(), "zzz".to_string()];
    assert_eq!(c.evaluate(&f), c.evaluate(&g));
}

#[test]
fn run_is_requested_when_skipping_or_condition_met() {
    assert!(run_requested(true, false));
    assert!(run_requested(false, true));
    assert!(!run_requested(false, false));
}

#[test]
fn triggers_split_into_events_and_cron() {
    let (events, crons) = split_triggers(vec![
        ScheduleTrigger::Cron { schedule: "a".to_string() },
        ScheduleTrigger::Crash,
        ScheduleTrigger::Cron { schedule: "b".to_string() },
        ScheduleTrigger::PowerAction { action: ServerPowerAction::Kill },
    ]);
    assert_eq!(crons, vec!["a".to_string(), "b".to_string()]);
    assert_eq!(events.len(), 2);
    assert!(events[0] == ScheduleTrigger::Crash);
    assert!(events[1] == ScheduleTrigger::PowerAction { action: ServerPowerAction::Kill });
}

#[test]
fn cron_waits() {
    assert_eq!(cron_wait(None, 100), CronWait::Stop);
    assert_eq!(cron_wait(Some(100), 100), CronWait::Retry { seconds: 1 });
    assert_eq!(cron_wait(Some(90), 100), CronWait::Retry { seconds: 1 });
    assert_eq!(cron_wait(Some(160), 100), CronWait::Fire { seconds: 60 });
}

fn step(uuid: u128, ignore_failure: bool) -> ActionStep {
    ActionStep { uuid, ignore_failure }
}

#[test]
fn run_where_every_action_succeeds() {
    let mut run = ScheduleRun::new(7, vec![step(1, false), step(2, false)]);
    assert_eq!(run.next_action(), RunAction::Execute { index: 0, uuid: 1 });
    run.record(ActionOutcome::Succeeded);
    assert_eq!(run.next_action(), RunAction::Execute { index: 1, uuid: 2 });
    run.record(ActionOutcome::Succeeded);
    assert_eq!(run.next_action(), RunAction::Finish);
    let done = run.complete();
    assert_eq!(done.uuid, 7);
    assert!(done.successful);
    assert!(done.errors.is_empty());
}

#[test]
fn run_stops_at_failure_that_is_not_ignored() {
    let mut run = ScheduleRun::new(7, vec![step(1, false), step(2, false), step(3, false)]);
    run.record(ActionOutcome::Succeeded);
    run.record(ActionOutcome::Failed { error: "boom".to_string() });
    assert_eq!(run.next_action(), RunAction::Finish);
    let done = run.complete();
    assert!(!done.successful);
    assert_eq!(done.errors.len(), 1);
    assert_eq!(done.errors.get(&2).map(|s| s.as_str()), Some("boom"));
}

#[test]
fn run_goes_on_after_ignored_failure() {
    let mut run = ScheduleRun::new(7, vec![step(1, true), step(2, false)]);
    run.record(ActionOutcome::Failed { error: "soft".to_string() });
    assert_eq!(run.next_action(), RunAction::Execute { index: 1, uuid: 2 });
    run.record(ActionOutcome::Succeeded);
    assert_eq!(run.next_action(), RunAction::Finish);
    let done = run.complete();
    assert!(done.successful);
    assert_eq!(done.errors.get(&1).map(|s| s.as_str()), Some("soft"));
}

#[test]
fn empty_run_finishes_at_once() {
    let run = ScheduleRun::new(3, vec![]);
    assert_eq!(run.next_action(), RunAction::Finish);
    assert!(run.complete().successful);
}

#[test]
fn status_follows_run() {
    assert_eq!(
        ScheduleRun::status(RunAction::Execute { index: 0, uuid: 5 }),
        ScheduleStatus { running: true, step: Some(5) }
    );
    assert_eq!(ScheduleRun::status(RunAction::Finish), ScheduleStatus { running: false, step: None });
}

#[test]
fn schedule_keeps_event_triggers_and_returns_cron() {
    let (schedule, crons) = wings_rs::schedule::Schedule::new(
        9,
        vec![
            ScheduleTrigger::Cron { schedule: "0 0 * * * *".to_string() },
            ScheduleTrigger::Crash,
        ],
        ScheduleCondition::NoCondition,
        vec![step(1, false)],
    );
    assert_eq!(crons, vec!["0 0 * * * *".to_string()]);
    assert_eq!(schedule.triggers.len(), 1);
    assert!(schedule.triggers[0] == ScheduleTrigger::Crash);
    assert_eq!(schedule.status, ScheduleStatus { running: false, step: None });
    assert!(schedule.completion_status.is_none());
}

#[test]
fn schedule_update_and_retrigger() {
    let (mut schedule, _) =
        wings_rs::schedule::Schedule::new(9, vec![], ScheduleCondition::NoCondition, vec![]);
    schedule.update(
        ScheduleCondition::ServerState { state: ServerState::Running },
        vec![step(4, true)],
    );
    assert_eq!(schedule.actions, vec![step(4, true)]);
    let crons = schedule.recreate_triggers(vec![
        ScheduleTrigger::Cron { schedule: "x".to_string() },
        ScheduleTrigger::ServerState { state: ServerState::Offline },
    ]);
    assert_eq!(crons, vec!["x".to_string()]);
    assert_eq!(schedule.triggers.len(), 1);
    schedule.show_progress(RunAction::Execute { index: 0, uuid: 4 });
    assert_eq!(schedule.status, ScheduleStatus { running: true, step: Some(4) });
    let run = ScheduleRun::new(9, vec![]);
    schedule.complete_run(run.complete());
    assert!(schedule.completion_status.as_ref().unwrap().successful);
}

#[test]
fn manual_trigger_wakeups() {
    assert_eq!(wings_rs::schedule::Schedule::trigger(true), wings_rs::schedule::Wakeup::SkipCondition);
    assert_eq!(wings_rs::schedule::Schedule::trigger(false), wings_rs::schedule::Wakeup::CheckCondition);
}

#[test]
fn trigger_equality_is_reflexive_and_symmetric() {
    let a = ScheduleTrigger::Cron { schedule: "*/5 * * * * *".to_string() };
    let b = ScheduleTrigger::Crash;
    assert!(a == a);
    assert_eq!(a == b, b == a);
}

#[test]
fn later_failure_of_same_action_id_replaces_error() {
    let mut run = ScheduleRun::new(1, vec![step(8, true), step(8, true)]);
    run.record(ActionOutcome::Failed { error: "first".to_string() });
    run.record(ActionOutcome::Failed { error: "second".to_string() });
    let done = run.complete();
    assert!(done.successful);
    assert_eq!(done.errors.len(), 1);
    assert_eq!(done.errors.get(&8).map(|s| s.as_str()), Some("second"));
}
