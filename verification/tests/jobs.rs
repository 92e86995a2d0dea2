use monitor::events::{plan_completion, CompletionPlan, Event};
use monitor::incident::Timestamp;
use monitor::jobs::{
    clear_jobs, remove_job, EventJobMetadata, JobError, JobId, JobRegistry, MonitorJobMetadata,
};
use monitor::schedule::{cron_for_interval, delay_from_micros, one_shot_delay, Delay, IntervalClass};

fn at(micros: i64) -> Timestamp {
    Timestamp { micros }
}

fn monitor_job(monitor: &str, bits: u128) -> MonitorJobMetadata {
    MonitorJobMetadata {
        id: JobId { bits },
        cron_expr: "0 * * * * *".to_string(),
        monitor_id: monitor.to_string(),
        created_at: at(5),
    }
}

fn count(reg: &JobRegistry<MonitorJobMetadata>, monitor: &str) -> usize {
    reg.entries().iter().filter(|j| j.monitor_id == monitor).count()
}

#[test]
fn create_find_remove() {
    let mut reg: JobRegistry<MonitorJobMetadata> = JobRegistry::new();
    assert_eq!(reg.find(&"m1".to_string()), Err(JobError::NotFound));
    assert_eq!(reg.create(monitor_job("m1", 11)), Ok(JobId { bits: 11 }));
    assert_eq!(reg.create(monitor_job("m2", 22)), Ok(JobId { bits: 22 }));
    assert_eq!(reg.find(&"m1".to_string()), Ok(JobId { bits: 11 }));
    assert_eq!(reg.find(&"m2".to_string()), Ok(JobId { bits: 22 }));
    assert_eq!(reg.len(), 2);
    assert_eq!(reg.remove(&"m1".to_string()), Ok(JobId { bits: 11 }));
    assert_eq!(reg.find(&"m1".to_string()), Err(JobError::NotFound));
    assert_eq!(reg.remove(&"m1".to_string()), Err(JobError::NotFound));
    assert_eq!(reg.len(), 1);
    assert_eq!(reg.entries()[0].monitor_id, "m2");
}

#[test]
fn create_twice_reports_already_exists() {
    let mut reg: JobRegistry<MonitorJobMetadata> = JobRegistry::new();
    assert_eq!(reg.create(monitor_job("m1", 1)), Ok(JobId { bits: 1 }));
    assert_eq!(reg.create(monitor_job("m1", 2)), Err(JobError::AlreadyExists));
    assert_eq!(reg.len(), 1);
    assert_eq!(reg.find(&"m1".to_string()), Ok(JobId { bits: 1 }));
}

#[test]
fn replace_returns_the_old_handle() {
    let mut reg: JobRegistry<MonitorJobMetadata> = JobRegistry::new();
    reg.create(monitor_job("m1", 1)).unwrap();
    reg.create(monitor_job("m2", 2)).unwrap();
    assert_eq!(reg.replace(monitor_job("m1", 3)), Some(JobId { bits: 1 }));
    assert_eq!(reg.find(&"m1".to_string()), Ok(JobId { bits: 3 }));
    assert_eq!(reg.find(&"m2".to_string()), Ok(JobId { bits: 2 }));
    assert_eq!(reg.len(), 2);
    assert_eq!(reg.replace(monitor_job("m3", 4)), None);
    assert_eq!(reg.find(&"m3".to_string()), Ok(JobId { bits: 4 }));
    assert_eq!(reg.len(), 3);
}

#[test]
fn at_most_one_job_after_any_calls() {
    let mut reg: JobRegistry<MonitorJobMetadata> = JobRegistry::new();
    let _ = reg.create(monitor_job("m1", 1));
    let _ = reg.create(monitor_job("m1", 2));
    let _ = reg.replace(monitor_job("m1", 3));
    let _ = reg.replace(monitor_job("m2", 4));
    let _ = reg.create(monitor_job("m2", 5));
    let _ = reg.remove(&"m3".to_string());
    let _ = reg.replace(monitor_job("m1", 6));
    assert_eq!(count(&reg, "m1"), 1);
    assert_eq!(count(&reg, "m2"), 1);
    assert_eq!(count(&reg, "m3"), 0);
    let _ = reg.remove(&"m1".to_string());
    assert_eq!(count(&reg, "m1"), 0);
    let _ = reg.create(monitor_job("m1", 7));
    assert_eq!(count(&reg, "m1"), 1);
    assert_eq!(reg.find(&"m1".to_string()), Ok(JobId { bits: 7 }));
}

#[test]
fn remove_by_handle_and_clear() {
    let mut reg: JobRegistry<MonitorJobMetadata> = JobRegistry::new();
    reg.create(monitor_job("m1", 1)).unwrap();
    reg.create(monitor_job("m2", 2)).unwrap();
    reg.create(monitor_job("m3", 3)).unwrap();
    remove_job(JobId { bits: 2 }, &mut reg);
    assert_eq!(reg.handles(), vec![JobId { bits: 1 }, JobId { bits: 3 }]);
    remove_job(JobId { bits: 9 }, &mut reg);
    assert_eq!(reg.len(), 2);
    let cancelled = clear_jobs(&mut reg);
    assert_eq!(cancelled, vec![JobId { bits: 1 }, JobId { bits: 3 }]);
    assert_eq!(reg.len(), 0);
    assert_eq!(clear_jobs(&mut reg), Vec::<JobId>::new());
}

#[test]
fn monitor_jobs_carry_the_cron_of_their_interval() {
    let mut reg: JobRegistry<MonitorJobMetadata> = JobRegistry::new();
    let r = monitor::monitors::create_job(&mut reg, "m1".to_string(), &"5".to_string(), JobId { bits: 1 }, at(77));
    assert_eq!(r, Ok(JobId { bits: 1 }));
    assert_eq!(reg.entries()[0].cron_expr, "0 */5 * * * *");
    assert_eq!(reg.entries()[0].monitor_id, "m1");
    assert_eq!(reg.entries()[0].created_at, at(77));
    let r = monitor::monitors::create_job(&mut reg, "m1".to_string(), &"1".to_string(), JobId { bits: 2 }, at(78));
    assert_eq!(r, Err(JobError::AlreadyExists));
    assert_eq!(reg.len(), 1);
    let r = monitor::monitors::update_job(&mut reg, "m1".to_string(), &"60".to_string(), JobId { bits: 3 }, at(79));
    assert_eq!(r, Ok(JobId { bits: 1 }));
    assert_eq!(reg.len(), 1);
    assert_eq!(reg.entries()[0].cron_expr, "0 0 * * * *");
    assert_eq!(reg.entries()[0].id, JobId { bits: 3 });
    let r = monitor::monitors::update_job(&mut reg, "m2".to_string(), &"weekly".to_string(), JobId { bits: 4 }, at(80));
    assert_eq!(r, Err(JobError::NotFound));
    assert_eq!(reg.find(&"m2".to_string()), Ok(JobId { bits: 4 }));
    assert_eq!(reg.entries()[1].cron_expr, "0 */10 * * * *");
}

#[test]
fn event_jobs_are_created_and_replaced() {
    let mut reg: JobRegistry<EventJobMetadata> = JobRegistry::new();
    assert_eq!(monitor::events::update_job(&mut reg, "e1".to_string(), JobId { bits: 1 }, at(1)), None);
    assert_eq!(reg.len(), 1);
    assert_eq!(
        monitor::events::create_job(&mut reg, "e1".to_string(), JobId { bits: 2 }, at(2)),
        Err(JobError::AlreadyExists)
    );
    assert_eq!(
        monitor::events::update_job(&mut reg, "e1".to_string(), JobId { bits: 3 }, at(3)),
        Some(JobId { bits: 1 })
    );
    assert_eq!(reg.len(), 1);
    assert_eq!(reg.entries()[0].id, JobId { bits: 3 });
    assert_eq!(reg.entries()[0].event_id, "e1");
    assert_eq!(
        monitor::events::create_job(&mut reg, "e2".to_string(), JobId { bits: 4 }, at(4)),
        Ok(JobId { bits: 4 })
    );
    assert_eq!(reg.find(&"e2".to_string()), Ok(JobId { bits: 4 }));
}

#[test]
fn interval_labels_map_to_cron_expressions() {
    assert_eq!(cron_for_interval(&"1".to_string()), "0 * * * * *");
    assert_eq!(cron_for_interval(&"5".to_string()), "0 */5 * * * *");
    assert_eq!(cron_for_interval(&"10".to_string()), "0 */10 * * * *");
    assert_eq!(cron_for_interval(&"30".to_string()), "0 */30 * * * *");
    assert_eq!(cron_for_interval(&"60".to_string()), "0 0 * * * *");
    assert_eq!(cron_for_interval(&"7".to_string()), "0 */10 * * * *");
    assert_eq!(cron_for_interval(&"".to_string()), "0 */10 * * * *");
    assert_eq!(IntervalClass::parse(&"30".to_string()), IntervalClass::ThirtyMinutes);
    assert_eq!(IntervalClass::parse(&"01".to_string()), IntervalClass::TenMinutes);
    assert_eq!(IntervalClass::OneHour.minutes(), 60);
    assert_eq!(IntervalClass::FiveMinutes.minutes(), 5);
}

#[test]
fn one_shot_delay_is_due_minus_now() {
    assert_eq!(one_shot_delay(at(10_500_000), at(8_000_000)), Some(Delay { secs: 2, micros: 500_000 }));
    assert_eq!(one_shot_delay(at(8_000_001), at(8_000_000)), Some(Delay { secs: 0, micros: 1 }));
    assert_eq!(one_shot_delay(at(8_000_000), at(8_000_000)), None);
    assert_eq!(one_shot_delay(at(7_000_000), at(8_000_000)), None);
    assert_eq!(
        one_shot_delay(at(i64::MAX), at(i64::MIN)),
        Some(Delay { secs: 18_446_744_073_709, micros: 551_615 })
    );
    assert_eq!(delay_from_micros(-3), None);
    assert_eq!(delay_from_micros(3_000_000), Some(Delay { secs: 3, micros: 0 }));
}

fn event(started: i64, minutes: i32) -> Event {
    Event {
        id: "e1".to_string(),
        started_at: at(started),
        duration: minutes,
        completed: false,
        auto_complete: true,
    }
}

#[test]
fn events_past_due_are_completed_at_once() {
    let start = 1_000_000_000;
    let due = start + 30 * 60_000_000;
    assert_eq!(plan_completion(&event(start, 30), at(due)), CompletionPlan::CompleteNow);
    assert_eq!(plan_completion(&event(start, 30), at(due + 1)), CompletionPlan::CompleteNow);
    assert_eq!(
        plan_completion(&event(start, 30), at(due - 1)),
        CompletionPlan::Schedule { delay: Delay { secs: 0, micros: 1 } }
    );
    assert_eq!(
        plan_completion(&event(start, 30), at(start)),
        CompletionPlan::Schedule { delay: Delay { secs: 1800, micros: 0 } }
    );
    assert_eq!(plan_completion(&event(start, -1), at(start)), CompletionPlan::CompleteNow);
    assert_eq!(plan_completion(&event(start, 0), at(start)), CompletionPlan::CompleteNow);
}
