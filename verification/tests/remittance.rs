use recurring_remittance::remittance::RecurringRemittance;
use recurring_remittance::schedule::ExecutionOutcome;
use recurring_remittance::schedule::ScheduleError;
use recurring_remittance::schedule::ScheduleFrequency;
use recurring_remittance::schedule::ValidationReason;
use recurring_remittance::schedule::period_seconds_exec;

const OWNER: u64 = 7;
const STRANGER: u64 = 8;

fn weekly_schedule(scheduler: &mut RecurringRemittance, now: u64, start: u64) -> u32 {
    scheduler
        .create_schedule(OWNER, 1000, None, ScheduleFrequency::Weekly, 0, start, None, now)
        .unwrap()
}

#[test]
fn test_create_schedule() {
    let mut scheduler = RecurringRemittance::new();
    let current_time: u64 = 0;
    let start_time = current_time + 86400;

    let schedule_id = scheduler
        .create_schedule(
            OWNER,
            1000i128,
            None,
            ScheduleFrequency::Weekly,
            0u32,
            start_time,
            None,
            current_time,
        )
        .unwrap();

    assert!(schedule_id > 0);

    let schedule = scheduler.get_schedule(schedule_id).unwrap();
    assert_eq!(schedule.owner, OWNER);
    assert_eq!(schedule.amount, 1000);
    assert_eq!(schedule.frequency, ScheduleFrequency::Weekly);
    assert!(schedule.active);
}

#[test]
fn test_pause_resume_schedule() {
    let mut scheduler = RecurringRemittance::new();
    let current_time: u64 = 0;
    let start_time = current_time + 86400;

    let schedule_id = scheduler
        .create_schedule(
            OWNER,
            1000i128,
            None,
            ScheduleFrequency::Monthly,
            0u32,
            start_time,
            None,
            current_time,
        )
        .unwrap();

    scheduler.pause_schedule(OWNER, schedule_id).unwrap();
    let schedule = scheduler.get_schedule(schedule_id).unwrap();
    assert!(!schedule.active);

    scheduler.resume_schedule(OWNER, schedule_id).unwrap();
    let schedule = scheduler.get_schedule(schedule_id).unwrap();
    assert!(schedule.active);
}

#[test]
fn test_modify_schedule() {
    let mut scheduler = RecurringRemittance::new();
    let current_time: u64 = 0;
    let start_time = current_time + 86400;

    let schedule_id = scheduler
        .create_schedule(
            OWNER,
            1000i128,
            None,
            ScheduleFrequency::Weekly,
            0u32,
            start_time,
            None,
            current_time,
        )
        .unwrap();

    scheduler
        .modify_schedule(OWNER, schedule_id, Some(2000i128), None, None, None)
        .unwrap();

    let schedule = scheduler.get_schedule(schedule_id).unwrap();
    assert_eq!(schedule.amount, 2000);
}

#[test]
fn test_cancel_schedule() {
    let mut scheduler = RecurringRemittance::new();
    let current_time: u64 = 0;
    let start_time = current_time + 86400;

    let schedule_id = scheduler
        .create_schedule(
            OWNER,
            1000i128,
            None,
            ScheduleFrequency::Weekly,
            0u32,
            start_time,
            None,
            current_time,
        )
        .unwrap();

    scheduler.cancel_schedule(OWNER, schedule_id).unwrap();
    let schedule = scheduler.get_schedule(schedule_id);
    assert!(schedule.is_none());
}

#[test]
fn test_period_seconds_per_frequency() {
    assert_eq!(period_seconds_exec(ScheduleFrequency::Weekly, 0), 604800);
    assert_eq!(period_seconds_exec(ScheduleFrequency::BiWeekly, 0), 1209600);
    assert_eq!(period_seconds_exec(ScheduleFrequency::Monthly, 0), 2592000);
    assert_eq!(period_seconds_exec(ScheduleFrequency::Custom, 5), 5 * 86400);
}

#[test]
fn test_new_schedule_starts_due_at_start() {
    let mut scheduler = RecurringRemittance::new();
    let id = weekly_schedule(&mut scheduler, 0, 5000);
    let schedule = scheduler.get_schedule(id).unwrap();
    assert_eq!(schedule.next_execution, 5000);
    assert!(schedule.active);
    assert_eq!(schedule.last_executed, None);
    assert_eq!(schedule.created_at, 0);
}

#[test]
fn test_create_validation_errors() {
    let mut scheduler = RecurringRemittance::new();

    let r = scheduler.create_schedule(OWNER, 0, None, ScheduleFrequency::Weekly, 0, 100, None, 0);
    assert_eq!(
        r,
        Err(ScheduleError::Validation(ValidationReason::NonPositiveAmount))
    );

    let r = scheduler.create_schedule(OWNER, 50, None, ScheduleFrequency::Custom, 0, 100, None, 0);
    assert_eq!(
        r,
        Err(ScheduleError::Validation(ValidationReason::CustomFrequencyWithoutDays))
    );

    let r = scheduler.create_schedule(OWNER, 50, None, ScheduleFrequency::Weekly, 0, 99, None, 100);
    assert_eq!(r, Err(ScheduleError::Validation(ValidationReason::StartInPast)));

    let r = scheduler
        .create_schedule(OWNER, 50, None, ScheduleFrequency::Weekly, 0, 100, Some(100), 0);
    assert_eq!(
        r,
        Err(ScheduleError::Validation(ValidationReason::EndNotAfterStart))
    );

    // a failed creation stores nothing
    assert!(scheduler.get_schedule(1).is_none());
}

#[test]
fn test_validate_schedule_dry_run() {
    assert!(RecurringRemittance::validate_schedule(
        1000,
        ScheduleFrequency::Custom,
        3,
        100,
        Some(200),
        50
    )
    .is_ok());
    assert_eq!(
        RecurringRemittance::validate_schedule(-5, ScheduleFrequency::Weekly, 0, 100, None, 0),
        Err(ScheduleError::Validation(ValidationReason::NonPositiveAmount))
    );
    assert_eq!(
        RecurringRemittance::validate_schedule(5, ScheduleFrequency::Weekly, 0, 100, Some(50), 0),
        Err(ScheduleError::Validation(ValidationReason::EndNotAfterStart))
    );
}

#[test]
fn test_execute_not_found() {
    let mut scheduler = RecurringRemittance::new();
    assert_eq!(scheduler.execute_schedule(1, 0), Err(ScheduleError::NotFound));
}

#[test]
fn test_execute_before_due_reports_not_due_and_changes_nothing() {
    let mut scheduler = RecurringRemittance::new();
    let id = weekly_schedule(&mut scheduler, 0, 5000);
    let before = scheduler.get_schedule(id).unwrap();

    assert_eq!(scheduler.execute_schedule(id, 4999), Err(ScheduleError::NotDue));

    let after = scheduler.get_schedule(id).unwrap();
    assert_eq!(after, before);
}

#[test]
fn test_execute_paused_reports_not_active_and_changes_nothing() {
    let mut scheduler = RecurringRemittance::new();
    let id = weekly_schedule(&mut scheduler, 0, 5000);
    scheduler.pause_schedule(OWNER, id).unwrap();
    let before = scheduler.get_schedule(id).unwrap();

    assert_eq!(scheduler.execute_schedule(id, 6000), Err(ScheduleError::NotActive));

    let after = scheduler.get_schedule(id).unwrap();
    assert_eq!(after, before);
}

#[test]
fn test_execute_success_updates_exactly_the_execution_fields() {
    let mut scheduler = RecurringRemittance::new();
    let id = weekly_schedule(&mut scheduler, 0, 5000);
    let before = scheduler.get_schedule(id).unwrap();

    let outcome = scheduler.execute_schedule(id, 6000).unwrap();
    assert_eq!(
        outcome,
        ExecutionOutcome::Executed { next_execution: 6000 + 604800 }
    );

    let after = scheduler.get_schedule(id).unwrap();
    assert_eq!(after.last_executed, Some(6000));
    assert_eq!(after.next_execution, 6000 + 604800);
    assert_eq!(after.id, before.id);
    assert_eq!(after.owner, before.owner);
    assert_eq!(after.amount, before.amount);
    assert_eq!(after.split_config_id, before.split_config_id);
    assert_eq!(after.frequency, before.frequency);
    assert_eq!(after.frequency_days, before.frequency_days);
    assert_eq!(after.start_timestamp, before.start_timestamp);
    assert_eq!(after.end_timestamp, before.end_timestamp);
    assert_eq!(after.active, before.active);
    assert_eq!(after.created_at, before.created_at);
}

#[test]
fn test_execute_past_end_deactivates_without_advancing() {
    let mut scheduler = RecurringRemittance::new();
    let id = scheduler
        .create_schedule(OWNER, 1000, None, ScheduleFrequency::Weekly, 0, 5000, Some(9000), 0)
        .unwrap();

    let outcome = scheduler.execute_schedule(id, 9001).unwrap();
    assert_eq!(outcome, ExecutionOutcome::Expired);

    let after = scheduler.get_schedule(id).unwrap();
    assert!(!after.active);
    assert_eq!(after.last_executed, None);
    assert_eq!(after.next_execution, 5000);
}

#[test]
fn test_execute_at_end_boundary_still_runs() {
    let mut scheduler = RecurringRemittance::new();
    let id = scheduler
        .create_schedule(OWNER, 1000, None, ScheduleFrequency::Weekly, 0, 5000, Some(9000), 0)
        .unwrap();

    let outcome = scheduler.execute_schedule(id, 9000).unwrap();
    assert_eq!(
        outcome,
        ExecutionOutcome::Executed { next_execution: 9000 + 604800 }
    );
}

#[test]
fn test_pause_resume_round_trip_keeps_all_other_fields() {
    let mut scheduler = RecurringRemittance::new();
    let id = scheduler
        .create_schedule(OWNER, 1234, Some(3), ScheduleFrequency::Custom, 9, 5000, Some(99999), 0)
        .unwrap();
    let before = scheduler.get_schedule(id).unwrap();

    scheduler.pause_schedule(OWNER, id).unwrap();
    scheduler.resume_schedule(OWNER, id).unwrap();

    let after = scheduler.get_schedule(id).unwrap();
    assert_eq!(after, before);
}

#[test]
fn test_lifecycle_authorization() {
    let mut scheduler = RecurringRemittance::new();
    let id = weekly_schedule(&mut scheduler, 0, 5000);

    assert_eq!(scheduler.pause_schedule(STRANGER, id), Err(ScheduleError::Unauthorized));
    assert_eq!(scheduler.resume_schedule(STRANGER, id), Err(ScheduleError::Unauthorized));
    assert_eq!(
        scheduler.modify_schedule(STRANGER, id, Some(1), None, None, None),
        Err(ScheduleError::Unauthorized)
    );
    assert_eq!(scheduler.cancel_schedule(STRANGER, id), Err(ScheduleError::Unauthorized));
    assert_eq!(scheduler.pause_schedule(OWNER, 99), Err(ScheduleError::NotFound));

    // nothing changed and the schedule is still the owner's
    assert!(scheduler.get_schedule(id).unwrap().active);
}

#[test]
fn test_modify_schedule_partial_updates() {
    let mut scheduler = RecurringRemittance::new();
    let id = weekly_schedule(&mut scheduler, 0, 5000);

    // switching to a custom cadence takes the given day count
    scheduler
        .modify_schedule(OWNER, id, None, Some(ScheduleFrequency::Custom), Some(12), None)
        .unwrap();
    let s = scheduler.get_schedule(id).unwrap();
    assert_eq!(s.frequency, ScheduleFrequency::Custom);
    assert_eq!(s.frequency_days, 12);

    // a day count alone updates a schedule that is already custom
    scheduler.modify_schedule(OWNER, id, None, None, Some(20), None).unwrap();
    assert_eq!(scheduler.get_schedule(id).unwrap().frequency_days, 20);

    // an end can be set, and cleared again
    scheduler.modify_schedule(OWNER, id, None, None, None, Some(Some(777777))).unwrap();
    assert_eq!(scheduler.get_schedule(id).unwrap().end_timestamp, Some(777777));
    scheduler.modify_schedule(OWNER, id, None, None, None, Some(None)).unwrap();
    assert_eq!(scheduler.get_schedule(id).unwrap().end_timestamp, None);

    // the due time is never touched by modification
    assert_eq!(scheduler.get_schedule(id).unwrap().next_execution, 5000);
}

#[test]
fn test_modify_schedule_ignores_days_on_fixed_cadence() {
    let mut scheduler = RecurringRemittance::new();
    let id = weekly_schedule(&mut scheduler, 0, 5000);

    // while the cadence is weekly a bare day count is ignored, even zero
    scheduler.modify_schedule(OWNER, id, None, None, Some(0), None).unwrap();
    let s = scheduler.get_schedule(id).unwrap();
    assert_eq!(s.frequency, ScheduleFrequency::Weekly);
    assert_eq!(s.frequency_days, 0);
}

#[test]
fn test_modify_schedule_validation_errors() {
    let mut scheduler = RecurringRemittance::new();
    let id = weekly_schedule(&mut scheduler, 0, 5000);
    let before = scheduler.get_schedule(id).unwrap();

    assert_eq!(
        scheduler.modify_schedule(OWNER, id, Some(0), None, None, None),
        Err(ScheduleError::Validation(ValidationReason::NonPositiveAmount))
    );
    assert_eq!(
        scheduler.modify_schedule(OWNER, id, None, Some(ScheduleFrequency::Custom), Some(0), None),
        Err(ScheduleError::Validation(ValidationReason::CustomFrequencyWithoutDays))
    );
    // switching to custom without any day count, while the stored count is
    // zero, would break the cadence invariant and is refused
    assert_eq!(
        scheduler.modify_schedule(OWNER, id, None, Some(ScheduleFrequency::Custom), None, None),
        Err(ScheduleError::Validation(ValidationReason::CustomFrequencyWithoutDays))
    );
    assert_eq!(
        scheduler.modify_schedule(OWNER, id, None, None, None, Some(Some(5000))),
        Err(ScheduleError::Validation(ValidationReason::EndNotAfterStart))
    );

    assert_eq!(scheduler.get_schedule(id).unwrap(), before);
}

#[test]
fn test_expired_schedule_can_be_resumed() {
    let mut scheduler = RecurringRemittance::new();
    let id = scheduler
        .create_schedule(OWNER, 1000, None, ScheduleFrequency::Weekly, 0, 5000, Some(9000), 0)
        .unwrap();
    assert_eq!(scheduler.execute_schedule(id, 10000).unwrap(), ExecutionOutcome::Expired);
    assert!(!scheduler.get_schedule(id).unwrap().active);

    // resume does not re-check the end: the schedule is eligible again
    scheduler.resume_schedule(OWNER, id).unwrap();
    assert!(scheduler.get_schedule(id).unwrap().active);
    assert_eq!(scheduler.execute_schedule(id, 10000).unwrap(), ExecutionOutcome::Expired);
}

#[test]
fn test_exactly_one_execution_per_due_cycle() {
    let mut scheduler = RecurringRemittance::new();
    let id = weekly_schedule(&mut scheduler, 0, 5000);

    let first = scheduler.execute_schedule(id, 5000);
    let second = scheduler.execute_schedule(id, 5000);
    let third = scheduler.execute_schedule(id, 5000);

    assert_eq!(first, Ok(ExecutionOutcome::Executed { next_execution: 5000 + 604800 }));
    assert_eq!(second, Err(ScheduleError::NotDue));
    assert_eq!(third, Err(ScheduleError::NotDue));
    // the post-state reflects a single advance
    assert_eq!(scheduler.get_schedule(id).unwrap().next_execution, 5000 + 604800);
}

#[test]
fn test_weekly_schedule_scenario() {
    let mut scheduler = RecurringRemittance::new();
    let t0: u64 = 1000000;

    let id = scheduler
        .create_schedule(OWNER, 1000, None, ScheduleFrequency::Weekly, 0, t0, None, 0)
        .unwrap();
    assert_eq!(id, 1);
    assert_eq!(scheduler.get_schedule(id).unwrap().next_execution, t0);

    let outcome = scheduler.execute_schedule(id, t0).unwrap();
    assert_eq!(outcome, ExecutionOutcome::Executed { next_execution: t0 + 604800 });
    let s = scheduler.get_schedule(id).unwrap();
    assert_eq!(s.next_execution, t0 + 604800);
    assert_eq!(s.last_executed, Some(t0));

    assert_eq!(scheduler.execute_schedule(id, t0), Err(ScheduleError::NotDue));

    let outcome = scheduler.execute_schedule(id, t0 + 604800).unwrap();
    assert_eq!(outcome, ExecutionOutcome::Executed { next_execution: t0 + 1209600 });
    assert_eq!(scheduler.get_schedule(id).unwrap().next_execution, t0 + 1209600);
}

#[test]
fn test_get_schedules_lists_one_owner_in_id_order() {
    let mut scheduler = RecurringRemittance::new();
    let a = weekly_schedule(&mut scheduler, 0, 5000);
    let other = scheduler
        .create_schedule(STRANGER, 500, None, ScheduleFrequency::Monthly, 0, 6000, None, 0)
        .unwrap();
    let b = weekly_schedule(&mut scheduler, 0, 7000);

    let owned = scheduler.get_schedules(OWNER);
    assert_eq!(owned.len(), 2);
    assert_eq!(owned[0].id, a);
    assert_eq!(owned[1].id, b);

    let theirs = scheduler.get_schedules(STRANGER);
    assert_eq!(theirs.len(), 1);
    assert_eq!(theirs[0].id, other);
}

#[test]
fn test_get_ready_schedules_filters_and_keeps_order() {
    let mut scheduler = RecurringRemittance::new();
    let due = weekly_schedule(&mut scheduler, 0, 5000);
    let not_due = weekly_schedule(&mut scheduler, 0, 9999999);
    let paused = weekly_schedule(&mut scheduler, 0, 5000);
    scheduler.pause_schedule(OWNER, paused).unwrap();
    let ending = scheduler
        .create_schedule(OWNER, 1000, None, ScheduleFrequency::Weekly, 0, 5000, Some(6000), 0)
        .unwrap();
    let ended = scheduler
        .create_schedule(OWNER, 1000, None, ScheduleFrequency::Weekly, 0, 5000, Some(5500), 0)
        .unwrap();

    // at the end boundary a schedule is still ready; strictly past it, not
    let ready = scheduler.get_ready_schedules(6000);
    assert_eq!(ready.len(), 2);
    assert_eq!(ready[0].id, due);
    assert_eq!(ready[1].id, ending);

    let _ = (not_due, ended);
}
