//! The remittance schedule record, its validity invariant, and the pure
//! transition functions of the lifecycle and of the due-time execution
//! engine. Everything the engine does to a record is a function defined
//! here, so that the operations' contracts and the cross-operation laws can
//! speak one language.

use vstd::prelude::*;

verus! {

/// Number of seconds in one day, the unit in which cadences are stated.
pub const SECONDS_PER_DAY: u64 = 86400;

/// Cadence of a schedule. The first three stand for a fixed day count —
/// 7, 14, and a fixed-length 30-day month (not calendar-aware). `Custom`
/// takes its day count from the schedule's `frequency_days` field.
#[derive(Clone, Copy, Debug, PartialEq, Eq, Structural)]
pub enum ScheduleFrequency {
    Weekly,
    BiWeekly,
    Monthly,
    Custom,
}

/// Kind of lifecycle event the embedding host publishes after each
/// successful mutating operation. Delivery is the host's concern and is
/// fire-and-forget; the kinds are listed here so that host and core share
/// one vocabulary.
#[derive(Clone, Copy, Debug, PartialEq, Eq, Structural)]
pub enum ScheduleEvent {
    Created,
    Executed,
    Paused,
    Resumed,
    Modified,
    Cancelled,
}

/// Why schedule parameters were rejected: the first failing check, in the
/// order the checks run (amount, cadence, start, end).
#[derive(Clone, Copy, Debug, PartialEq, Eq, Structural)]
pub enum ValidationReason {
    /// The amount was zero or negative.
    NonPositiveAmount,
    /// The cadence is `Custom` but the day count is zero.
    CustomFrequencyWithoutDays,
    /// The start lies before the current time; schedules may not be
    /// back-dated.
    StartInPast,
    /// An end was given that does not lie after the start.
    EndNotAfterStart,
}

/// Errors of the schedule operations. Every error is detected before any
/// store mutation, so a failed call leaves the store unchanged, and all are
/// recoverable by the caller.
#[derive(Clone, Copy, Debug, PartialEq, Eq, Structural)]
pub enum ScheduleError {
    /// Parameters failed validation; carries the first failing check.
    Validation(ValidationReason),
    /// No schedule with the given id exists.
    NotFound,
    /// The caller is not the schedule's owner.
    Unauthorized,
    /// The schedule is paused or was deactivated on expiry.
    NotActive,
    /// The schedule's next due time has not been reached.
    NotDue,
}

/// Outcome of a successful `execute_schedule` call: either the transfer was
/// due and the cadence advanced, or the schedule was past its end and was
/// deactivated. Expiry is a successful outcome carrying information, not an
/// error.
#[derive(Clone, Copy, Debug, PartialEq, Eq, Structural)]
pub enum ExecutionOutcome {
    /// The transfer was due; the cadence advanced to the returned time.
    Executed { next_execution: u64 },
    /// The current time lies past the schedule's end; the schedule was
    /// deactivated and nothing else changed.
    Expired,
}

/// A recurring remittance schedule. Owners are external principals, held
/// only for equality checks; `split_config_id` is an opaque reference to an
/// external split configuration, not interpreted here.
#[derive(Clone, Copy, Debug, PartialEq, Eq, Structural)]
pub struct RemittanceSchedule {
    /// Unique positive identifier, assigned at creation, never reused.
    pub id: u32,
    /// The external principal that created the schedule; the only party
    /// authorized to mutate it.
    pub owner: u64,
    /// Transfer amount per execution, in minor currency units; positive.
    pub amount: i128,
    /// Optional reference to an external split configuration.
    pub split_config_id: Option<u32>,
    /// The cadence.
    pub frequency: ScheduleFrequency,
    /// Day count for the `Custom` cadence; positive whenever the cadence is
    /// `Custom`.
    pub frequency_days: u32,
    /// First eligible execution time, in epoch seconds.
    pub start_timestamp: u64,
    /// Optional end of life; when present, it lies after the start.
    pub end_timestamp: Option<u64>,
    /// Whether the schedule may execute. Owner-initiated pause and
    /// engine-initiated deactivation on expiry both clear this one flag.
    pub active: bool,
    /// Time of the last successful execution, if any.
    pub last_executed: Option<u64>,
    /// The next due time; initialized to the start, advanced only by
    /// successful execution.
    pub next_execution: u64,
    /// Creation time, immutable afterwards.
    pub created_at: u64,
}

/// Day count of a cadence: 7, 14, a fixed 30, or the custom day count.
pub open spec fn frequency_day_count(frequency: ScheduleFrequency, frequency_days: u32) -> int {
    match frequency {
        ScheduleFrequency::Weekly => 7,
        ScheduleFrequency::BiWeekly => 14,
        ScheduleFrequency::Monthly => 30,
        ScheduleFrequency::Custom => frequency_days as int,
    }
}

/// Seconds between two due times of a schedule with the given cadence.
pub open spec fn period_seconds(frequency: ScheduleFrequency, frequency_days: u32) -> int {
    frequency_day_count(frequency, frequency_days) * (SECONDS_PER_DAY as int)
}

/// Computes the cadence period in seconds.
pub fn period_seconds_exec(frequency: ScheduleFrequency, frequency_days: u32) -> (period: u64)
    ensures
        period == period_seconds(frequency, frequency_days),
{
    let days: u64 = match frequency {
        ScheduleFrequency::Weekly => 7,
        ScheduleFrequency::BiWeekly => 14,
        ScheduleFrequency::Monthly => 30,
        ScheduleFrequency::Custom => frequency_days as u64,
    };
    days * SECONDS_PER_DAY
}

/// Well-formedness of a schedule record: the invariants of the data model,
/// established at creation and preserved by every operation.
pub open spec fn valid_schedule(s: RemittanceSchedule) -> bool {
    &&& s.id >= 1
    &&& s.amount > 0
    &&& (s.frequency is Custom ==> s.frequency_days > 0)
    &&& (s.end_timestamp matches Some(end) ==> end > s.start_timestamp)
}

/// The period of a well-formed schedule is positive, so a successful
/// execution always moves the next due time strictly forward.
pub proof fn lemma_valid_period_positive(s: RemittanceSchedule)
    requires
        valid_schedule(s),
    ensures
        period_seconds(s.frequency, s.frequency_days) >= SECONDS_PER_DAY,
{
}

/// Whether creation parameters are internally consistent: the amount is
/// positive, a custom cadence carries a positive day count, the start is
/// not back-dated, and an end, when given, lies after the start.
pub open spec fn params_valid(
    amount: i128,
    frequency: ScheduleFrequency,
    frequency_days: u32,
    start_timestamp: u64,
    end_timestamp: Option<u64>,
    now: u64,
) -> bool {
    &&& amount > 0
    &&& !(frequency is Custom && frequency_days == 0)
    &&& start_timestamp >= now
    &&& (end_timestamp matches Some(end) ==> end > start_timestamp)
}

/// The reason reported for rejected creation parameters: the first failing
/// check, in the order the checks run.
pub open spec fn params_rejection(
    amount: i128,
    frequency: ScheduleFrequency,
    frequency_days: u32,
    start_timestamp: u64,
    end_timestamp: Option<u64>,
    now: u64,
) -> ValidationReason {
    if amount <= 0 {
        ValidationReason::NonPositiveAmount
    } else if frequency is Custom && frequency_days == 0 {
        ValidationReason::CustomFrequencyWithoutDays
    } else if start_timestamp < now {
        ValidationReason::StartInPast
    } else {
        ValidationReason::EndNotAfterStart
    }
}

/// The record a successful creation writes: active, never executed, first
/// due exactly at the start.
pub open spec fn created_schedule(
    id: u32,
    owner: u64,
    amount: i128,
    split_config_id: Option<u32>,
    frequency: ScheduleFrequency,
    frequency_days: u32,
    start_timestamp: u64,
    end_timestamp: Option<u64>,
    now: u64,
) -> RemittanceSchedule {
    RemittanceSchedule {
        id,
        owner,
        amount,
        split_config_id,
        frequency,
        frequency_days,
        start_timestamp,
        end_timestamp,
        active: true,
        last_executed: None,
        next_execution: start_timestamp,
        created_at: now,
    }
}

/// The record after its `active` flag is set. Owner pause, owner resume,
/// and the engine's deactivation on expiry all write this one flag and
/// nothing else.
pub open spec fn with_active(s: RemittanceSchedule, active: bool) -> RemittanceSchedule {
    RemittanceSchedule { active, ..s }
}

/// The record after a successful execution at `now`: the execution time is
/// recorded and the next due time advances by one period from `now` itself
/// — not from the previous due time, so late execution drifts the cadence
/// forward. That trade of drift for simplicity is deliberate.
pub open spec fn executed(s: RemittanceSchedule, now: u64) -> RemittanceSchedule {
    RemittanceSchedule {
        last_executed: Some(now),
        next_execution: (now + period_seconds(s.frequency, s.frequency_days)) as u64,
        ..s
    }
}

/// Whether a schedule is eligible for execution at `now`: active, due, and
/// not past its end — the boundary `now == end` is still eligible.
pub open spec fn ready_at(s: RemittanceSchedule, now: u64) -> bool {
    &&& s.active
    &&& s.next_execution <= now
    &&& (s.end_timestamp matches Some(end) ==> end >= now)
}

/// The cadence a modification leaves in place: the given one, else the
/// stored one.
pub open spec fn modified_frequency(
    s: RemittanceSchedule,
    frequency: Option<ScheduleFrequency>,
) -> ScheduleFrequency {
    match frequency {
        Some(f) => f,
        None => s.frequency,
    }
}

/// The custom day count a modification leaves in place. A given day count
/// is taken up only where it matters: together with a cadence argument that
/// is `Custom`, or alone while the stored cadence is already `Custom`;
/// otherwise it is ignored.
pub open spec fn modified_frequency_days(
    s: RemittanceSchedule,
    frequency: Option<ScheduleFrequency>,
    frequency_days: Option<u32>,
) -> u32 {
    match (frequency, frequency_days) {
        (Some(f), Some(d)) => if f is Custom {
            d
        } else {
            s.frequency_days
        },
        (None, Some(d)) => if s.frequency is Custom {
            d
        } else {
            s.frequency_days
        },
        _ => s.frequency_days,
    }
}

/// Whether a partial update is acceptable on the stored record `s`: a given
/// amount is positive, the resulting cadence keeps the custom-day-count
/// invariant, and a given, present end lies after the *stored* start.
pub open spec fn modify_valid(
    s: RemittanceSchedule,
    amount: Option<i128>,
    frequency: Option<ScheduleFrequency>,
    frequency_days: Option<u32>,
    end_timestamp: Option<Option<u64>>,
) -> bool {
    &&& (amount matches Some(a) ==> a > 0)
    &&& (modified_frequency(s, frequency) is Custom ==> modified_frequency_days(
        s,
        frequency,
        frequency_days,
    ) > 0)
    &&& (end_timestamp matches Some(update) ==> (update matches Some(end) ==> end
        > s.start_timestamp))
}

/// The reason reported for a rejected modification: the first failing
/// check, in the order the checks run (amount, cadence, end).
pub open spec fn modify_rejection(
    s: RemittanceSchedule,
    amount: Option<i128>,
    frequency: Option<ScheduleFrequency>,
    frequency_days: Option<u32>,
    end_timestamp: Option<Option<u64>>,
) -> ValidationReason {
    if !(amount matches Some(a) ==> a > 0) {
        ValidationReason::NonPositiveAmount
    } else if !(modified_frequency(s, frequency) is Custom ==> modified_frequency_days(
        s,
        frequency,
        frequency_days,
    ) > 0) {
        ValidationReason::CustomFrequencyWithoutDays
    } else {
        ValidationReason::EndNotAfterStart
    }
}

/// The record after an accepted partial update. Each given field replaces
/// the stored one; the end argument distinguishes "leave unchanged" (outer
/// `None`) from "clear" (`Some(None)`) from "set" (`Some(Some(end))`). The
/// due time is untouched.
pub open spec fn modified(
    s: RemittanceSchedule,
    amount: Option<i128>,
    frequency: Option<ScheduleFrequency>,
    frequency_days: Option<u32>,
    end_timestamp: Option<Option<u64>>,
) -> RemittanceSchedule {
    RemittanceSchedule {
        amount: match amount {
            Some(a) => a,
            None => s.amount,
        },
        frequency: modified_frequency(s, frequency),
        frequency_days: modified_frequency_days(s, frequency, frequency_days),
        end_timestamp: match end_timestamp {
            Some(update) => update,
            None => s.end_timestamp,
        },
        ..s
    }
}

/// Pausing then resuming is a round trip: every field returns to its
/// original value, with `active` set back to true — so on a schedule that
/// was active to begin with, the two calls compose to the identity.
pub proof fn lemma_pause_resume_round_trip(s: RemittanceSchedule)
    ensures
        with_active(with_active(s, false), true) == with_active(s, true),
        s.active ==> with_active(with_active(s, false), true) == s,
{
}

/// A freshly created schedule is well formed.
pub proof fn lemma_created_schedule_valid(
    id: u32,
    owner: u64,
    amount: i128,
    split_config_id: Option<u32>,
    frequency: ScheduleFrequency,
    frequency_days: u32,
    start_timestamp: u64,
    end_timestamp: Option<u64>,
    now: u64,
)
    requires
        id >= 1,
        params_valid(amount, frequency, frequency_days, start_timestamp, end_timestamp, now),
    ensures
        valid_schedule(
            created_schedule(
                id,
                owner,
                amount,
                split_config_id,
                frequency,
                frequency_days,
                start_timestamp,
                end_timestamp,
                now,
            ),
        ),
{
}

/// An accepted modification preserves well-formedness.
pub proof fn lemma_modified_schedule_valid(
    s: RemittanceSchedule,
    amount: Option<i128>,
    frequency: Option<ScheduleFrequency>,
    frequency_days: Option<u32>,
    end_timestamp: Option<Option<u64>>,
)
    requires
        valid_schedule(s),
        modify_valid(s, amount, frequency, frequency_days, end_timestamp),
    ensures
        valid_schedule(modified(s, amount, frequency, frequency_days, end_timestamp)),
{
}

/// After a successful execution at `now` the schedule is no longer due at
/// `now`: the next due time lies strictly beyond it. Under the store's
/// one-at-a-time transactions this is what makes execution idempotent —
/// of any number of execution attempts in one due cycle, the first
/// advances the cadence and every later one finds the schedule not due.
pub proof fn lemma_executed_not_due(s: RemittanceSchedule, now: u64)
    requires
        valid_schedule(s),
        now + period_seconds(s.frequency, s.frequency_days) <= u64::MAX,
    ensures
        now < executed(s, now).next_execution,
        !ready_at(executed(s, now), now),
{
    lemma_valid_period_positive(s);
}

} // verus!
