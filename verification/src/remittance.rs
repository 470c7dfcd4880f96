//! The recurring remittance scheduler: lifecycle management and the
//! due-time execution engine over the schedule store.
//!
//! Every public operation is one atomic transaction against the store:
//! validate, read the affected record, compute the new state, write back.
//! Errors are detected before any mutation, so a failed call leaves the
//! store unchanged. The embedding host authenticates the caller, reads the
//! clock, and publishes the matching `ScheduleEvent` after each successful
//! mutating call; those collaborators hand their readings in as plain
//! arguments.

use vstd::prelude::*;

use crate::schedule::ExecutionOutcome;
use crate::schedule::RemittanceSchedule;
use crate::schedule::ScheduleError;
use crate::schedule::ScheduleFrequency;
use crate::schedule::ValidationReason;
use crate::schedule::created_schedule;
use crate::schedule::executed;
use crate::schedule::lemma_created_schedule_valid;
use crate::schedule::lemma_executed_not_due;
use crate::schedule::lemma_modified_schedule_valid;
use crate::schedule::modified;
use crate::schedule::modify_rejection;
use crate::schedule::modify_valid;
use crate::schedule::params_rejection;
use crate::schedule::params_valid;
use crate::schedule::period_seconds;
use crate::schedule::period_seconds_exec;
use crate::schedule::ready_at;
use crate::schedule::valid_schedule;
use crate::schedule::with_active;
use crate::store::ScheduleStore;
use crate::store::owner_schedules;
use crate::store::ready_schedules;

verus! {

/// The scheduler. Its state is exactly the schedule store; its view is the
/// map from id to stored record. Exclusive access — every mutating
/// operation takes the scheduler by `&mut` — serializes the transactions,
/// so racing execution attempts on one due cycle resolve to a single
/// advance; `lemma_one_advance_per_cycle` states why.
pub struct RecurringRemittance {
    store: ScheduleStore,
}

impl View for RecurringRemittance {
    type V = Map<u32, RemittanceSchedule>;

    closed spec fn view(&self) -> Map<u32, RemittanceSchedule> {
        self.store@
    }
}

impl RecurringRemittance {
    /// The scheduler's invariant: the store is well formed.
    pub closed spec fn wf(self) -> bool {
        self.store.wf()
    }

    /// How many ids have ever been issued; ids are never reused.
    pub closed spec fn issued(self) -> u32 {
        self.store.issued()
    }

    /// Every stored record is well formed, carries the id it is keyed
    /// under, and was issued at some point.
    pub proof fn lemma_stored_schedules_valid(self)
        requires
            self.wf(),
        ensures
            forall|id: u32| self@.dom().contains(id) ==> 1 <= id && id <= self.issued(),
            forall|id: u32| #[trigger]
                self@.dom().contains(id) ==> self@[id].id == id && valid_schedule(self@[id]),
    {
        self.store.lemma_ids_issued();
    }

    /// A scheduler with no schedules.
    pub fn new() -> (scheduler: RecurringRemittance)
        ensures
            scheduler.wf(),
            scheduler@ == Map::<u32, RemittanceSchedule>::empty(),
            scheduler.issued() == 0,
    {
        RecurringRemittance { store: ScheduleStore::new() }
    }

    /// Creates a schedule for `owner` and returns its fresh id. The host
    /// has authenticated `owner` and read `now` from the clock. On invalid
    /// parameters nothing is stored and the first failing check is
    /// reported. The new record is active, has never executed, and is
    /// first due exactly at `start_timestamp`.
    pub fn create_schedule(
        &mut self,
        owner: u64,
        amount: i128,
        split_config_id: Option<u32>,
        frequency: ScheduleFrequency,
        frequency_days: u32,
        start_timestamp: u64,
        end_timestamp: Option<u64>,
        now: u64,
    ) -> (result: Result<u32, ScheduleError>)
        requires
            old(self).wf(),
            old(self).issued() < u32::MAX,
        ensures
            final(self).wf(),
            params_valid(amount, frequency, frequency_days, start_timestamp, end_timestamp, now)
                ==> {
                let id = (old(self).issued() + 1) as u32;
                &&& result == Ok::<u32, ScheduleError>(id)
                &&& !old(self)@.dom().contains(id)
                &&& final(self).issued() == id
                &&& final(self)@ == old(self)@.insert(
                    id,
                    created_schedule(
                        id,
                        owner,
                        amount,
                        split_config_id,
                        frequency,
                        frequency_days,
                        start_timestamp,
                        end_timestamp,
                        now,
                    ),
                )
            },
            !params_valid(amount, frequency, frequency_days, start_timestamp, end_timestamp, now)
                ==> {
                &&& result == Err::<u32, ScheduleError>(
                    ScheduleError::Validation(
                        params_rejection(
                            amount,
                            frequency,
                            frequency_days,
                            start_timestamp,
                            end_timestamp,
                            now,
                        ),
                    ),
                )
                &&& final(self)@ == old(self)@
                &&& final(self).issued() == old(self).issued()
            },
    {
        if let Err(reason) = Self::validate_schedule(
            amount,
            frequency,
            frequency_days,
            start_timestamp,
            end_timestamp,
            now,
        ) {
            return Err(reason);
        }
        proof {
            self.store.lemma_ids_issued();
        }
        let id = self.store.allocate_id();
        let schedule = RemittanceSchedule {
            id,
            owner,
            amount,
            split_config_id,
            frequency,
            frequency_days,
            start_timestamp,
            end_timestamp,
            active: true,
            last_executed: None,
            next_execution: start_timestamp,
            created_at: now,
        };
        proof {
            lemma_created_schedule_valid(
                id,
                owner,
                amount,
                split_config_id,
                frequency,
                frequency_days,
                start_timestamp,
                end_timestamp,
                now,
            );
        }
        self.store.put(id, schedule);
        Ok(id)
    }

    /// Executes a due schedule at `now`, on behalf of the external
    /// trigger. In order, the call reports a missing record, an inactive
    /// one, and one not yet due, each without touching the store. A
    /// schedule past its end is deactivated and nothing else changes —
    /// the sole engine-driven transition out of the active state. Otherwise
    /// the execution time is recorded and the next due time advances one
    /// period from `now`.
    pub fn execute_schedule(&mut self, schedule_id: u32, now: u64) -> (result: Result<
        ExecutionOutcome,
        ScheduleError,
    >)
        requires
            old(self).wf(),
            old(self)@.dom().contains(schedule_id) ==> now + period_seconds(
                old(self)@[schedule_id].frequency,
                old(self)@[schedule_id].frequency_days,
            ) <= u64::MAX,
        ensures
            final(self).wf(),
            final(self).issued() == old(self).issued(),
            !old(self)@.dom().contains(schedule_id) ==> result == Err::<
                ExecutionOutcome,
                ScheduleError,
            >(ScheduleError::NotFound) && final(self)@ == old(self)@,
            ({
                let s = old(self)@[schedule_id];
                &&& old(self)@.dom().contains(schedule_id) ==> {
                    &&& !s.active ==> result == Err::<ExecutionOutcome, ScheduleError>(
                        ScheduleError::NotActive,
                    ) && final(self)@ == old(self)@
                    &&& s.active && now < s.next_execution ==> result == Err::<
                        ExecutionOutcome,
                        ScheduleError,
                    >(ScheduleError::NotDue) && final(self)@ == old(self)@
                    &&& s.active && now >= s.next_execution && (s.end_timestamp matches Some(end)
                        && now > end) ==> result == Ok::<ExecutionOutcome, ScheduleError>(
                        ExecutionOutcome::Expired,
                    ) && final(self)@ == old(self)@.insert(schedule_id, with_active(s, false))
                    &&& s.active && now >= s.next_execution && !(s.end_timestamp matches Some(end)
                        && now > end) ==> result == Ok::<ExecutionOutcome, ScheduleError>(
                        ExecutionOutcome::Executed {
                            next_execution: (now + period_seconds(
                                s.frequency,
                                s.frequency_days,
                            )) as u64,
                        },
                    ) && final(self)@ == old(self)@.insert(schedule_id, executed(s, now))
                }
            }),
    {
        let stored = self.store.get(schedule_id);
        let Some(schedule) = stored else { return Err(ScheduleError::NotFound) };
        if !schedule.active {
            return Err(ScheduleError::NotActive);
        }
        if now < schedule.next_execution {
            return Err(ScheduleError::NotDue);
        }
        proof {
            self.store.lemma_ids_issued();
        }
        if let Some(end) = schedule.end_timestamp {
            if now > end {
                let stopped = RemittanceSchedule { active: false, ..schedule };
                self.store.put(schedule_id, stopped);
                return Ok(ExecutionOutcome::Expired);
            }
        }
        let period = period_seconds_exec(schedule.frequency, schedule.frequency_days);
        let next_execution = now + period;
        let advanced = RemittanceSchedule {
            last_executed: Some(now),
            next_execution,
            ..schedule
        };
        self.store.put(schedule_id, advanced);
        Ok(ExecutionOutcome::Executed { next_execution })
    }

    /// Pauses a schedule on behalf of its owner: clears the `active` flag
    /// and touches nothing else, in particular not the due time.
    pub fn pause_schedule(&mut self, caller: u64, schedule_id: u32) -> (result: Result<
        (),
        ScheduleError,
    >)
        requires
            old(self).wf(),
        ensures
            final(self).wf(),
            final(self).issued() == old(self).issued(),
            !old(self)@.dom().contains(schedule_id) ==> result == Err::<(), ScheduleError>(
                ScheduleError::NotFound,
            ) && final(self)@ == old(self)@,
            old(self)@.dom().contains(schedule_id) && old(self)@[schedule_id].owner != caller
                ==> result == Err::<(), ScheduleError>(ScheduleError::Unauthorized) && final(self)@
                == old(self)@,
            old(self)@.dom().contains(schedule_id) && old(self)@[schedule_id].owner == caller
                ==> result == Ok::<(), ScheduleError>(()) && final(self)@ == old(self)@.insert(
                schedule_id,
                with_active(old(self)@[schedule_id], false),
            ),
    {
        let stored = self.store.get(schedule_id);
        let Some(schedule) = stored else { return Err(ScheduleError::NotFound) };
        if schedule.owner != caller {
            return Err(ScheduleError::Unauthorized);
        }
        proof {
            self.store.lemma_ids_issued();
        }
        let paused = RemittanceSchedule { active: false, ..schedule };
        self.store.put(schedule_id, paused);
        Ok(())
    }

    /// Resumes a schedule on behalf of its owner: sets the `active` flag
    /// and touches nothing else. The flag is set unconditionally — the end
    /// is not re-checked, so a schedule the engine deactivated on expiry
    /// resumes and is immediately eligible again. That documented quirk of
    /// the single flag is preserved, not fixed.
    pub fn resume_schedule(&mut self, caller: u64, schedule_id: u32) -> (result: Result<
        (),
        ScheduleError,
    >)
        requires
            old(self).wf(),
        ensures
            final(self).wf(),
            final(self).issued() == old(self).issued(),
            !old(self)@.dom().contains(schedule_id) ==> result == Err::<(), ScheduleError>(
                ScheduleError::NotFound,
            ) && final(self)@ == old(self)@,
            old(self)@.dom().contains(schedule_id) && old(self)@[schedule_id].owner != caller
                ==> result == Err::<(), ScheduleError>(ScheduleError::Unauthorized) && final(self)@
                == old(self)@,
            old(self)@.dom().contains(schedule_id) && old(self)@[schedule_id].owner == caller
                ==> result == Ok::<(), ScheduleError>(()) && final(self)@ == old(self)@.insert(
                schedule_id,
                with_active(old(self)@[schedule_id], true),
            ),
    {
        let stored = self.store.get(schedule_id);
        let Some(schedule) = stored else { return Err(ScheduleError::NotFound) };
        if schedule.owner != caller {
            return Err(ScheduleError::Unauthorized);
        }
        proof {
            self.store.lemma_ids_issued();
        }
        let resumed = RemittanceSchedule { active: true, ..schedule };
        self.store.put(schedule_id, resumed);
        Ok(())
    }

    /// Applies a partial update on behalf of the owner. Each given field
    /// replaces the stored one after its own check; the nested end
    /// argument distinguishes "leave unchanged" from "clear" from "set".
    /// The due time is untouched. On any failing check nothing is stored
    /// and the first failing check is reported.
    pub fn modify_schedule(
        &mut self,
        caller: u64,
        schedule_id: u32,
        amount: Option<i128>,
        frequency: Option<ScheduleFrequency>,
        frequency_days: Option<u32>,
        end_timestamp: Option<Option<u64>>,
    ) -> (result: Result<(), ScheduleError>)
        requires
            old(self).wf(),
        ensures
            final(self).wf(),
            final(self).issued() == old(self).issued(),
            !old(self)@.dom().contains(schedule_id) ==> result == Err::<(), ScheduleError>(
                ScheduleError::NotFound,
            ) && final(self)@ == old(self)@,
            old(self)@.dom().contains(schedule_id) && old(self)@[schedule_id].owner != caller
                ==> result == Err::<(), ScheduleError>(ScheduleError::Unauthorized) && final(self)@
                == old(self)@,
            ({
                let s = old(self)@[schedule_id];
                &&& old(self)@.dom().contains(schedule_id) && s.owner == caller ==> {
                    &&& !modify_valid(s, amount, frequency, frequency_days, end_timestamp)
                        ==> result == Err::<(), ScheduleError>(
                        ScheduleError::Validation(
                            modify_rejection(s, amount, frequency, frequency_days, end_timestamp),
                        ),
                    ) && final(self)@ == old(self)@
                    &&& modify_valid(s, amount, frequency, frequency_days, end_timestamp)
                        ==> result == Ok::<(), ScheduleError>(()) && final(self)@ == old(
                        self,
                    )@.insert(
                        schedule_id,
                        modified(s, amount, frequency, frequency_days, end_timestamp),
                    )
                }
            }),
    {
        let stored = self.store.get(schedule_id);
        let Some(schedule) = stored else { return Err(ScheduleError::NotFound) };
        if schedule.owner != caller {
            return Err(ScheduleError::Unauthorized);
        }
        if let Some(new_amount) = amount {
            if new_amount <= 0 {
                return Err(ScheduleError::Validation(ValidationReason::NonPositiveAmount));
            }
        }
        let new_frequency = match frequency {
            Some(f) => f,
            None => schedule.frequency,
        };
        let new_frequency_days = match (frequency, frequency_days) {
            (Some(f), Some(d)) => if matches!(f, ScheduleFrequency::Custom) {
                d
            } else {
                schedule.frequency_days
            },
            (None, Some(d)) => if matches!(schedule.frequency, ScheduleFrequency::Custom) {
                d
            } else {
                schedule.frequency_days
            },
            _ => schedule.frequency_days,
        };
        if matches!(new_frequency, ScheduleFrequency::Custom) && new_frequency_days == 0 {
            return Err(ScheduleError::Validation(ValidationReason::CustomFrequencyWithoutDays));
        }
        let new_end = match end_timestamp {
            Some(update) => {
                if let Some(end) = update {
                    if end <= schedule.start_timestamp {
                        return Err(ScheduleError::Validation(ValidationReason::EndNotAfterStart));
                    }
                }
                update
            },
            None => schedule.end_timestamp,
        };
        let updated = RemittanceSchedule {
            amount: match amount {
                Some(a) => a,
                None => schedule.amount,
            },
            frequency: new_frequency,
            frequency_days: new_frequency_days,
            end_timestamp: new_end,
            ..schedule
        };
        proof {
            self.store.lemma_ids_issued();
            lemma_modified_schedule_valid(
                old(self)@[schedule_id],
                amount,
                frequency,
                frequency_days,
                end_timestamp,
            );
        }
        self.store.put(schedule_id, updated);
        Ok(())
    }

    /// Cancels a schedule on behalf of its owner: a hard delete, with no
    /// tombstone. The id stays issued and is never handed out again, so
    /// cancellation is irreversible.
    pub fn cancel_schedule(&mut self, caller: u64, schedule_id: u32) -> (result: Result<
        (),
        ScheduleError,
    >)
        requires
            old(self).wf(),
        ensures
            final(self).wf(),
            final(self).issued() == old(self).issued(),
            !old(self)@.dom().contains(schedule_id) ==> result == Err::<(), ScheduleError>(
                ScheduleError::NotFound,
            ) && final(self)@ == old(self)@,
            old(self)@.dom().contains(schedule_id) && old(self)@[schedule_id].owner != caller
                ==> result == Err::<(), ScheduleError>(ScheduleError::Unauthorized) && final(self)@
                == old(self)@,
            old(self)@.dom().contains(schedule_id) && old(self)@[schedule_id].owner == caller
                ==> result == Ok::<(), ScheduleError>(()) && final(self)@ == old(self)@.remove(
                schedule_id,
            ),
    {
        let stored = self.store.get(schedule_id);
        let Some(schedule) = stored else { return Err(ScheduleError::NotFound) };
        if schedule.owner != caller {
            return Err(ScheduleError::Unauthorized);
        }
        self.store.delete(schedule_id);
        Ok(())
    }

    /// Reads a schedule by id.
    pub fn get_schedule(&self, schedule_id: u32) -> (result: Option<RemittanceSchedule>)
        requires
            self.wf(),
        ensures
            match result {
                Some(s) => self@.dom().contains(schedule_id) && s == self@[schedule_id],
                None => !self@.dom().contains(schedule_id),
            },
    {
        self.store.get(schedule_id)
    }

    /// Lists the schedules of one owner, in ascending id order.
    pub fn get_schedules(&self, owner: u64) -> (result: Vec<RemittanceSchedule>)
        requires
            self.wf(),
        ensures
            result@ == owner_schedules(self@, owner, self.issued() as int),
    {
        self.store.list_by_owner(owner)
    }

    /// Lists the schedules eligible for execution at `now` — active, due,
    /// and not past their end; `now == end` is still eligible — in
    /// ascending id order.
    pub fn get_ready_schedules(&self, now: u64) -> (result: Vec<RemittanceSchedule>)
        requires
            self.wf(),
        ensures
            result@ == ready_schedules(self@, now, self.issued() as int),
    {
        self.store.list_ready(now)
    }

    /// How many schedule ids have been issued so far; the next creation
    /// takes the id one past this. Lets the embedding host check that the
    /// id space is not exhausted before creating.
    pub fn issued_ids(&self) -> (count: u32)
        ensures
            count == self.issued(),
    {
        self.store.issued_count()
    }

    /// Checks schedule parameters without touching any state: the dry-run
    /// counterpart of `create_schedule`, accepting exactly the parameters
    /// that creation at the same `now` would accept, and reporting the
    /// same first failing check.
    pub fn validate_schedule(
        amount: i128,
        frequency: ScheduleFrequency,
        frequency_days: u32,
        start_timestamp: u64,
        end_timestamp: Option<u64>,
        now: u64,
    ) -> (result: Result<(), ScheduleError>)
        ensures
            params_valid(amount, frequency, frequency_days, start_timestamp, end_timestamp, now)
                ==> result == Ok::<(), ScheduleError>(()),
            !params_valid(amount, frequency, frequency_days, start_timestamp, end_timestamp, now)
                ==> result == Err::<(), ScheduleError>(
                ScheduleError::Validation(
                    params_rejection(
                        amount,
                        frequency,
                        frequency_days,
                        start_timestamp,
                        end_timestamp,
                        now,
                    ),
                ),
            ),
    {
        if amount <= 0 {
            return Err(ScheduleError::Validation(ValidationReason::NonPositiveAmount));
        }
        if let ScheduleFrequency::Custom = frequency {
            if frequency_days == 0 {
                return Err(ScheduleError::Validation(ValidationReason::CustomFrequencyWithoutDays));
            }
        }
        if start_timestamp < now {
            return Err(ScheduleError::Validation(ValidationReason::StartInPast));
        }
        if let Some(end) = end_timestamp {
            if end <= start_timestamp {
                return Err(ScheduleError::Validation(ValidationReason::EndNotAfterStart));
            }
        }
        Ok(())
    }
}

/// A cancelled schedule is gone: looking its id up in the store a
/// cancellation leaves behind finds nothing.
pub proof fn lemma_cancelled_schedule_not_found(m: Map<u32, RemittanceSchedule>, id: u32)
    ensures
        !m.remove(id).dom().contains(id),
{
}

/// At most one execution per due cycle: once an execution at `now` has
/// advanced a schedule, the stored record is no longer due at `now`, so
/// under the store's one-at-a-time transactions every further execution
/// attempt at the same `now` reports the schedule not due and changes
/// nothing. Of any number of racing attempts, exactly the first succeeds.
pub proof fn lemma_one_advance_per_cycle(m: Map<u32, RemittanceSchedule>, id: u32, now: u64)
    requires
        m.dom().contains(id),
        valid_schedule(m[id]),
        now + period_seconds(m[id].frequency, m[id].frequency_days) <= u64::MAX,
    ensures
        m.insert(id, executed(m[id], now)).dom().contains(id),
        now < m.insert(id, executed(m[id], now))[id].next_execution,
        !ready_at(m.insert(id, executed(m[id], now))[id], now),
{
    lemma_executed_not_due(m[id], now);
}

} // verus!
