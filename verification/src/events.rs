//! Time-boxed events and the one-shot jobs that complete them.

use vstd::prelude::*;
use crate::incident::Timestamp;
use crate::jobs::{
    apply_op, handle_of, has_job, EventJobMetadata, JobError, JobId, JobOp, JobRegistry,
};
use crate::schedule::{delay_from_micros, delay_of, Delay};

verus! {

/// A time-boxed event: it starts at `started_at` and lasts `duration`
/// minutes.
#[derive(Debug)]
pub struct Event {
    pub id: String,
    pub started_at: Timestamp,
    pub duration: i32,
    pub completed: bool,
    pub auto_complete: bool,
}

impl Event {
    /// The time at which the event ends, in microseconds since the epoch.
    pub open spec fn due_micros(self) -> int {
        self.started_at.micros + self.duration * 60_000_000
    }
}

/// What to do about an event's completion.
#[derive(Copy, Clone, Debug, PartialEq, Eq, Structural)]
pub enum CompletionPlan {
    /// The event is over: mark it completed at once, schedule nothing, and
    /// report that it was already past due.
    CompleteNow,
    /// Schedule a one-shot job that marks the event completed after `delay`.
    Schedule { delay: Delay },
}

/// The plan for an event that ends at `due`, seen from `now`.
pub open spec fn completion_plan(due: int, now: int) -> CompletionPlan {
    match delay_of(due - now) {
        Some(delay) => CompletionPlan::Schedule { delay },
        None => CompletionPlan::CompleteNow,
    }
}

/// Decides how an event gets completed: at once if its end has come or
/// passed, else by a one-shot job after the time that is left.
pub fn plan_completion(event: &Event, now: Timestamp) -> (plan: CompletionPlan)
    ensures
        plan == completion_plan(event.due_micros(), now.micros as int),
        event.due_micros() <= now.micros <==> plan == CompletionPlan::CompleteNow,
        plan matches CompletionPlan::Schedule { delay } ==> delay.wf() && delay.total_micros()
            == event.due_micros() - now.micros,
{
    let due: i128 = event.started_at.micros as i128 + (event.duration as i128) * 60_000_000;
    match delay_from_micros(due - now.micros as i128) {
        Some(delay) => CompletionPlan::Schedule { delay },
        None => CompletionPlan::CompleteNow,
    }
}

/// The record of the job `job_id`, created at `now` to complete `event_id`.
pub open spec fn is_event_job(
    job: EventJobMetadata,
    event_id: String,
    job_id: JobId,
    now: Timestamp,
) -> bool {
    job.id == job_id && job.event_id == event_id && job.created_at == now
}

/// Registers the one-shot job that the scheduler took as `job_id` for the
/// event. An event that already has a job keeps it, and the call reports
/// `AlreadyExists`.
pub fn create_job(
    registry: &mut JobRegistry<EventJobMetadata>,
    event_id: String,
    job_id: JobId,
    now: Timestamp,
) -> (res: Result<JobId, JobError>)
    requires
        old(registry).wf(),
    ensures
        final(registry).wf(),
        final(registry)@ == apply_op(
            old(registry)@,
            JobOp::Create(EventJobMetadata { id: job_id, event_id, created_at: now }),
        ),
        has_job(old(registry)@, event_id@) ==> res == Err::<JobId, JobError>(
            JobError::AlreadyExists,
        ),
        !has_job(old(registry)@, event_id@) ==> res == Ok::<JobId, JobError>(job_id) && handle_of(
            final(registry)@,
            event_id@,
        ) == Some(job_id),
{
    registry.create(EventJobMetadata { id: job_id, event_id, created_at: now })
}

/// Puts the job that the scheduler took as `job_id` in the place of the
/// event's job, if it had one, and returns the handle of the old job for the
/// caller to cancel.
pub fn update_job(
    registry: &mut JobRegistry<EventJobMetadata>,
    event_id: String,
    job_id: JobId,
    now: Timestamp,
) -> (res: Option<JobId>)
    requires
        old(registry).wf(),
    ensures
        final(registry).wf(),
        final(registry)@ == apply_op(
            old(registry)@,
            JobOp::Replace(EventJobMetadata { id: job_id, event_id, created_at: now }),
        ),
        res == handle_of(old(registry)@, event_id@),
        handle_of(final(registry)@, event_id@) == Some(job_id),
{
    registry.replace(EventJobMetadata { id: job_id, event_id, created_at: now })
}

} // verus!
