//! The probe jobs of monitors.

use vstd::prelude::*;
use crate::incident::Timestamp;
use crate::jobs::{
    apply_op, handle_of, has_job, JobError, JobId, JobOp, JobRegistry, MonitorJobMetadata,
};
use crate::schedule::{cron_for_interval, cron_of, interval_class};

verus! {

/// The record of the job `job_id`, created at `now` to probe `monitor_id` at
/// the interval that `interval` names.
pub open spec fn is_monitor_job(
    job: MonitorJobMetadata,
    monitor_id: String,
    interval: Seq<char>,
    job_id: JobId,
    now: Timestamp,
) -> bool {
    &&& job.id == job_id
    &&& job.monitor_id == monitor_id
    &&& job.cron_expr@ == cron_of(interval_class(interval))
    &&& job.created_at == now
}

/// Registers the recurring probe job that the scheduler took as `job_id` for
/// the monitor, with the cron expression of its interval class. A monitor
/// that already has a job keeps it, and the call reports `AlreadyExists`.
pub fn create_job(
    registry: &mut JobRegistry<MonitorJobMetadata>,
    monitor_id: String,
    interval: &String,
    job_id: JobId,
    now: Timestamp,
) -> (res: Result<JobId, JobError>)
    requires
        old(registry).wf(),
    ensures
        final(registry).wf(),
        has_job(old(registry)@, monitor_id@) ==> res == Err::<JobId, JobError>(
            JobError::AlreadyExists,
        ) && final(registry)@ == old(registry)@,
        !has_job(old(registry)@, monitor_id@) ==> res == Ok::<JobId, JobError>(job_id)
            && final(registry)@.len() == old(registry)@.len() + 1 && final(registry)@.drop_last()
            == old(registry)@ && is_monitor_job(
            final(registry)@.last(),
            monitor_id,
            interval@,
            job_id,
            now,
        ) && handle_of(final(registry)@, monitor_id@) == Some(job_id),
{
    let job = MonitorJobMetadata {
        id: job_id,
        cron_expr: cron_for_interval(interval),
        monitor_id,
        created_at: now,
    };
    let res = registry.create(job);
    proof {
        if !has_job(old(registry)@, monitor_id@) {
            assert(registry@.drop_last() == old(registry)@);
        }
    }
    res
}

/// Puts the job that the scheduler took as `job_id` in the place of the
/// monitor's job and returns the handle of the old job for the caller to
/// cancel. Where the monitor had no job the new one is registered all the
/// same and the call reports `NotFound`.
pub fn update_job(
    registry: &mut JobRegistry<MonitorJobMetadata>,
    monitor_id: String,
    interval: &String,
    job_id: JobId,
    now: Timestamp,
) -> (res: Result<JobId, JobError>)
    requires
        old(registry).wf(),
    ensures
        final(registry).wf(),
        match handle_of(old(registry)@, monitor_id@) {
            Some(previous) => res == Ok::<JobId, JobError>(previous),
            None => res == Err::<JobId, JobError>(JobError::NotFound),
        },
        final(registry)@.len() > 0,
        is_monitor_job(final(registry)@.last(), monitor_id, interval@, job_id, now),
        final(registry)@ == apply_op(old(registry)@, JobOp::Replace(final(registry)@.last())),
        handle_of(final(registry)@, monitor_id@) == Some(job_id),
{
    let job = MonitorJobMetadata {
        id: job_id,
        cron_expr: cron_for_interval(interval),
        monitor_id,
        created_at: now,
    };
    match registry.replace(job) {
        Some(previous) => Ok(previous),
        None => Err(JobError::NotFound),
    }
}

} // verus!
