//! How the outcome of a management call is reported to its caller.

use vstd::prelude::*;

verus! {

/// Why a management call failed.
#[derive(Copy, Clone, Debug, PartialEq, Eq, Structural)]
pub enum ApiError {
    /// No monitor has the id.
    UnknownMonitor,
    /// No event has the id.
    UnknownEvent,
    /// The entity has no job to remove.
    JobNotFound,
    /// The scheduler refused or failed.
    Scheduler,
    /// A job was replaced for an entity that had none.
    OldJobMissing,
    /// The event's end had already passed; it was completed at once.
    EventPastDue,
    /// A registry or the scheduler was used before it was set up.
    Uninitialized,
}

/// The HTTP status that stands for an error: 404 for what was not found,
/// 500 for everything else.
pub open spec fn status_of(error: ApiError) -> u16 {
    match error {
        ApiError::UnknownMonitor | ApiError::UnknownEvent | ApiError::JobNotFound => 404,
        _ => 500,
    }
}

/// The HTTP status to answer a failed management call with.
pub fn status_code(error: ApiError) -> (res: u16)
    ensures
        res == status_of(error),
{
    match error {
        ApiError::UnknownMonitor => 404,
        ApiError::UnknownEvent => 404,
        ApiError::JobNotFound => 404,
        ApiError::Scheduler => 500,
        ApiError::OldJobMissing => 500,
        ApiError::EventPastDue => 500,
        ApiError::Uninitialized => 500,
    }
}

} // verus!
