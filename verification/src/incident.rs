//! Incidents and the per-monitor hysteresis state that tracks them.

use vstd::prelude::*;

verus! {

/// A point in time, in microseconds since the Unix epoch (UTC).
#[derive(Copy, Debug, PartialEq, Eq, Structural)]
pub struct Timestamp {
    pub micros: i64,
}

impl Clone for Timestamp {
    fn clone(&self) -> (res: Self)
        ensures
            res == *self,
    {
        Timestamp { micros: self.micros }
    }
}

/// A detected outage episode, as the durable store records it.
#[derive(Debug)]
pub struct Incident {
    pub id: String,
    pub title: String,
    pub started_at: Timestamp,
    pub acknowledged_at: Option<Timestamp>,
    pub resolved_at: Option<Timestamp>,
    pub auto_resolved: bool,
}

impl Incident {
    /// Whether the incident has been closed.
    pub open spec fn is_resolved(self) -> bool {
        self.resolved_at.is_some()
    }

    /// Whether the incident has been closed.
    pub fn resolved(&self) -> (res: bool)
        ensures
            res == self.is_resolved(),
    {
        self.resolved_at.is_some()
    }
}

impl Clone for Incident {
    fn clone(&self) -> (res: Self)
        ensures
            res == *self,
    {
        Incident {
            id: self.id.clone(),
            title: self.title.clone(),
            started_at: self.started_at,
            acknowledged_at: self.acknowledged_at,
            resolved_at: self.resolved_at,
            auto_resolved: self.auto_resolved,
        }
    }
}

/// The workspace a monitor belongs to.
#[derive(Debug)]
pub struct Workspace {
    pub id: String,
    pub slug: String,
}

impl Clone for Workspace {
    fn clone(&self) -> (res: Self)
        ensures
            res == *self,
    {
        Workspace { id: self.id.clone(), slug: self.slug.clone() }
    }
}

/// The live hysteresis state of one monitor's open episode.
#[derive(Debug)]
pub struct TrackedIncident {
    pub monitor_id: String,
    pub incident: Incident,
    pub success: u32,
    pub monitoring_created: bool,
    pub investigating_created: bool,
}

impl Clone for TrackedIncident {
    fn clone(&self) -> (res: Self)
        ensures
            res == *self,
    {
        TrackedIncident {
            monitor_id: self.monitor_id.clone(),
            incident: self.incident.clone(),
            success: self.success,
            monitoring_created: self.monitoring_created,
            investigating_created: self.investigating_created,
        }
    }
}

} // verus!
