//! The incident engine: a per-monitor state machine with hysteresis.
//!
//! A monitor is *healthy* while nothing is tracked for it, *open* while its
//! tracked episode has a success counter of zero, and *recovering* while the
//! counter is positive. The functions here decide each transition and tell the
//! caller which durable writes go with it; the caller performs the writes.

use vstd::prelude::*;
use crate::incident::{Incident, TrackedIncident};

verus! {

/// No two entries belong to the same monitor.
pub open spec fn distinct_monitors(s: Seq<TrackedIncident>) -> bool {
    forall|i: int, j: int|
        0 <= i < s.len() && 0 <= j < s.len() && i != j ==> s[i].monitor_id@ != s[j].monitor_id@
}

/// Some entry belongs to `monitor`.
pub open spec fn tracks(s: Seq<TrackedIncident>, monitor: Seq<char>) -> bool {
    exists|i: int| 0 <= i < s.len() && (#[trigger] s[i]).monitor_id@ == monitor
}

/// The position of an entry that belongs to `monitor`, where there is one.
pub open spec fn index_of(s: Seq<TrackedIncident>, monitor: Seq<char>) -> int {
    choose|i: int| 0 <= i < s.len() && (#[trigger] s[i]).monitor_id@ == monitor
}

/// The entry that belongs to `monitor`, if any.
pub open spec fn entry_of(s: Seq<TrackedIncident>, monitor: Seq<char>) -> Option<TrackedIncident> {
    if tracks(s, monitor) {
        Some(s[index_of(s, monitor)])
    } else {
        None
    }
}

/// With distinct monitors, the entry of a monitor stands at one position only.
pub proof fn lemma_index_unique(s: Seq<TrackedIncident>, monitor: Seq<char>, i: int)
    requires
        distinct_monitors(s),
        0 <= i < s.len(),
        s[i].monitor_id@ == monitor,
    ensures
        tracks(s, monitor),
        index_of(s, monitor) == i,
        entry_of(s, monitor) == Some(s[i]),
{
    assert(tracks(s, monitor));
    let j = index_of(s, monitor);
    assert(0 <= j < s.len() && s[j].monitor_id@ == monitor);
}

/// The durable store already holds the episode's incident as resolved.
pub open spec fn is_stale(entry: TrackedIncident, stored: Option<Incident>) -> bool {
    match stored {
        Some(inc) => inc.id@ == entry.incident.id@ && inc.is_resolved(),
        None => false,
    }
}

/// The `threshold` most recent pings exist and all of them failed.
/// `recent[0]` is the newest ping; `true` stands for a successful one.
pub open spec fn threshold_breached(recent: Seq<bool>, threshold: nat) -> bool {
    recent.len() >= threshold && forall|i: int| 0 <= i < threshold ==> !recent[i]
}

/// A recovering episode that has not yet been flagged as failing again.
pub open spec fn regresses(entry: TrackedIncident) -> bool {
    !entry.investigating_created && entry.monitoring_created && entry.success != 0
}

/// The entry after a regression: counter back to zero, flagged once.
pub open spec fn regressed(entry: TrackedIncident) -> TrackedIncident {
    TrackedIncident { success: 0, investigating_created: true, ..entry }
}

/// The first success of an episode, which calls for a "monitoring" report.
pub open spec fn first_success(entry: TrackedIncident) -> bool {
    entry.success == 0 && !entry.monitoring_created
}

/// The entry after one more success. The counter stops at `u32::MAX`.
pub open spec fn counted(entry: TrackedIncident) -> TrackedIncident {
    TrackedIncident {
        success: if entry.success < u32::MAX {
            (entry.success + 1) as u32
        } else {
            entry.success
        },
        monitoring_created: entry.monitoring_created || entry.success == 0,
        ..entry
    }
}

/// What the caller has to do after a failed probe.
#[derive(Debug)]
pub enum FailureAction {
    /// Nothing: too few failures so far, or the episode is already tracked.
    Nothing,
    /// Create an incident for the monitor, link it, write its
    /// "investigating" report, hand it to `track_incident`, reconcile and
    /// notify.
    OpenIncident,
    /// Write a new "investigating" report for the incident and reconcile.
    ReportRegression { incident_id: String },
    /// The tracked episode was stale and has been dropped: reconcile.
    DropStale { incident_id: String },
}

/// What the caller has to do after a successful probe.
#[derive(Debug)]
pub enum SuccessAction {
    /// Nothing: the monitor is healthy.
    Nothing,
    /// The tracked episode was stale and has been dropped: reconcile.
    DropStale { incident_id: String },
    /// The success was counted: write a "monitoring" report if
    /// `monitoring_report` is set, then reconcile.
    Counted { incident_id: String, monitoring_report: bool },
    /// The counter reached the threshold and the episode is over: write a
    /// "monitoring" report if `monitoring_report` is set, write the
    /// "resolved" report, mark the incident resolved, reconcile.
    Resolved { incident_id: String, monitoring_report: bool },
}

/// The decision taken on a failed probe.
pub open spec fn failure_action(
    s: Seq<TrackedIncident>,
    monitor: Seq<char>,
    stored: Option<Incident>,
    recent: Seq<bool>,
    threshold: nat,
) -> FailureAction {
    match entry_of(s, monitor) {
        Some(entry) => if is_stale(entry, stored) {
            FailureAction::DropStale { incident_id: entry.incident.id }
        } else if regresses(entry) {
            FailureAction::ReportRegression { incident_id: entry.incident.id }
        } else {
            FailureAction::Nothing
        },
        None => if threshold_breached(recent, threshold) {
            FailureAction::OpenIncident
        } else {
            FailureAction::Nothing
        },
    }
}

/// The tracked set after a failed probe.
pub open spec fn after_failure(
    s: Seq<TrackedIncident>,
    monitor: Seq<char>,
    stored: Option<Incident>,
    recent: Seq<bool>,
    threshold: nat,
) -> Seq<TrackedIncident> {
    match entry_of(s, monitor) {
        Some(entry) => if is_stale(entry, stored) {
            s.remove(index_of(s, monitor))
        } else if regresses(entry) {
            s.update(index_of(s, monitor), regressed(entry))
        } else {
            s
        },
        None => s,
    }
}

/// The decision taken on a successful probe.
pub open spec fn success_action(
    s: Seq<TrackedIncident>,
    monitor: Seq<char>,
    stored: Option<Incident>,
    threshold: nat,
) -> SuccessAction {
    match entry_of(s, monitor) {
        Some(entry) => if is_stale(entry, stored) {
            SuccessAction::DropStale { incident_id: entry.incident.id }
        } else if counted(entry).success == threshold {
            SuccessAction::Resolved {
                incident_id: entry.incident.id,
                monitoring_report: first_success(entry),
            }
        } else {
            SuccessAction::Counted {
                incident_id: entry.incident.id,
                monitoring_report: first_success(entry),
            }
        },
        None => SuccessAction::Nothing,
    }
}

/// The tracked set after a successful probe.
pub open spec fn after_success(
    s: Seq<TrackedIncident>,
    monitor: Seq<char>,
    stored: Option<Incident>,
    threshold: nat,
) -> Seq<TrackedIncident> {
    match entry_of(s, monitor) {
        Some(entry) => if is_stale(entry, stored) || counted(entry).success == threshold {
            s.remove(index_of(s, monitor))
        } else {
            s.update(index_of(s, monitor), counted(entry))
        },
        None => s,
    }
}

/// A fresh episode for `monitor`, paired with `incident`.
pub open spec fn fresh_entry(monitor_id: String, incident: Incident) -> TrackedIncident {
    TrackedIncident {
        monitor_id,
        incident,
        success: 0,
        monitoring_created: false,
        investigating_created: false,
    }
}

/// Why an episode could not be tracked.
#[derive(Debug, PartialEq, Eq, Structural, Clone, Copy)]
pub enum TrackError {
    /// The monitor already has a tracked episode.
    AlreadyTracked,
}

/// The tracked incidents of all monitors, at most one per monitor.
#[derive(Debug)]
pub struct IncidentRegistry {
    episodes: Vec<TrackedIncident>,
}

impl View for IncidentRegistry {
    type V = Seq<TrackedIncident>;

    closed spec fn view(&self) -> Seq<TrackedIncident> {
        self.episodes@
    }
}

impl IncidentRegistry {
    /// Every monitor has at most one tracked episode.
    pub open spec fn wf(&self) -> bool {
        distinct_monitors(self@)
    }

    /// A registry that tracks nothing.
    pub fn new() -> (res: Self)
        ensures
            res@ == Seq::<TrackedIncident>::empty(),
            res.wf(),
    {
        IncidentRegistry { episodes: Vec::new() }
    }

    /// The number of tracked episodes.
    pub fn len(&self) -> (res: usize)
        ensures
            res == self@.len(),
    {
        self.episodes.len()
    }

    /// The tracked episodes, oldest first.
    pub fn entries(&self) -> (res: &Vec<TrackedIncident>)
        ensures
            res@ == self@,
    {
        &self.episodes
    }

    /// The position of the monitor's tracked episode, if it has one.
    pub fn find(&self, monitor_id: &String) -> (res: Option<usize>)
        requires
            self.wf(),
        ensures
            res.is_some() == tracks(self@, monitor_id@),
            res matches Some(i) ==> i == index_of(self@, monitor_id@) && i < self@.len(),
    {
        let mut i: usize = 0;
        while i < self.episodes.len()
            invariant
                self.wf(),
                i <= self.episodes.len(),
                forall|k: int| 0 <= k < i ==> self.episodes@[k].monitor_id@ != monitor_id@,
            decreases self.episodes.len() - i,
        {
            if self.episodes[i].monitor_id == *monitor_id {
                proof {
                    lemma_index_unique(self@, monitor_id@, i as int);
                }
                return Some(i);
            }
            i += 1;
        }
        None
    }

    /// Takes up an episode as it is, counter and flags included. A monitor
    /// that already has an episode keeps it, and the call reports
    /// `AlreadyTracked`.
    pub fn restore(&mut self, entry: TrackedIncident) -> (res: Result<(), TrackError>)
        requires
            old(self).wf(),
        ensures
            final(self).wf(),
            res.is_ok() == !tracks(old(self)@, entry.monitor_id@),
            res.is_ok() ==> final(self)@ == old(self)@.push(entry),
            res.is_err() ==> final(self)@ == old(self)@,
            res.is_ok() ==> entry_of(final(self)@, entry.monitor_id@) == Some(entry),
            entry_of(final(self)@, entry.monitor_id@).is_some(),
    {
        match self.find(&entry.monitor_id) {
            Some(i) => {
                proof {
                    lemma_index_unique(self@, entry.monitor_id@, i as int);
                }
                Err(TrackError::AlreadyTracked)
            },
            None => {
                proof {
                    lemma_push_distinct(self@, entry);
                }
                self.episodes.push(entry);
                Ok(())
            },
        }
    }

    /// A copy of the monitor's tracked episode, if it has one.
    pub fn get(&self, monitor_id: &String) -> (res: Option<TrackedIncident>)
        requires
            self.wf(),
        ensures
            res == entry_of(self@, monitor_id@),
    {
        match self.find(monitor_id) {
            Some(i) => Some(self.episodes[i].clone()),
            None => None,
        }
    }
}

/// Removing an entry keeps the monitors distinct.
pub proof fn lemma_remove_distinct(s: Seq<TrackedIncident>, i: int)
    requires
        distinct_monitors(s),
        0 <= i < s.len(),
    ensures
        distinct_monitors(s.remove(i)),
        !tracks(s.remove(i), s[i].monitor_id@),
        forall|m: Seq<char>|
            m != s[i].monitor_id@ ==> entry_of(s.remove(i), m) == entry_of(s, m),
{
    let r = s.remove(i);
    assert forall|a: int, b: int| 0 <= a < r.len() && 0 <= b < r.len() && a != b implies r[a].monitor_id@
        != r[b].monitor_id@ by {
        let a0 = if a < i { a } else { a + 1 };
        let b0 = if b < i { b } else { b + 1 };
        assert(r[a] == s[a0] && r[b] == s[b0]);
    }
    assert forall|k: int| 0 <= k < r.len() implies (#[trigger] r[k]).monitor_id@ != s[i].monitor_id@ by {
        let k0 = if k < i { k } else { k + 1 };
        assert(r[k] == s[k0]);
    }
    assert forall|m: Seq<char>| m != s[i].monitor_id@ implies entry_of(r, m) == entry_of(s, m) by {
        if tracks(s, m) {
            let j = index_of(s, m);
            let j1 = if j < i { j } else { j - 1 };
            assert(r[j1] == s[j]);
            lemma_index_unique(r, m, j1);
        } else if tracks(r, m) {
            let k = index_of(r, m);
            let k0 = if k < i { k } else { k + 1 };
            assert(r[k] == s[k0]);
            assert(tracks(s, m));
        }
    }
}

/// Replacing an entry by one of the same monitor keeps the monitors distinct.
pub proof fn lemma_update_distinct(s: Seq<TrackedIncident>, i: int, e: TrackedIncident)
    requires
        distinct_monitors(s),
        0 <= i < s.len(),
        e.monitor_id@ == s[i].monitor_id@,
    ensures
        distinct_monitors(s.update(i, e)),
        entry_of(s.update(i, e), e.monitor_id@) == Some(e),
        forall|m: Seq<char>|
            m != s[i].monitor_id@ ==> entry_of(s.update(i, e), m) == entry_of(s, m),
{
    let r = s.update(i, e);
    lemma_index_unique(r, e.monitor_id@, i);
    assert forall|m: Seq<char>| m != s[i].monitor_id@ implies entry_of(r, m) == entry_of(s, m) by {
        if tracks(s, m) {
            let j = index_of(s, m);
            assert(r[j] == s[j]);
            lemma_index_unique(r, m, j);
        } else if tracks(r, m) {
            let k = index_of(r, m);
            assert(r[k] == s[k]);
            assert(tracks(s, m));
        }
    }
}

/// Adding an entry for an untracked monitor keeps the monitors distinct.
pub proof fn lemma_push_distinct(s: Seq<TrackedIncident>, e: TrackedIncident)
    requires
        distinct_monitors(s),
        !tracks(s, e.monitor_id@),
    ensures
        distinct_monitors(s.push(e)),
        entry_of(s.push(e), e.monitor_id@) == Some(e),
        forall|m: Seq<char>| m != e.monitor_id@ ==> entry_of(s.push(e), m) == entry_of(s, m),
{
    let r = s.push(e);
    assert forall|a: int, b: int| 0 <= a < r.len() && 0 <= b < r.len() && a != b implies r[a].monitor_id@
        != r[b].monitor_id@ by {
        if a < s.len() {
            assert(r[a] == s[a]);
        }
        if b < s.len() {
            assert(r[b] == s[b]);
        }
    }
    lemma_index_unique(r, e.monitor_id@, s.len() as int);
    assert forall|m: Seq<char>| m != e.monitor_id@ implies entry_of(r, m) == entry_of(s, m) by {
        if tracks(s, m) {
            let j = index_of(s, m);
            assert(r[j] == s[j]);
            lemma_index_unique(r, m, j);
        } else if tracks(r, m) {
            let k = index_of(r, m);
            assert(r[k] == s[k]);
            assert(tracks(s, m));
        }
    }
}

/// Whether the durable copy shows the episode's incident as resolved.
fn stale(entry: &TrackedIncident, stored: Option<&Incident>) -> (res: bool)
    ensures
        res == is_stale(*entry, stored_value(stored)),
{
    match stored {
        Some(inc) => inc.id == entry.incident.id && inc.resolved(),
        None => false,
    }
}

/// Whether the `threshold` most recent pings exist and all failed.
/// `recent[0]` is the newest ping; `true` stands for a successful one.
pub fn pings_breach_threshold(recent: &Vec<bool>, threshold: u64) -> (res: bool)
    ensures
        res == threshold_breached(recent@, threshold as nat),
{
    if (recent.len() as u64) < threshold {
        return false;
    }
    let mut i: usize = 0;
    while (i as u64) < threshold
        invariant
            recent.len() as u64 >= threshold,
            i <= threshold,
            forall|k: int| 0 <= k < i ==> !recent@[k],
        decreases threshold - i,
    {
        if recent[i] {
            return false;
        }
        i += 1;
    }
    true
}

/// A plain view of an optional borrowed incident.
pub open spec fn stored_value(stored: Option<&Incident>) -> Option<Incident> {
    match stored {
        Some(inc) => Some(*inc),
        None => None,
    }
}

/// Feeds a failed probe of `monitor_id` into the engine.
///
/// `stored` is the durable copy of the incident that the monitor's tracked
/// episode is paired with, where the caller has read one. `recent` holds the
/// monitor's latest pings, newest first, the failed one included.
///
/// An untracked monitor asks for a new incident once its `threshold` latest
/// pings all failed. A tracked one whose incident the store shows as resolved
/// is dropped. A recovering one that fails for the first time goes back to a
/// counter of zero. Anything else is left as it is.
pub fn check_health(
    registry: &mut IncidentRegistry,
    monitor_id: &String,
    stored: Option<&Incident>,
    recent: &Vec<bool>,
    threshold: u64,
) -> (action: FailureAction)
    requires
        old(registry).wf(),
    ensures
        final(registry).wf(),
        action == failure_action(
            old(registry)@,
            monitor_id@,
            stored_value(stored),
            recent@,
            threshold as nat,
        ),
        final(registry)@ == after_failure(
            old(registry)@,
            monitor_id@,
            stored_value(stored),
            recent@,
            threshold as nat,
        ),
{
    match registry.find(monitor_id) {
        Some(i) => {
            let entry = registry.episodes[i].clone();
            if stale(&entry, stored) {
                proof {
                    lemma_remove_distinct(registry@, i as int);
                }
                registry.episodes.remove(i);
                FailureAction::DropStale { incident_id: entry.incident.id }
            } else if !entry.investigating_created && entry.monitoring_created && entry.success != 0 {
                let incident_id = entry.incident.id.clone();
                let mut next = entry;
                next.success = 0;
                next.investigating_created = true;
                proof {
                    lemma_update_distinct(registry@, i as int, next);
                }
                registry.episodes.set(i, next);
                FailureAction::ReportRegression { incident_id }
            } else {
                FailureAction::Nothing
            }
        },
        None => {
            if pings_breach_threshold(recent, threshold) {
                FailureAction::OpenIncident
            } else {
                FailureAction::Nothing
            }
        },
    }
}

/// Starts tracking a fresh episode for `monitor_id`, paired with `incident`:
/// counter zero, no notice sent yet. A monitor that already has an episode
/// keeps it, and the call reports `AlreadyTracked`.
pub fn track_incident(
    registry: &mut IncidentRegistry,
    monitor_id: String,
    incident: Incident,
) -> (res: Result<(), TrackError>)
    requires
        old(registry).wf(),
    ensures
        final(registry).wf(),
        res.is_ok() == !tracks(old(registry)@, monitor_id@),
        res.is_ok() ==> final(registry)@ == old(registry)@.push(fresh_entry(monitor_id, incident)),
        res.is_err() ==> final(registry)@ == old(registry)@,
        res.is_ok() ==> entry_of(final(registry)@, monitor_id@) == Some(
            fresh_entry(monitor_id, incident),
        ),
        entry_of(final(registry)@, monitor_id@).is_some(),
{
    registry.restore(
        TrackedIncident {
            monitor_id,
            incident,
            success: 0,
            monitoring_created: false,
            investigating_created: false,
        },
    )
}

/// Feeds a successful probe of `monitor_id` into the engine.
///
/// `stored` is the durable copy of the incident that the monitor's tracked
/// episode is paired with, where the caller has read one.
///
/// A healthy monitor stays healthy. A tracked one whose incident the store
/// shows as resolved is dropped. Otherwise the success is counted, the first
/// one of an episode asking for a "monitoring" report, and the episode ends
/// when the counter, after counting, equals `threshold`.
pub fn resolve_incident(
    registry: &mut IncidentRegistry,
    monitor_id: &String,
    stored: Option<&Incident>,
    threshold: u64,
) -> (action: SuccessAction)
    requires
        old(registry).wf(),
    ensures
        final(registry).wf(),
        action == success_action(
            old(registry)@,
            monitor_id@,
            stored_value(stored),
            threshold as nat,
        ),
        final(registry)@ == after_success(
            old(registry)@,
            monitor_id@,
            stored_value(stored),
            threshold as nat,
        ),
{
    match registry.find(monitor_id) {
        Some(i) => {
            let entry = registry.episodes[i].clone();
            if stale(&entry, stored) {
                proof {
                    lemma_remove_distinct(registry@, i as int);
                }
                registry.episodes.remove(i);
                return SuccessAction::DropStale { incident_id: entry.incident.id };
            }
            let monitoring_report = entry.success == 0 && !entry.monitoring_created;
            let incident_id = entry.incident.id.clone();
            let mut next = entry;
            if next.success == 0 {
                next.monitoring_created = true;
            }
            if next.success < u32::MAX {
                next.success = next.success + 1;
            }
            if next.success as u64 == threshold {
                proof {
                    lemma_remove_distinct(registry@, i as int);
                }
                registry.episodes.remove(i);
                SuccessAction::Resolved { incident_id, monitoring_report }
            } else {
                proof {
                    lemma_update_distinct(registry@, i as int, next);
                }
                registry.episodes.set(i, next);
                SuccessAction::Counted { incident_id, monitoring_report }
            }
        },
        None => SuccessAction::Nothing,
    }
}

/// The tracked set after `k` successful probes of `monitor` in a row, none
/// of them finding a resolved incident in the store.
pub open spec fn after_successes(
    s: Seq<TrackedIncident>,
    monitor: Seq<char>,
    threshold: nat,
    k: nat,
) -> Seq<TrackedIncident>
    decreases k,
{
    if k == 0 {
        s
    } else {
        after_success(after_successes(s, monitor, threshold, (k - 1) as nat), monitor, None, threshold)
    }
}

/// A healthy monitor whose latest pings are `failures` failures in a row,
/// with nothing or a success before them, is asked to open an incident
/// exactly when `failures` has reached the threshold; below it nothing
/// happens, and the tracked set never changes by the decision alone.
pub proof fn threshold_opens_incident(
    s: Seq<TrackedIncident>,
    monitor: Seq<char>,
    stored: Option<Incident>,
    older: Seq<bool>,
    failures: nat,
    threshold: nat,
)
    requires
        !tracks(s, monitor),
        older.len() == 0 || older[0],
    ensures
        failures >= threshold ==> failure_action(
            s,
            monitor,
            stored,
            Seq::new(failures, |i: int| false) + older,
            threshold,
        ) == FailureAction::OpenIncident,
        failures < threshold ==> failure_action(
            s,
            monitor,
            stored,
            Seq::new(failures, |i: int| false) + older,
            threshold,
        ) == FailureAction::Nothing,
        after_failure(s, monitor, stored, Seq::new(failures, |i: int| false) + older, threshold)
            == s,
{
    let recent = Seq::new(failures, |i: int| false) + older;
    if failures >= threshold {
        assert forall|i: int| 0 <= i < threshold implies !recent[i] by {}
    } else if recent.len() >= threshold {
        assert(recent[failures as int] == older[0]);
    }
}

/// While a monitor has a tracked episode, a failed probe never asks for
/// another incident: there is one incident per episode.
pub proof fn tracked_monitor_opens_no_incident(
    s: Seq<TrackedIncident>,
    monitor: Seq<char>,
    stored: Option<Incident>,
    recent: Seq<bool>,
    threshold: nat,
)
    requires
        tracks(s, monitor),
    ensures
        failure_action(s, monitor, stored, recent, threshold) != FailureAction::OpenIncident,
{
}

/// From an episode with a counter of zero, `k` successes in a row leave the
/// monitor recovering with a counter of `k` as long as `k` is below the
/// threshold, and the success that makes `threshold` resolves the incident
/// and removes the episode.
pub proof fn hysteresis_resolves(
    s: Seq<TrackedIncident>,
    monitor: Seq<char>,
    threshold: nat,
    k: nat,
)
    requires
        distinct_monitors(s),
        entry_of(s, monitor) matches Some(e) && e.success == 0,
        1 <= threshold <= u32::MAX,
        k <= threshold,
    ensures
        distinct_monitors(after_successes(s, monitor, threshold, k)),
        k < threshold ==> (entry_of(after_successes(s, monitor, threshold, k), monitor) matches Some(e)
            && e.success == k && (k >= 1 ==> e.monitoring_created) && e.incident == entry_of(
            s,
            monitor,
        ).unwrap().incident),
        k == threshold ==> !tracks(after_successes(s, monitor, threshold, k), monitor),
        k == threshold ==> success_action(
            after_successes(s, monitor, threshold, (k - 1) as nat),
            monitor,
            None,
            threshold,
        ) is Resolved,
    decreases k,
{
    if k > 0 {
        let k1 = (k - 1) as nat;
        hysteresis_resolves(s, monitor, threshold, k1);
        let prev = after_successes(s, monitor, threshold, k1);
        let i = index_of(prev, monitor);
        let e = prev[i];
        assert(counted(e).success == k);
        if k == threshold {
            lemma_remove_distinct(prev, i);
        } else {
            lemma_update_distinct(prev, i, counted(e));
        }
    }
}

/// An incident that the store shows as resolved is never resolved again:
/// its episode is dropped, whatever the counter says, and no report is
/// asked for.
pub proof fn resolved_incident_stays_resolved(
    s: Seq<TrackedIncident>,
    monitor: Seq<char>,
    stored: Option<Incident>,
    threshold: nat,
)
    requires
        distinct_monitors(s),
        entry_of(s, monitor) matches Some(e) && is_stale(e, stored),
    ensures
        success_action(s, monitor, stored, threshold) == (SuccessAction::DropStale {
            incident_id: entry_of(s, monitor).unwrap().incident.id,
        }),
        !tracks(after_success(s, monitor, stored, threshold), monitor),
{
    lemma_remove_distinct(s, index_of(s, monitor));
}

/// What happens to one monitor leaves the episodes of all others as they
/// were, and keeps one episode per monitor.
pub proof fn other_monitors_untouched(
    s: Seq<TrackedIncident>,
    monitor: Seq<char>,
    other: Seq<char>,
    stored: Option<Incident>,
    recent: Seq<bool>,
    threshold: nat,
)
    requires
        distinct_monitors(s),
        other != monitor,
    ensures
        distinct_monitors(after_failure(s, monitor, stored, recent, threshold)),
        distinct_monitors(after_success(s, monitor, stored, threshold)),
        entry_of(after_failure(s, monitor, stored, recent, threshold), other) == entry_of(s, other),
        entry_of(after_success(s, monitor, stored, threshold), other) == entry_of(s, other),
{
    if tracks(s, monitor) {
        let i = index_of(s, monitor);
        lemma_remove_distinct(s, i);
        lemma_update_distinct(s, i, regressed(s[i]));
        lemma_update_distinct(s, i, counted(s[i]));
    }
}

/// A recovering episode that fails goes back to a counter of zero and asks
/// for one "investigating" report; a failure right after it asks for nothing
/// and changes nothing.
pub proof fn regression_resets_counter(
    s: Seq<TrackedIncident>,
    monitor: Seq<char>,
    stored: Option<Incident>,
    recent: Seq<bool>,
    later: Seq<bool>,
    threshold: nat,
)
    requires
        distinct_monitors(s),
        entry_of(s, monitor) matches Some(e) && e.success >= 1 && e.monitoring_created
            && !e.investigating_created && !is_stale(e, stored),
    ensures
        failure_action(s, monitor, stored, recent, threshold) == (FailureAction::ReportRegression {
            incident_id: entry_of(s, monitor).unwrap().incident.id,
        }),
        entry_of(after_failure(s, monitor, stored, recent, threshold), monitor) == Some(
            regressed(entry_of(s, monitor).unwrap()),
        ),
        failure_action(
            after_failure(s, monitor, stored, recent, threshold),
            monitor,
            stored,
            later,
            threshold,
        ) == FailureAction::Nothing,
        after_failure(
            after_failure(s, monitor, stored, recent, threshold),
            monitor,
            stored,
            later,
            threshold,
        ) == after_failure(s, monitor, stored, recent, threshold),
{
    let i = index_of(s, monitor);
    let e = s[i];
    lemma_update_distinct(s, i, regressed(e));
}

} // verus!
