//! Keeping the tracked incidents and their durable mirror in step.
//!
//! The mirror holds one row per tracked episode, keyed by the incident's id.
//! `sync_registry` says which rows to write and which to delete so that the
//! mirror holds exactly the tracked episodes; `load_registry` rebuilds the
//! tracked set from the mirror after a restart.

use vstd::prelude::*;
use crate::incident::{Incident, TrackedIncident};
use crate::health::{distinct_monitors, tracks, IncidentRegistry, lemma_push_distinct};

verus! {

/// The mirror holds a row for the incident `id`.
pub open spec fn mirrors(mirror: Seq<String>, id: Seq<char>) -> bool {
    exists|i: int| 0 <= i < mirror.len() && (#[trigger] mirror[i])@ == id
}

/// Some tracked episode is paired with the incident `id`.
pub open spec fn has_incident(s: Seq<TrackedIncident>, id: Seq<char>) -> bool {
    exists|i: int| 0 <= i < s.len() && (#[trigger] s[i]).incident.id@ == id
}

/// Picks the episodes that the mirror has no row for.
pub open spec fn unmirrored(mirror: Seq<String>) -> spec_fn(TrackedIncident) -> bool {
    |e: TrackedIncident| !mirrors(mirror, e.incident.id@)
}

/// Picks the rows whose incident is no longer tracked.
pub open spec fn untracked(s: Seq<TrackedIncident>) -> spec_fn(String) -> bool {
    |id: String| !has_incident(s, id@)
}

/// Picks the rows that `deletes` does not name.
pub open spec fn kept(deletes: Seq<String>) -> spec_fn(String) -> bool {
    |id: String| !mirrors(deletes, id@)
}

/// The tracked episodes that have to be written to the mirror, in order.
pub open spec fn pending_inserts(s: Seq<TrackedIncident>, mirror: Seq<String>) -> Seq<
    TrackedIncident,
> {
    s.filter(unmirrored(mirror))
}

/// The mirror rows that have to be deleted, in order.
pub open spec fn pending_deletes(s: Seq<TrackedIncident>, mirror: Seq<String>) -> Seq<String> {
    mirror.filter(untracked(s))
}

/// The mirror's rows after the rows named by `deletes` are gone and one row
/// per episode of `inserts` has been written.
pub open spec fn mirror_after(
    mirror: Seq<String>,
    inserts: Seq<TrackedIncident>,
    deletes: Seq<String>,
) -> Seq<String> {
    mirror.filter(kept(deletes)) + inserts.map_values(|e: TrackedIncident| e.incident.id)
}

/// The durable writes that bring the mirror in step with the tracked set.
#[derive(Debug)]
pub struct SyncPlan {
    /// Episodes to insert into the mirror.
    pub inserts: Vec<TrackedIncident>,
    /// Incident ids whose mirror rows are to be deleted.
    pub deletes: Vec<String>,
}

impl SyncPlan {
    /// Whether the plan asks for no write at all.
    pub fn is_empty(&self) -> (res: bool)
        ensures
            res == (self.inserts@.len() == 0 && self.deletes@.len() == 0),
    {
        self.inserts.len() == 0 && self.deletes.len() == 0
    }
}

/// Whether `ids` holds `id`.
fn holds_id(ids: &Vec<String>, id: &String) -> (res: bool)
    ensures
        res == mirrors(ids@, id@),
{
    let mut i: usize = 0;
    while i < ids.len()
        invariant
            i <= ids.len(),
            forall|k: int| 0 <= k < i ==> ids@[k]@ != id@,
        decreases ids.len() - i,
    {
        if ids[i] == *id {
            return true;
        }
        i += 1;
    }
    false
}

/// Whether some episode of `episodes` is paired with the incident `id`.
fn pairs_incident(episodes: &Vec<TrackedIncident>, id: &String) -> (res: bool)
    ensures
        res == has_incident(episodes@, id@),
{
    let mut i: usize = 0;
    while i < episodes.len()
        invariant
            i <= episodes.len(),
            forall|k: int| 0 <= k < i ==> episodes@[k].incident.id@ != id@,
        decreases episodes.len() - i,
    {
        if episodes[i].incident.id == *id {
            return true;
        }
        i += 1;
    }
    false
}

/// Plans the reconciliation of the mirror with the tracked set.
///
/// `mirrored` holds the incident ids of the rows that the mirror has now.
/// The plan inserts every tracked episode that has no row yet and deletes
/// every row whose incident is no longer tracked, each in the order given.
pub fn sync_registry(registry: &IncidentRegistry, mirrored: &Vec<String>) -> (plan: SyncPlan)
    ensures
        plan.inserts@ == pending_inserts(registry@, mirrored@),
        plan.deletes@ == pending_deletes(registry@, mirrored@),
{
    let episodes = registry.entries();
    let mut inserts: Vec<TrackedIncident> = Vec::new();
    let mut i: usize = 0;
    proof {
        reveal(Seq::filter);
        assert(episodes@.take(0).len() == 0);
    }
    while i < episodes.len()
        invariant
            i <= episodes.len(),
            inserts@ == episodes@.take(i as int).filter(unmirrored(mirrored@)),
        decreases episodes.len() - i,
    {
        proof {
            assert(episodes@.take(i + 1) == episodes@.take(i as int).push(episodes@[i as int]));
            episodes@.take(i as int).lemma_filter_push(episodes@[i as int], unmirrored(mirrored@));
        }
        if !holds_id(mirrored, &episodes[i].incident.id) {
            inserts.push(episodes[i].clone());
        }
        i += 1;
    }
    let mut deletes: Vec<String> = Vec::new();
    let mut j: usize = 0;
    proof {
        reveal(Seq::filter);
        assert(mirrored@.take(0).len() == 0);
        assert(episodes@.take(i as int) == episodes@);
    }
    while j < mirrored.len()
        invariant
            j <= mirrored.len(),
            deletes@ == mirrored@.take(j as int).filter(untracked(episodes@)),
        decreases mirrored.len() - j,
    {
        proof {
            assert(mirrored@.take(j + 1) == mirrored@.take(j as int).push(mirrored@[j as int]));
            mirrored@.take(j as int).lemma_filter_push(mirrored@[j as int], untracked(episodes@));
        }
        if !pairs_incident(episodes, &mirrored[j]) {
            deletes.push(mirrored[j].clone());
        }
        j += 1;
    }
    proof {
        assert(mirrored@.take(j as int) == mirrored@);
    }
    SyncPlan { inserts, deletes }
}

/// A filter that nothing passes gives nothing.
proof fn lemma_filter_none<A>(s: Seq<A>, pred: spec_fn(A) -> bool)
    requires
        forall|i: int| 0 <= i < s.len() ==> !pred(#[trigger] s[i]),
    ensures
        s.filter(pred).len() == 0,
{
    let f = s.filter(pred);
    if f.len() > 0 {
        s.lemma_filter_pred(pred, 0);
        assert(f.contains(f[0]));
        s.lemma_filter_contains_rev(pred, f[0]);
        let k = choose|k: int| 0 <= k < s.len() && s[k] == f[0];
        assert(!pred(s[k]));
    }
}

/// Once a plan has been carried out, the mirror holds a row for exactly the
/// incidents that are tracked.
pub proof fn reconciled_mirror_matches(s: Seq<TrackedIncident>, mirror: Seq<String>)
    ensures
        forall|id: Seq<char>|
            mirrors(
                mirror_after(mirror, pending_inserts(s, mirror), pending_deletes(s, mirror)),
                id,
            ) <==> has_incident(s, id),
{
    let inserts = pending_inserts(s, mirror);
    let deletes = pending_deletes(s, mirror);
    let stay = mirror.filter(kept(deletes));
    let added = inserts.map_values(|e: TrackedIncident| e.incident.id);
    let after = mirror_after(mirror, inserts, deletes);
    assert forall|id: Seq<char>| has_incident(s, id) implies mirrors(after, id) by {
        let i = choose|i: int| 0 <= i < s.len() && (#[trigger] s[i]).incident.id@ == id;
        if mirrors(mirror, id) {
            let j = choose|j: int| 0 <= j < mirror.len() && (#[trigger] mirror[j])@ == id;
            if mirrors(deletes, id) {
                let d = choose|d: int| 0 <= d < deletes.len() && (#[trigger] deletes[d])@ == id;
                mirror.lemma_filter_pred(untracked(s), d);
                assert(!has_incident(s, deletes[d]@));
            }
            mirror.lemma_filter_contains(kept(deletes), j);
            let k = choose|k: int| 0 <= k < stay.len() && stay[k] == mirror[j];
            assert(after[k] == stay[k]);
            assert(after[k]@ == id);
        } else {
            s.lemma_filter_contains(unmirrored(mirror), i);
            let k = choose|k: int| 0 <= k < inserts.len() && inserts[k] == s[i];
            assert(added[k] == s[i].incident.id);
            assert(after[stay.len() + k] == added[k]);
            assert(after[stay.len() + k]@ == id);
        }
    }
    assert forall|id: Seq<char>| mirrors(after, id) implies has_incident(s, id) by {
        let k = choose|k: int| 0 <= k < after.len() && (#[trigger] after[k])@ == id;
        if k < stay.len() {
            assert(after[k] == stay[k]);
            mirror.lemma_filter_pred(kept(deletes), k);
            assert(stay.contains(stay[k]));
            mirror.lemma_filter_contains_rev(kept(deletes), stay[k]);
            let j = choose|j: int| 0 <= j < mirror.len() && mirror[j] == stay[k];
            if !has_incident(s, id) {
                mirror.lemma_filter_contains(untracked(s), j);
                let d = choose|d: int| 0 <= d < deletes.len() && deletes[d] == mirror[j];
                assert(deletes[d]@ == id);
                assert(mirrors(deletes, id));
            }
        } else {
            let a = k - stay.len();
            assert(after[k] == added[a]);
            assert(inserts.contains(inserts[a]));
            s.lemma_filter_contains_rev(unmirrored(mirror), inserts[a]);
            let i = choose|i: int| 0 <= i < s.len() && s[i] == inserts[a];
            assert(s[i].incident.id@ == id);
        }
    }
}

/// Planning again after a plan has been carried out, with the tracked set
/// unchanged, asks for no further write.
pub proof fn sync_is_idempotent(s: Seq<TrackedIncident>, mirror: Seq<String>)
    ensures
        pending_inserts(
            s,
            mirror_after(mirror, pending_inserts(s, mirror), pending_deletes(s, mirror)),
        ).len() == 0,
        pending_deletes(
            s,
            mirror_after(mirror, pending_inserts(s, mirror), pending_deletes(s, mirror)),
        ).len() == 0,
{
    let after = mirror_after(mirror, pending_inserts(s, mirror), pending_deletes(s, mirror));
    reconciled_mirror_matches(s, mirror);
    assert forall|i: int| 0 <= i < s.len() implies !unmirrored(after)(#[trigger] s[i]) by {
        assert(has_incident(s, s[i].incident.id@));
    }
    lemma_filter_none(s, unmirrored(after));
    assert forall|j: int| 0 <= j < after.len() implies !untracked(s)(#[trigger] after[j]) by {
        assert(mirrors(after, after[j]@));
    }
    lemma_filter_none(after, untracked(s));
}

/// The durable store knows the row's incident, and knows it as unresolved.
pub open spec fn is_live(row: TrackedIncident, incidents: Seq<Incident>) -> bool {
    &&& exists|j: int|
        0 <= j < incidents.len() && (#[trigger] incidents[j]).id@ == row.incident.id@
    &&& forall|j: int|
        0 <= j < incidents.len() && (#[trigger] incidents[j]).id@ == row.incident.id@
            ==> !incidents[j].is_resolved()
}

/// The tracked set that a restart rebuilds from the mirror's rows: every
/// live row, in order, but for a row whose monitor an earlier live row has
/// already taken.
pub open spec fn recovered(rows: Seq<TrackedIncident>, incidents: Seq<Incident>) -> Seq<
    TrackedIncident,
>
    decreases rows.len(),
{
    if rows.len() == 0 {
        Seq::empty()
    } else {
        let before = recovered(rows.drop_last(), incidents);
        let row = rows.last();
        if is_live(row, incidents) && !tracks(before, row.monitor_id@) {
            before.push(row)
        } else {
            before
        }
    }
}

/// Whether the store knows the row's incident as unresolved.
fn live(row: &TrackedIncident, incidents: &Vec<Incident>) -> (res: bool)
    ensures
        res == is_live(*row, incidents@),
{
    let mut found = false;
    let mut j: usize = 0;
    while j < incidents.len()
        invariant
            j <= incidents.len(),
            found == exists|k: int|
                0 <= k < j && (#[trigger] incidents@[k]).id@ == row.incident.id@,
            forall|k: int|
                0 <= k < j && (#[trigger] incidents@[k]).id@ == row.incident.id@
                    ==> !incidents@[k].is_resolved(),
        decreases incidents.len() - j,
    {
        if incidents[j].id == row.incident.id {
            if incidents[j].resolved() {
                return false;
            }
            found = true;
        }
        j += 1;
    }
    found
}

/// Rebuilds the tracked set from the mirror after a restart.
///
/// `rows` are the mirror's rows and `incidents` what the durable store holds
/// for their incident ids. A row is taken up only if the store knows its
/// incident and shows it as unresolved; rows left behind by a crash are
/// passed over. Of two live rows for one monitor the first is taken.
pub fn load_registry(rows: &Vec<TrackedIncident>, incidents: &Vec<Incident>) -> (registry:
    IncidentRegistry)
    ensures
        registry.wf(),
        registry@ == recovered(rows@, incidents@),
{
    let mut registry = IncidentRegistry::new();
    let mut i: usize = 0;
    proof {
        assert(rows@.take(0).len() == 0);
    }
    while i < rows.len()
        invariant
            i <= rows.len(),
            registry.wf(),
            registry@ == recovered(rows@.take(i as int), incidents@),
        decreases rows.len() - i,
    {
        proof {
            assert(rows@.take(i + 1).drop_last() == rows@.take(i as int));
            assert(rows@.take(i + 1).last() == rows@[i as int]);
        }
        if live(&rows[i], incidents) {
            let _ = registry.restore(rows[i].clone());
        }
        i += 1;
    }
    proof {
        assert(rows@.take(i as int) == rows@);
    }
    registry
}

/// What a restart rebuilds holds one episode per monitor, only live rows of
/// the mirror, and an episode for every monitor that has a live row.
pub proof fn recovery_keeps_live_rows(rows: Seq<TrackedIncident>, incidents: Seq<Incident>)
    ensures
        distinct_monitors(recovered(rows, incidents)),
        forall|k: int|
            0 <= k < recovered(rows, incidents).len() ==> rows.contains(
                #[trigger] recovered(rows, incidents)[k],
            ) && is_live(recovered(rows, incidents)[k], incidents),
        forall|i: int|
            0 <= i < rows.len() && is_live(#[trigger] rows[i], incidents) ==> tracks(
                recovered(rows, incidents),
                rows[i].monitor_id@,
            ),
    decreases rows.len(),
{
    if rows.len() > 0 {
        let head = rows.drop_last();
        let row = rows.last();
        let before = recovered(head, incidents);
        let all = recovered(rows, incidents);
        recovery_keeps_live_rows(head, incidents);
        if is_live(row, incidents) && !tracks(before, row.monitor_id@) {
            lemma_push_distinct(before, row);
        }
        assert forall|k: int| 0 <= k < all.len() implies rows.contains(#[trigger] all[k])
            && is_live(all[k], incidents) by {
            if k < before.len() {
                assert(all[k] == before[k]);
                assert(head.contains(before[k]));
                let j = choose|j: int| 0 <= j < head.len() && head[j] == before[k];
                assert(rows[j] == head[j]);
            } else {
                assert(all[k] == row);
                assert(rows[rows.len() - 1] == row);
            }
        }
        assert forall|i: int| 0 <= i < rows.len() && is_live(#[trigger] rows[i], incidents) implies tracks(
            all,
            rows[i].monitor_id@,
        ) by {
            if i < head.len() {
                assert(rows[i] == head[i]);
                assert(tracks(before, rows[i].monitor_id@));
                let k = choose|k: int|
                    0 <= k < before.len() && (#[trigger] before[k]).monitor_id@
                        == rows[i].monitor_id@;
                assert(all[k] == before[k]);
            } else {
                if tracks(before, row.monitor_id@) {
                    let k = choose|k: int|
                        0 <= k < before.len() && (#[trigger] before[k]).monitor_id@
                            == row.monitor_id@;
                    assert(all[k] == before[k]);
                } else {
                    assert(all[before.len() as int] == row);
                }
            }
        }
    }
}

/// A mirror that holds one live row and one left behind by a crash is
/// rebuilt to the live row alone, whichever of the two comes first.
pub proof fn recovery_drops_orphan(
    valid: TrackedIncident,
    orphan: TrackedIncident,
    incidents: Seq<Incident>,
)
    requires
        is_live(valid, incidents),
        !is_live(orphan, incidents),
    ensures
        recovered(seq![valid, orphan], incidents) == seq![valid],
        recovered(seq![orphan, valid], incidents) == seq![valid],
{
    reveal_with_fuel(recovered, 3);
    let a = seq![valid, orphan];
    let b = seq![orphan, valid];
    assert(a.drop_last() == seq![valid]);
    assert(b.drop_last() == seq![orphan]);
    assert(seq![valid].drop_last() == Seq::<TrackedIncident>::empty());
    assert(seq![orphan].drop_last() == Seq::<TrackedIncident>::empty());
    assert(Seq::<TrackedIncident>::empty().push(valid) == seq![valid]);
    assert(!tracks(Seq::<TrackedIncident>::empty(), valid.monitor_id@));
}

} // verus!
