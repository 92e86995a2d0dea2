use monitor::health::{resolve_incident, track_incident, IncidentRegistry};
use monitor::incident::{Incident, Timestamp, TrackedIncident};
use monitor::reconcile::{load_registry, sync_registry};

fn incident(id: &str, resolved: bool) -> Incident {
    Incident {
        id: id.to_string(),
        title: "db is down".to_string(),
        started_at: Timestamp { micros: 10 },
        acknowledged_at: None,
        resolved_at: if resolved { Some(Timestamp { micros: 20 }) } else { None },
        auto_resolved: resolved,
    }
}

fn row(monitor: &str, id: &str, success: u32) -> TrackedIncident {
    TrackedIncident {
        monitor_id: monitor.to_string(),
        incident: incident(id, false),
        success,
        monitoring_created: success > 0,
        investigating_created: false,
    }
}

fn ids(v: &[&str]) -> Vec<String> {
    v.iter().map(|s| s.to_string()).collect()
}

fn apply(mirror: &Vec<String>, inserts: &Vec<TrackedIncident>, deletes: &Vec<String>) -> Vec<String> {
    let mut out: Vec<String> = mirror.iter().filter(|id| !deletes.contains(id)).cloned().collect();
    for e in inserts {
        out.push(e.incident.id.clone());
    }
    out
}

#[test]
fn sync_inserts_missing_and_deletes_untracked() {
    let mut reg = IncidentRegistry::new();
    track_incident(&mut reg, "m1".to_string(), incident("i1", false)).unwrap();
    track_incident(&mut reg, "m2".to_string(), incident("i2", false)).unwrap();
    track_incident(&mut reg, "m3".to_string(), incident("i3", false)).unwrap();
    let mirror = ids(&["i9", "i2", "i8"]);
    let plan = sync_registry(&reg, &mirror);
    let inserted: Vec<String> = plan.inserts.iter().map(|e| e.incident.id.clone()).collect();
    assert_eq!(inserted, ids(&["i1", "i3"]));
    assert_eq!(plan.inserts[0].monitor_id, "m1");
    assert_eq!(plan.deletes, ids(&["i9", "i8"]));
    assert!(!plan.is_empty());
}

#[test]
fn sync_twice_writes_nothing_the_second_time() {
    let mut reg = IncidentRegistry::new();
    track_incident(&mut reg, "m1".to_string(), incident("i1", false)).unwrap();
    track_incident(&mut reg, "m2".to_string(), incident("i2", false)).unwrap();
    let mirror = ids(&["i2", "i5"]);
    let plan = sync_registry(&reg, &mirror);
    let mirror = apply(&mirror, &plan.inserts, &plan.deletes);
    assert_eq!(mirror, ids(&["i2", "i1"]));
    let again = sync_registry(&reg, &mirror);
    assert!(again.is_empty());
    assert_eq!(again.inserts.len(), 0);
    assert_eq!(again.deletes.len(), 0);
}

#[test]
fn sync_of_empty_registry_clears_the_mirror() {
    let reg = IncidentRegistry::new();
    let plan = sync_registry(&reg, &ids(&["i1", "i2"]));
    assert_eq!(plan.inserts.len(), 0);
    assert_eq!(plan.deletes, ids(&["i1", "i2"]));
    let none = sync_registry(&reg, &Vec::new());
    assert!(none.is_empty());
}

#[test]
fn sync_follows_the_engine() {
    let mut reg = IncidentRegistry::new();
    track_incident(&mut reg, "m1".to_string(), incident("i1", false)).unwrap();
    let plan = sync_registry(&reg, &Vec::new());
    let mirror = apply(&Vec::new(), &plan.inserts, &plan.deletes);
    assert_eq!(mirror, ids(&["i1"]));
    let s = resolve_incident(&mut reg, &"m1".to_string(), None, 1);
    assert!(matches!(s, monitor::health::SuccessAction::Resolved { .. }));
    let plan = sync_registry(&reg, &mirror);
    assert_eq!(plan.deletes, ids(&["i1"]));
    assert_eq!(plan.inserts.len(), 0);
}

#[test]
fn load_keeps_the_valid_row_and_drops_the_orphans() {
    let rows = vec![row("m1", "i1", 2), row("m2", "gone", 0), row("m3", "i3", 1)];
    let incidents = vec![incident("i1", false), incident("i3", true)];
    let reg = load_registry(&rows, &incidents);
    assert_eq!(reg.len(), 1);
    let e = &reg.entries()[0];
    assert_eq!(e.monitor_id, "m1");
    assert_eq!(e.incident.id, "i1");
    assert_eq!(e.success, 2);
    assert!(e.monitoring_created);
}

#[test]
fn load_with_no_known_incident_gives_an_empty_registry() {
    let rows = vec![row("m1", "i1", 0), row("m2", "i2", 0)];
    let reg = load_registry(&rows, &Vec::new());
    assert_eq!(reg.len(), 0);
    let reg = load_registry(&Vec::new(), &vec![incident("i1", false)]);
    assert_eq!(reg.len(), 0);
}

#[test]
fn load_takes_one_row_per_monitor() {
    let rows = vec![row("m1", "i1", 1), row("m1", "i2", 0), row("m2", "i3", 0)];
    let incidents = vec![incident("i1", false), incident("i2", false), incident("i3", false)];
    let reg = load_registry(&rows, &incidents);
    assert_eq!(reg.len(), 2);
    assert_eq!(reg.entries()[0].incident.id, "i1");
    assert_eq!(reg.entries()[1].incident.id, "i3");
}

#[test]
fn loaded_registry_blocks_a_duplicate_incident() {
    let rows = vec![row("m1", "i1", 0)];
    let mut reg = load_registry(&rows, &vec![incident("i1", false)]);
    let a = monitor::health::check_health(&mut reg, &"m1".to_string(), None, &vec![false, false, false], 3);
    assert!(matches!(a, monitor::health::FailureAction::Nothing));
}
