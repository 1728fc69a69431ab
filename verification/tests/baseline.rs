use rootcause::baseline::{diff_surface, surface_change_event, SurfaceSpec};
use rootcause::inspection::{diff_persistence, persistence_entry_key};
use rootcause::models::{PersistenceChange, PersistenceEntry, Timestamp, WatchedItem};

fn item(key: &str, value: &str) -> WatchedItem {
    WatchedItem {
        key: key.to_owned(),
        value: value.to_owned(),
        label: key.to_owned(),
        detail: String::new(),
        change_status: PersistenceChange::Unchanged,
    }
}

fn spec() -> SurfaceSpec {
    SurfaceSpec {
        id: "service",
        title_added: "Servicio nuevo",
        title_modified: "Servicio modificado",
        title_removed: "Servicio eliminado",
        summary_noun: "El servicio",
    }
}

#[test]
fn first_sample_marks_nothing() {
    let mut items = vec![item("a", "1")];
    assert!(!diff_surface(&[], &mut items));
    assert_eq!(items.len(), 1);
    assert_eq!(items[0].change_status, PersistenceChange::Unchanged);
}

#[test]
fn changes_against_the_reference() {
    let baseline = vec![item("a", "1"), item("b", "2"), item("gone", "x")];
    let mut items = vec![item("a", "1"), item("b", "3"), item("new", "z")];
    assert!(diff_surface(&baseline, &mut items));
    let statuses: Vec<PersistenceChange> = items.iter().map(|i| i.change_status).collect();
    assert_eq!(
        statuses,
        vec![
            PersistenceChange::Unchanged,
            PersistenceChange::Modified,
            PersistenceChange::Added,
            PersistenceChange::Removed,
        ]
    );
    assert_eq!(items[3].key, "gone");
}

#[test]
fn a_sample_against_itself_is_unchanged() {
    let baseline = vec![item("a", "1"), item("b", "2")];
    let mut items = baseline.clone();
    assert!(diff_surface(&baseline, &mut items));
    assert_eq!(items.len(), 2);
    assert!(items.iter().all(|i| i.change_status == PersistenceChange::Unchanged));
}

#[test]
fn change_events_only_for_changes() {
    let now = Timestamp { secs: 1_700_000_000, nanos: 0 };
    assert!(surface_change_event(now, &spec(), &item("a", "1")).is_none());
    let mut added = item("svc", "auto");
    added.change_status = PersistenceChange::Added;
    let event = surface_change_event(now, &spec(), &added).expect("evento");
    assert_eq!(event.kind, "service-change");
    assert_eq!(event.title, "Servicio nuevo");
    assert_eq!(event.detected_at, now);
}

fn entry(name: &str, command: &str) -> PersistenceEntry {
    PersistenceEntry {
        entry_kind: "run".to_owned(),
        location: "HKCU".to_owned(),
        name: name.to_owned(),
        command: command.to_owned(),
        ..Default::default()
    }
}

#[test]
fn autostart_changes() {
    assert_eq!(persistence_entry_key(&entry("x", "c")), "run\u{1f}HKCU\u{1f}x");
    let baseline = vec![entry("keep", "a"), entry("edit", "b"), entry("drop", "c")];
    let mut entries = vec![entry("keep", "a"), entry("edit", "B2"), entry("fresh", "d")];
    assert!(diff_persistence(&baseline, &mut entries));
    let statuses: Vec<PersistenceChange> = entries.iter().map(|e| e.change_status).collect();
    assert_eq!(
        statuses,
        vec![
            PersistenceChange::Unchanged,
            PersistenceChange::Modified,
            PersistenceChange::Added,
            PersistenceChange::Removed,
        ]
    );
    assert_eq!(entries[3].note, "Estaba en la baseline y ya no aparece.");
}

#[test]
fn autostart_against_itself_is_unchanged() {
    let baseline = vec![entry("one", "a"), entry("two", "b")];
    let mut entries = vec![entry("one", "a"), entry("two", "b")];
    assert!(diff_persistence(&baseline, &mut entries));
    assert_eq!(entries.len(), 2);
    assert!(entries.iter().all(|e| e.change_status == PersistenceChange::Unchanged));
}
