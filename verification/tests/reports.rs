use rootcause::models::{PersistenceChange, RiskLevel};
use rootcause::reports::{
    alert_digest, events_from_json, persistence_entries_from_json, recent_events_script, services_from_json,
};

#[test]
fn services_from_an_array_or_one_object() {
    let raw = r#"[{"Name":"wuauserv","DisplayName":"Windows Update","Status":"Running","StartType":"Manual"},
                 {"Name":"bits","DisplayName":null,"Status":4,"StartType":"Automatic"}]"#;
    let services = services_from_json(raw).expect("json");
    assert_eq!(services.len(), 2);
    assert_eq!(services[0].display_name, "Windows Update");
    assert_eq!(services[1].display_name, "");
    assert_eq!(services[1].status, "");
    let one = services_from_json(r#"{"Name":"SysMain","Status":"Stopped"}"#).expect("json");
    assert_eq!(one.len(), 1);
    assert_eq!(one[0].name, "SysMain");
    assert_eq!(one[0].start_type, "");
}

#[test]
fn blank_answers_report_nothing_and_broken_ones_fail() {
    assert_eq!(services_from_json("  \n").map(|v| v.len()), Some(0));
    assert_eq!(events_from_json("").map(|v| v.len()), Some(0));
    assert_eq!(persistence_entries_from_json("\t").map(|v| v.len()), Some(0));
    assert!(services_from_json("{roto").is_none());
    assert!(events_from_json("nada").is_none());
    assert!(persistence_entries_from_json("[1,").is_none());
}

#[test]
fn events_keep_one_line_and_a_small_id() {
    let raw = r#"[{"TimeCreated":"/Date(1)/","ProviderName":"disk","Id":7,"LevelDisplayName":"Error","Message":"a\r\nb"},
                 {"ProviderName":"x","Id":4294967298},{"Id":"9"}]"#;
    let events = events_from_json(raw).expect("json");
    assert_eq!(events.len(), 3);
    assert_eq!(events[0].id, 7);
    assert_eq!(events[0].message, "a  b");
    assert_eq!(events[0].level, "Error");
    assert_eq!(events[1].id, 2);
    assert_eq!(events[2].id, 0);
    assert_eq!(events[2].timestamp, "");
}

#[test]
fn autostart_entries_name_their_program() {
    let raw = r#"[{"EntryKind":"Registry Run (HKCU)","Location":"HKCU:\\Run","Name":"App","Command":"  \"C:\\Program Files\\App\\app.exe\" --tray  "}]"#;
    let entries = persistence_entries_from_json(raw).expect("json");
    assert_eq!(entries.len(), 1);
    let e = &entries[0];
    assert_eq!(e.command, r#""C:\Program Files\App\app.exe" --tray"#);
    assert_eq!(e.target_path.as_deref(), Some(r"C:\Program Files\App\app.exe"));
    assert!(!e.exists_on_disk);
    assert_eq!(e.severity, RiskLevel::Low);
    assert_eq!(e.change_status, PersistenceChange::Unchanged);
    assert_eq!(e.note, "Persistencia observable desde Run/RunOnce o carpeta Startup");
}

#[test]
fn history_rows_digest_their_alerts() {
    assert_eq!(alert_digest(r#"[{"severity":"Warning"},{"severity":"Critical"},{}]"#), (3, true));
    assert_eq!(alert_digest(r#"[{"severity":"Warning"}]"#), (1, false));
    assert_eq!(alert_digest(r#"{"severity":"Critical"}"#), (0, false));
    assert_eq!(alert_digest("no"), (0, false));
    assert_eq!(alert_digest("[]"), (0, false));
}

#[test]
fn event_script_carries_the_limit() {
    assert!(recent_events_script(25).contains("Select-Object -First 25 TimeCreated"));
}
