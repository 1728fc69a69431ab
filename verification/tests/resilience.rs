use chrono::{TimeDelta, Utc};
use rootcause::models::{AgentStatus, Timestamp};
use rootcause::resilience::{fingerprint, prune_old_timestamps, AgentState, ResilienceConfig, ResilienceCore};

fn stamp(t: chrono::DateTime<Utc>) -> Timestamp {
    Timestamp { secs: t.timestamp(), nanos: t.timestamp_subsec_nanos() }
}

#[test]
fn fingerprint_es_estable_para_el_mismo_texto() {
    assert_eq!(fingerprint("demo"), fingerprint("demo"));
    assert_ne!(fingerprint("demo"), fingerprint("demo-2"));
}

#[test]
fn fingerprint_is_fnv1a_in_hex() {
    assert_eq!(fingerprint(""), "cbf29ce484222325");
    assert_eq!(fingerprint("a"), "af63dc4c8601ec8c");
    assert_eq!(fingerprint("demo").len(), 16);
}

#[test]
fn prune_descarta_timestamps_viejos() {
    let now = Utc::now();
    let mut values = vec![
        (now - TimeDelta::seconds(30)).to_rfc3339(),
        (now - TimeDelta::seconds(999)).to_rfc3339(),
    ];
    prune_old_timestamps(&mut values, 120, stamp(now));
    assert_eq!(values.len(), 1);
}

#[test]
fn prune_drops_unparseable_and_keeps_order() {
    let now = Utc::now();
    let a = (now - TimeDelta::seconds(10)).to_rfc3339();
    let b = (now - TimeDelta::seconds(20)).to_rfc3339();
    let mut values = vec![a.clone(), "not a date".to_owned(), b.clone()];
    prune_old_timestamps(&mut values, 120, stamp(now));
    assert_eq!(values, vec![a.clone(), b.clone()]);
    let mut again = values.clone();
    prune_old_timestamps(&mut again, 120, stamp(now));
    assert_eq!(again, values);
}

#[test]
fn first_start_is_healthy() {
    let now = Utc::now();
    let core = ResilienceCore::start(None, stamp(now), &now.to_rfc3339(), fingerprint("cfg"), ResilienceConfig::default());
    assert_eq!(core.health().status, AgentStatus::Healthy);
    assert!(!core.health().unexpected_shutdown_detected);
    assert!(!core.state().clean_shutdown);
    assert_eq!(core.state().config_fingerprint, fingerprint("cfg"));
    assert_eq!(core.startup_audits("config.toml").len(), 1);
    assert_eq!(
        core.health().notes,
        vec!["Heartbeat persistido cada 30 s; ventana de reinicio 900 s.".to_owned()]
    );
}

#[test]
fn abrupt_previous_stop_is_recovered() {
    let now = Utc::now();
    let previous = AgentState {
        last_start_at: Some((now - TimeDelta::seconds(60)).to_rfc3339()),
        last_heartbeat_at: Some((now - TimeDelta::seconds(10)).to_rfc3339()),
        clean_shutdown: false,
        config_fingerprint: fingerprint("cfg"),
        ..Default::default()
    };
    let now_text = now.to_rfc3339();
    let core = ResilienceCore::start(Some(previous), stamp(now), &now_text, fingerprint("cfg"), ResilienceConfig::default());
    assert_eq!(core.health().status, AgentStatus::Recovered);
    assert!(core.health().unexpected_shutdown_detected);
    assert_eq!(core.health().consecutive_unexpected_stops, 1);
    assert_eq!(core.state().unexpected_stop_times, vec![now_text]);
    let audits = core.startup_audits("config.toml");
    assert_eq!(audits.len(), 2);
    assert_eq!(audits[1].action, "agent-recovery");
}

#[test]
fn repeated_abrupt_stops_activate_backoff() {
    let now = Utc::now();
    let previous = AgentState {
        clean_shutdown: false,
        unexpected_stop_times: vec![
            (now - TimeDelta::seconds(100)).to_rfc3339(),
            (now - TimeDelta::seconds(50)).to_rfc3339(),
        ],
        ..Default::default()
    };
    let core = ResilienceCore::start(Some(previous), stamp(now), &now.to_rfc3339(), fingerprint("x"), ResilienceConfig::default());
    assert_eq!(core.health().status, AgentStatus::Degraded);
    assert!(core.health().watchdog_backoff_active);
    assert_eq!(core.health().consecutive_unexpected_stops, 3);
}

#[test]
fn configuration_drift_degrades_health() {
    let now = Utc::now();
    let previous = AgentState {
        clean_shutdown: true,
        config_fingerprint: fingerprint("old"),
        ..Default::default()
    };
    let core = ResilienceCore::start(Some(previous), stamp(now), &now.to_rfc3339(), fingerprint("new"), ResilienceConfig::default());
    assert_eq!(core.health().status, AgentStatus::Degraded);
    assert!(core.health().config_changed);
    assert_eq!(core.health().summary, "La configuración operativa cambió desde la última ejecución.");
    assert!(core.startup_audits("c.toml").iter().any(|a| a.action == "config-integrity-change" && a.target == "c.toml"));
}

#[test]
fn heartbeat_and_clean_shutdown() {
    let now = Utc::now();
    let mut core = ResilienceCore::start(None, stamp(now), &now.to_rfc3339(), fingerprint("cfg"), ResilienceConfig::default());
    let later = now + TimeDelta::seconds(31);
    let later_text = later.to_rfc3339();
    let (audits, due) = core.heartbeat(stamp(later), &later_text, &fingerprint("cfg"), "c.toml");
    assert!(audits.is_empty());
    assert!(due);
    assert_eq!(core.health().last_heartbeat_at, later_text);
    core.mark_persisted(stamp(later));
    let (_, due) = core.heartbeat(stamp(later + TimeDelta::seconds(5)), "t2", &fingerprint("cfg"), "c.toml");
    assert!(!due);

    let (audits, _) = core.heartbeat(stamp(later + TimeDelta::seconds(6)), "t3", &fingerprint("changed"), "c.toml");
    assert_eq!(audits.len(), 1);
    assert_eq!(core.health().status, AgentStatus::Degraded);

    let record = core.shutdown("t4");
    assert_eq!(record.action, "agent-stop");
    assert!(core.state().clean_shutdown);
    assert_eq!(core.state().last_shutdown_at.as_deref(), Some("t4"));

    let restarted = ResilienceCore::start(
        Some(core.state().clone()),
        stamp(later + TimeDelta::seconds(60)),
        "t5",
        fingerprint("changed"),
        ResilienceConfig::default(),
    );
    assert_eq!(restarted.health().status, AgentStatus::Healthy);
    assert_eq!(restarted.health().last_clean_shutdown_at.as_deref(), Some("t4"));
}

#[test]
fn disabled_monitoring_ignores_heartbeats() {
    let now = Utc::now();
    let mut config = ResilienceConfig::default();
    config.enabled = false;
    let mut core = ResilienceCore::start(None, stamp(now), "t0", fingerprint("a"), config);
    let before = core.health().last_heartbeat_at.clone();
    let (audits, due) = core.heartbeat(stamp(now + TimeDelta::seconds(3600)), "t1", &fingerprint("b"), "c.toml");
    assert!(audits.is_empty());
    assert!(!due);
    assert_eq!(core.health().last_heartbeat_at, before);
    assert!(!core.health().config_changed);
}

#[test]
fn configuration_change_is_audited_once() {
    let now = Utc::now();
    let mut core = ResilienceCore::start(None, stamp(now), "t0", fingerprint("a"), ResilienceConfig::default());
    let (first, _) = core.heartbeat(stamp(now), "t1", "other", "c.toml");
    let (second, _) = core.heartbeat(stamp(now), "t2", "other", "c.toml");
    assert_eq!(first.len(), 1);
    assert_eq!(first[0].detail, "Nueva huella local detectada: other.");
    assert!(second.is_empty());
}
