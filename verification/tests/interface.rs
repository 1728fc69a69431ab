use rootcause::config::{AlertingConfig, CollectionConfig, RemediationConfig};
use rootcause::interface::{
    is_stoppable_service, level_color, matches_filter, service_severity, sev_word, tab_meta, trunc, Tab,
};
use rootcause::models::{ServiceState, Severity};

fn service(name: &str, status: &str) -> ServiceState {
    ServiceState {
        name: name.to_owned(),
        display_name: name.to_owned(),
        status: status.to_owned(),
        start_type: String::new(),
    }
}

#[test]
fn tabs_and_words() {
    assert_eq!(tab_meta(Tab::Overview), ("📊", "Resumen", "Overview"));
    assert_eq!(tab_meta(Tab::TempFiles).2, "Storage");
    assert_eq!(sev_word(Severity::Critical), "Crítico");
    assert_eq!(level_color(0), [63, 185, 80]);
    assert_eq!(level_color(7), [248, 81, 73]);
}

#[test]
fn services_that_can_be_stopped() {
    assert!(is_stoppable_service(&service("BITS", "Running")));
    assert!(!is_stoppable_service(&service("WinDefend", "Running")));
    assert_eq!(service_severity(&service("wuauserv", "running")), Severity::Warning);
    assert_eq!(service_severity(&service("wuauserv", "Stopped")), Severity::Healthy);
}

#[test]
fn truncation_and_filters() {
    assert_eq!(trunc("abcdef", 3), "abc…");
    assert_eq!(trunc("abc", 3), "abc");
    assert!(matches_filter("Chrome.exe", "", "  chrome "));
    assert!(matches_filter("a", "b", ""));
    assert!(!matches_filter("a", "b", "zz"));
}

#[test]
fn configuration_defaults() {
    let c = CollectionConfig::default();
    assert_eq!((c.refresh_interval_secs, c.history_limit, c.incident_limit), (5, 1000, 300));
    let a = AlertingConfig::default();
    assert_eq!((a.max_alerts, a.notify_on_critical, a.notification_cooldown_secs), (8, true, 90));
    let r = RemediationConfig::default();
    assert!(r.manual_actions_enabled && !r.automatic_actions_enabled);
}
