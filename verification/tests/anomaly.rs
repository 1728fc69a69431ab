use rootcause::anomaly::{
    build_process_event, correlate_anomalies, dedupe, human_kind, is_trusted_process, path_is_suspicious,
    risk_from_score, security_control_score, summarize_network, AnomalyConfig, ProcessEventSpec,
    ProcessNetworkSummary, ProcessObservation,
};
use rootcause::detection::DetectionInput;
use rootcause::models::{ConnectionInsight, RiskLevel, Timestamp};
use rootcause::tracker::AnomalyTracker;

fn now() -> Timestamp {
    let t = chrono::Utc::now();
    Timestamp { secs: t.timestamp(), nanos: t.timestamp_subsec_nanos() }
}

fn sample_process(pid: u32, name: &str) -> ProcessObservation {
    ProcessObservation {
        pid,
        name: name.to_owned(),
        exe_path: format!(r"c:\users\demo\appdata\local\temp\{name}"),
        parent_pid: Some(40),
        command_line: Some(format!(r#""c:\temp\{name}" -nop -w hidden"#)),
        cpu_percent_bits: 82.0f32.to_bits(),
        memory_mb_bits: 220.0f32.to_bits(),
        io_write_mb_delta_bits: 64.0f32.to_bits(),
        cpu_text: "82.0".to_owned(),
        memory_text: "220".to_owned(),
        io_write_text: "64.0".to_owned(),
        memory_growth_text: "0.0".to_owned(),
        busy: true,
        ..Default::default()
    }
}

#[test]
fn correlation_event_is_generated_for_same_process_context() {
    let now = now();
    let process = sample_process(4242, "powershell.exe");
    let network = ProcessNetworkSummary::default();
    let events = vec![
        build_process_event(
            &process,
            ProcessEventSpec {
                detected_at: now,
                kind: "suspicious-execution-path",
                title: "Ruta sospechosa",
                score: 72,
                parent: None,
                summary: "demo".to_owned(),
                root_cause_hypothesis: "demo".to_owned(),
                recommended_action: "demo",
                evidence: vec![],
                network: &network,
            },
        ),
        build_process_event(
            &process,
            ProcessEventSpec {
                detected_at: now,
                kind: "multi-destination-outbound",
                title: "Red sospechosa",
                score: 68,
                parent: None,
                summary: "demo".to_owned(),
                root_cause_hypothesis: "demo".to_owned(),
                recommended_action: "demo",
                evidence: vec![],
                network: &network,
            },
        ),
    ];

    let correlated = correlate_anomalies(now, &events);
    assert_eq!(correlated.len(), 1);
    assert_eq!(correlated[0].kind, "correlated-anomaly");
    assert_eq!(correlated[0].score, 100);
}

#[test]
fn summarize_network_counts_private_and_public_destinations() {
    let connections = vec![
        ConnectionInsight {
            pid: 9,
            remote_address: "8.8.8.8:443".to_owned(),
            is_public_remote: true,
            ..Default::default()
        },
        ConnectionInsight {
            pid: 9,
            remote_address: "8.8.4.4:443".to_owned(),
            is_public_remote: true,
            ..Default::default()
        },
        ConnectionInsight {
            pid: 9,
            remote_address: "192.168.1.10:445".to_owned(),
            is_public_remote: false,
            ..Default::default()
        },
    ];

    let summary = summarize_network(&connections);
    let item = summary.get(&9).expect("debe existir");
    assert_eq!(item.public_unique_destinations, 2);
    assert_eq!(item.private_unique_destinations, 1);
}

#[test]
fn analyze_detects_suspicious_temp_process() {
    let now = now();
    let process = sample_process(3131, "powershell.exe");
    let mut tracker = AnomalyTracker::new();
    let anomalies = tracker.analyze(DetectionInput {
        collected_at: now,
        processes: &[process],
        connections: &[],
        services: &[],
        persistence_entries: &[],
        config: &AnomalyConfig::default(),
    });

    assert!(anomalies.iter().any(|event| event.kind == "suspicious-execution-path"));
}

#[test]
fn process_event_carries_process_fields() {
    let now = now();
    let process = sample_process(77, "setup.exe");
    let network = ProcessNetworkSummary { public_unique_destinations: 3, private_unique_destinations: 0 };
    let event = build_process_event(
        &process,
        ProcessEventSpec {
            detected_at: now,
            kind: "untrusted-binary",
            title: "Binario",
            score: 80,
            parent: None,
            summary: "s".to_owned(),
            root_cause_hypothesis: "h".to_owned(),
            recommended_action: "a",
            evidence: vec![],
            network: &network,
        },
    );
    assert_eq!(event.pid, Some(77));
    assert_eq!(event.score, 80);
    assert_eq!(event.severity, RiskLevel::Critical);
    assert_eq!(event.process_name.as_deref(), Some("setup.exe"));
    assert_eq!(event.unique_public_remotes, Some(3));
    assert_eq!(event.detected_at, now);
}

#[test]
fn single_signal_is_not_correlated() {
    let now = now();
    let process = sample_process(5, "a.exe");
    let network = ProcessNetworkSummary::default();
    let events = vec![build_process_event(
        &process,
        ProcessEventSpec {
            detected_at: now,
            kind: "suspicious-execution-path",
            title: "t",
            score: 50,
            parent: None,
            summary: String::new(),
            root_cause_hypothesis: String::new(),
            recommended_action: "",
            evidence: vec![],
            network: &network,
        },
    )];
    assert!(correlate_anomalies(now, &events).is_empty());
}

#[test]
fn disabled_detection_raises_nothing() {
    let now = now();
    let process = sample_process(3132, "powershell.exe");
    let mut config = AnomalyConfig::default();
    config.enabled = false;
    let mut tracker = AnomalyTracker::new();
    let anomalies = tracker.analyze(DetectionInput {
        collected_at: now,
        processes: &[process],
        connections: &[],
        services: &[],
        persistence_entries: &[],
        config: &config,
    });
    assert!(anomalies.is_empty());
}

#[test]
fn risk_levels_by_score() {
    assert_eq!(risk_from_score(0), RiskLevel::Low);
    assert_eq!(risk_from_score(24), RiskLevel::Low);
    assert_eq!(risk_from_score(25), RiskLevel::Medium);
    assert_eq!(risk_from_score(50), RiskLevel::High);
    assert_eq!(risk_from_score(80), RiskLevel::Critical);
}

#[test]
fn dedupe_keeps_first_occurrences() {
    let v = vec!["a".to_owned(), "b".to_owned(), "a".to_owned(), "c".to_owned(), "b".to_owned()];
    assert_eq!(dedupe(v), vec!["a".to_owned(), "b".to_owned(), "c".to_owned()]);
    assert!(dedupe(vec![]).is_empty());
}

#[test]
fn paths_and_trust() {
    let cfg = AnomalyConfig::default();
    assert!(path_is_suspicious(r"c:\users\a\appdata\local\temp\x.exe", &None, &cfg));
    assert!(path_is_suspicious(r"d:\tools\x.exe", &Some(r"x.exe C:\Users\Public\y".to_owned()), &cfg));
    assert!(!path_is_suspicious(r"c:\program files\x\x.exe", &None, &cfg));
    assert!(is_trusted_process("Explorer.EXE", r"c:\windows\explorer.exe", &cfg));
    assert!(is_trusted_process("tool.exe", r"c:\program files\tool\tool.exe", &cfg));
    assert!(!is_trusted_process("tool.exe", r"C:\Program Files\Tool\tool.exe", &cfg));
    assert!(!is_trusted_process("tool.exe", r"d:\tool.exe", &cfg));
}

#[test]
fn security_control_and_kind_names() {
    assert_eq!(security_control_score(&Some("Set-MpPreference -DisableRealtimeMonitoring $true".to_owned())), Some(84));
    assert_eq!(security_control_score(&Some("dir".to_owned())), None);
    assert_eq!(security_control_score(&None), None);
    assert_eq!(human_kind("rapid-respawn"), "reaparicion automatica");
    assert_eq!(human_kind("otra"), "senales correlacionadas");
}

#[test]
fn analysis_events_come_ordered() {
    let now = now();
    let mut p1 = sample_process(10, "a.exe");
    p1.parent_pid = None;
    let mut p2 = sample_process(11, "b.exe");
    p2.parent_pid = None;
    let mut tracker = AnomalyTracker::new();
    let events = tracker.analyze(DetectionInput {
        collected_at: now,
        processes: &[p1, p2],
        connections: &[],
        services: &[],
        persistence_entries: &[],
        config: &AnomalyConfig::default(),
    });
    assert!(!events.is_empty());
    for pair in events.windows(2) {
        let a = (pair[0].severity.rank(), pair[0].score);
        let b = (pair[1].severity.rank(), pair[1].score);
        assert!(a >= b);
    }
}
