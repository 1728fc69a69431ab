use rootcause::inspection::{
    apply_agent_health, apply_trace_analysis, can_terminate_process, cmdline_candidates, is_new_incident,
    merge_change_events,
    precision_status_from, protected_process_names, AlertBoard, CmdlineCandidate, IoBaselines,
};
use rootcause::models::{
    AgentHealth, AgentStatus, Alert, AnomalyEvent, RiskLevel, Severity, TraceAnalysisSummary, TraceFinding,
};

#[test]
fn protected_processes_are_not_terminated() {
    let protected = protected_process_names();
    assert_eq!(protected.len(), 12);
    assert!(!can_terminate_process(0, "idle", "", 99, &protected));
    assert!(!can_terminate_process(99, "me.exe", "", 99, &protected));
    assert!(!can_terminate_process(500, "LSASS.EXE", "", 99, &protected));
    assert!(!can_terminate_process(501, "svchost2.exe", r"C:\Windows\System32\svchost2.exe", 99, &protected));
    assert!(can_terminate_process(502, "notepad.exe", r"C:\Windows\notepad.exe", 99, &protected));
}

#[test]
fn command_line_candidates() {
    let rows = vec![
        CmdlineCandidate { pid: 1, name: "a.exe".to_owned(), exe_path: r"C:\x\a.exe".to_owned(), severity: Severity::Healthy, busy: false },
        CmdlineCandidate { pid: 2, name: "powershell.exe".to_owned(), exe_path: String::new(), severity: Severity::Healthy, busy: false },
        CmdlineCandidate { pid: 3, name: "b.exe".to_owned(), exe_path: r"C:\Users\u\Downloads\b.exe".to_owned(), severity: Severity::Healthy, busy: false },
        CmdlineCandidate { pid: 4, name: "c.exe".to_owned(), exe_path: String::new(), severity: Severity::Critical, busy: false },
        CmdlineCandidate { pid: 5, name: "d.exe".to_owned(), exe_path: String::new(), severity: Severity::Healthy, busy: true },
    ];
    assert_eq!(cmdline_candidates(&rows), vec![2, 3, 4, 5]);
}

#[test]
fn io_deltas_between_records() {
    let mut io = IoBaselines::new();
    assert_eq!(io.record(10, 100, 50), (100, 50));
    assert_eq!(io.record(10, 150, 50), (50, 0));
    assert_eq!(io.record(10, 150, 50), (0, 0));
    assert_eq!(io.record(10, 20, 10), (0, 0));
    io.retain_active(&[]);
    assert_eq!(io.record(10, 5, 5), (5, 5));
}

#[test]
fn change_events_are_merged_in_order() {
    let low = AnomalyEvent { severity: RiskLevel::Low, score: 10, kind: "b".to_owned(), ..Default::default() };
    let high = AnomalyEvent { severity: RiskLevel::High, score: 70, kind: "a".to_owned(), ..Default::default() };
    let merged = merge_change_events(vec![low], vec![high]);
    assert_eq!(merged.len(), 2);
    assert_eq!(merged[0].kind, "a");
    assert_eq!(merged[1].kind, "b");
}

#[test]
fn precision_without_wpr() {
    let st = precision_status_from(false, false, true, "C:\\t".to_owned(), None, None, Ok(String::new()), true);
    assert!(!st.is_recording);
    assert_eq!(st.analyzer_label, "tracerpt");
    assert_eq!(st.status_detail, "WPR no está instalado o no está en PATH");
    let st = precision_status_from(true, true, false, "d".to_owned(), None, None, Err("x".to_owned()), true);
    assert!(st.is_recording);
    assert_eq!(st.status_detail, "No se pudo consultar WPR: x");
    assert_eq!(st.analyzer_label, "sin análisis local ETL");
}

fn board() -> AlertBoard {
    AlertBoard {
        primary_severity: Severity::Healthy,
        primary_reason: "ok".to_owned(),
        alerts: vec![Alert { title: "previa".to_owned(), ..Default::default() }],
    }
}

#[test]
fn agent_health_on_the_board() {
    let mut b = board();
    let health = AgentHealth { status: AgentStatus::Recovered, summary: "s".to_owned(), ..Default::default() };
    apply_agent_health(&mut b, &health, 8);
    assert_eq!(b.primary_severity, Severity::Warning);
    assert_eq!(b.primary_reason, "s");
    assert_eq!(b.alerts[0].title, "Agente recuperado tras cierre abrupto");
    assert_eq!(b.alerts.len(), 2);

    let mut b = board();
    let health = AgentHealth { status: AgentStatus::Healthy, summary: "s".to_owned(), ..Default::default() };
    apply_agent_health(&mut b, &health, 1);
    assert_eq!(b.primary_severity, Severity::Healthy);
    assert_eq!(b.alerts.len(), 1);
    assert_eq!(b.alerts[0].title, "previa");
}

#[test]
fn trace_analysis_on_the_board() {
    let mut b = board();
    apply_trace_analysis(&mut b, &None, 8);
    assert_eq!(b.alerts.len(), 1);
    let analysis = TraceAnalysisSummary {
        etl_path: "t.etl".to_owned(),
        headline: "H".to_owned(),
        findings: vec![TraceFinding {
            severity: Severity::Critical,
            title: "F".to_owned(),
            detail: "D".to_owned(),
            evidence: "E".to_owned(),
        }],
        ..Default::default()
    };
    apply_trace_analysis(&mut b, &Some(analysis), 8);
    assert_eq!(b.primary_severity, Severity::Critical);
    assert_eq!(b.primary_reason, "Traza ETL: H");
    assert_eq!(b.alerts[0].title, "Resultado de ETL: F");
    assert_eq!(b.alerts[0].hint, "Evidencia: E");
    assert_eq!(b.alerts[0].path.as_deref(), Some("t.etl"));
}

#[test]
fn a_persisting_incident_is_kept_once() {
    assert!(is_new_incident(None, "abc"));
    assert!(!is_new_incident(Some("abc"), "abc"));
    assert!(is_new_incident(Some("abc"), "abd"));
}
