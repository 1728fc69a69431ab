use rootcause::models::{
    Alert, AnomalyEvent, ConnectionInsight, PrecisionStatus, RiskLevel, ServiceState, Severity, Timestamp,
};
use rootcause::rules::{
    build_alerts, classify_process, derive_incident, AlertBuildInputs, Headline, Pressure, ProcessReading,
    SnapshotFacts, TempReading,
};

fn now() -> Timestamp {
    let t = chrono::Utc::now();
    Timestamp { secs: t.timestamp(), nanos: t.timestamp_subsec_nanos() }
}

fn empty_facts() -> SnapshotFacts {
    SnapshotFacts {
        collected_at: now(),
        primary_severity: Severity::Healthy,
        primary_reason: String::new(),
        alerts: vec![],
        processes: vec![],
        connections: vec![],
        temp_entries: vec![],
        anomalies: vec![],
        trace_analysis: None,
    }
}

fn reading(pid: u32, name: &str, severity: Severity, reasons: Vec<String>) -> ProcessReading {
    ProcessReading {
        pid,
        name: name.to_owned(),
        exe_path: String::new(),
        severity,
        reasons,
        cpu_text: "88.0".to_owned(),
        memory_text: "1500".to_owned(),
        io_write_text: "220.0".to_owned(),
    }
}

#[test]
fn proceso_critico_produce_incidente() {
    let mut snapshot = empty_facts();
    snapshot.primary_severity = Severity::Critical;
    snapshot.primary_reason = "Proceso crítico detectado".to_owned();
    snapshot.alerts = vec![Alert {
        severity: Severity::Critical,
        title: "Proceso dominante con presión alta".to_owned(),
        detail: "demo".to_owned(),
        pid: Some(42),
        path: None,
        hint: "demo".to_owned(),
    }];
    snapshot.processes = vec![reading(42, "setup.exe", Severity::Critical, vec!["CPU alto".to_owned()])];

    let incident = derive_incident(&snapshot).expect("debe existir");
    assert_eq!(incident.kind, "process-pressure");
    assert_eq!(incident.severity, Severity::Critical);
    assert!(!incident.evidence.is_empty());
}

#[test]
fn anomalia_prioriza_incidente_de_riesgo() {
    let mut snapshot = empty_facts();
    snapshot.anomalies = vec![AnomalyEvent {
        event_id: "anom-demo".to_owned(),
        detected_at: now(),
        severity: RiskLevel::High,
        score: 78,
        kind: "suspicious-execution-path".to_owned(),
        title: "Ejecucion desde ruta sospechosa".to_owned(),
        process_name: Some("powershell.exe".to_owned()),
        pid: Some(4242),
        summary: "Proceso ejecutado desde carpeta temporal.".to_owned(),
        root_cause_hypothesis: "degradacion compatible con actividad persistente no autorizada".to_owned(),
        recommended_action: "Revisar manualmente".to_owned(),
        ..Default::default()
    }];

    let incident = derive_incident(&snapshot).expect("debe existir");
    assert_eq!(incident.kind, "suspicious-execution-path");
    assert_eq!(incident.risk_score, 78);
    assert_eq!(incident.anomaly_count, 1);
    assert_eq!(incident.risk_level, Some(RiskLevel::High));
}

#[test]
fn healthy_snapshot_gives_no_incident() {
    assert!(derive_incident(&empty_facts()).is_none());
}

#[test]
fn anomaly_incident_texts() {
    let mut snapshot = empty_facts();
    snapshot.collected_at = Timestamp { secs: 1_700_000_000, nanos: 5_000_000 };
    let event = AnomalyEvent {
        severity: RiskLevel::Critical,
        score: 90,
        kind: "rapid-respawn".to_owned(),
        title: "Reaparición".to_owned(),
        root_cause_hypothesis: "h".to_owned(),
        recommended_action: "a".to_owned(),
        ..Default::default()
    };
    snapshot.anomalies = vec![event.clone(), event];
    let incident = derive_incident(&snapshot).unwrap();
    assert_eq!(incident.incident_id, "incident-1700000000005");
    assert_eq!(incident.fingerprint, "critical|rapid-respawn|reaparición|2");
    assert_eq!(incident.probable_causes, vec!["h".to_owned()]);
    assert_eq!(incident.recommended_actions.len(), 4);
    assert_eq!(incident.recommended_actions[0], "a");
    assert_eq!(incident.anomaly_types, vec!["rapid-respawn".to_owned()]);
    assert_eq!(incident.anomaly_events.len(), 2);
    assert!(incident.ai_advice.is_none());
}

#[test]
fn headline_incident_from_connection() {
    let mut snapshot = empty_facts();
    snapshot.primary_severity = Severity::Warning;
    snapshot.primary_reason = "Red".to_owned();
    snapshot.connections = vec![ConnectionInsight {
        pid: 7,
        process_name: "x.exe".to_owned(),
        remote_address: "1.2.3.4:80".to_owned(),
        severity: Severity::Warning,
        reason: "r".to_owned(),
        ..Default::default()
    }];
    let incident = derive_incident(&snapshot).unwrap();
    assert_eq!(incident.kind, "network-anomaly");
    assert_eq!(incident.title, "Red");
    assert_eq!(incident.fingerprint, "warning|network-anomaly|red");
    assert_eq!(incident.evidence.len(), 1);
    assert_eq!(incident.evidence[0].label, "Red 7");
    assert_eq!(incident.evidence[0].value, "x.exe -> 1.2.3.4:80 (r)");
    assert_eq!(incident.probable_causes, vec!["r".to_owned()]);
    assert_eq!(
        incident.recommended_actions,
        vec![
            "Exportar snapshot JSON para preservar evidencia".to_owned(),
            "Correlacionar el hallazgo con historial reciente y cambios del sistema".to_owned(),
            "Capturar ETW/WPR si la degradación sigue activa".to_owned(),
            "Validar la IP remota y bloquearla solo si confirmas que no corresponde".to_owned(),
            "Si no basta la observación liviana, subir a modo de precisión ETW".to_owned(),
        ]
    );
}

#[test]
fn classify_process_scores_and_reasons() {
    let (sev, score, reasons, category) = classify_process(
        "weird-updater.exe",
        r"C:\Users\v\AppData\Local\Temp\weird-updater.exe",
        Pressure::Critical,
        Pressure::Warning,
        Pressure::Critical,
        "72.0",
        "1800",
        "350.0",
    );
    assert_eq!(score, 35 + 14 + 40 + 24 + 12);
    assert_eq!(sev, Severity::Critical);
    assert_eq!(
        reasons,
        vec![
            "CPU alto (72.0%)".to_owned(),
            "Memoria moderada-alta (1800 MB)".to_owned(),
            "Escritura intensa (350.0 MB en el intervalo)".to_owned(),
            "Ejecutable lanzado desde carpeta temporal".to_owned(),
            "Patrón de actualización/instalación detectado".to_owned(),
        ]
    );
    assert_eq!(category, "Temporal / instalador");

    let (sev, score, reasons, category) = classify_process(
        "notepad.exe",
        r"C:\Windows\System32\notepad.exe",
        Pressure::Normal,
        Pressure::Normal,
        Pressure::Normal,
        "0.1",
        "5",
        "0.0",
    );
    assert_eq!(score, 0);
    assert_eq!(sev, Severity::Healthy);
    assert_eq!(reasons, vec!["Sin presión relevante en esta muestra".to_owned()]);
    assert_eq!(category, "Sistema operativo");

    let (sev, score, _, category) =
        classify_process("app.exe", r"D:\apps\app.exe", Pressure::Warning, Pressure::Normal, Pressure::Normal, "50.0", "1", "0.0");
    assert_eq!(score, 18);
    assert_eq!(sev, Severity::Healthy);
    assert_eq!(category, "Aplicación de usuario");
}

#[test]
fn alerts_of_a_quiet_snapshot() {
    let precision = PrecisionStatus { wpr_available: true, ..Default::default() };
    let mut headline = Headline { primary_severity: Severity::Warning, primary_reason: "x".to_owned() };
    let alerts = build_alerts(
        AlertBuildInputs {
            processes: &[],
            connections: &[],
            temp_entries: &[],
            services: &[],
            anomalies: &[],
            precision: &precision,
        },
        &mut headline,
        5,
    );
    assert_eq!(alerts.len(), 1);
    assert_eq!(alerts[0].title, "Estado estable");
    assert_eq!(headline.primary_severity, Severity::Healthy);
    assert_eq!(headline.primary_reason, "No se observaron conflictos claros en esta muestra");
}

#[test]
fn alerts_follow_their_order_and_limit() {
    let precision = PrecisionStatus::default();
    let processes = vec![reading(9, "hog.exe", Severity::Critical, vec![])];
    let connections = vec![ConnectionInsight {
        pid: 3,
        process_name: "c.exe".to_owned(),
        remote_address: "8.8.8.8:443".to_owned(),
        severity: Severity::Critical,
        ..Default::default()
    }];
    let temps = vec![TempReading {
        path: r"C:\Temp".to_owned(),
        severity: Severity::Critical,
        size_text: "2048.0".to_owned(),
        file_count: 10,
        note: "n".to_owned(),
    }];
    let services = vec![ServiceState {
        name: "BITS".to_owned(),
        display_name: "Background".to_owned(),
        status: "running".to_owned(),
        start_type: String::new(),
    }];
    let mut headline = Headline { primary_severity: Severity::Healthy, primary_reason: String::new() };
    let alerts = build_alerts(
        AlertBuildInputs {
            processes: &processes,
            connections: &connections,
            temp_entries: &temps,
            services: &services,
            anomalies: &[],
            precision: &precision,
        },
        &mut headline,
        10,
    );
    let titles: Vec<&str> = alerts.iter().map(|a| a.title.as_str()).collect();
    assert_eq!(
        titles,
        vec![
            "Proceso dominante con presión alta",
            "Conexión remota a revisar",
            "Acumulación temporal relevante",
            "Servicio de actualización activo",
            "Modo de precisión disponible bajo instalación adicional",
        ]
    );
    assert_eq!(alerts[0].detail, "hog.exe usa 88.0% CPU, 1500 MB RAM y escribe 220.0 MB por intervalo.");
    assert_eq!(alerts[1].detail, "c.exe (PID 3) mantiene conexión con 8.8.8.8:443.");
    assert_eq!(alerts[2].detail, r"C:\Temp pesa 2048.0 MB y contiene 10 archivos.");
    assert_eq!(headline.primary_severity, Severity::Critical);
    assert_eq!(headline.primary_reason, "Proceso crítico detectado: hog.exe (PID 9)");

    let mut headline = Headline { primary_severity: Severity::Healthy, primary_reason: String::new() };
    let cut = build_alerts(
        AlertBuildInputs {
            processes: &processes,
            connections: &connections,
            temp_entries: &temps,
            services: &services,
            anomalies: &[],
            precision: &precision,
        },
        &mut headline,
        2,
    );
    assert_eq!(cut.len(), 2);
}

#[test]
fn anomalies_lead_the_alerts() {
    let precision = PrecisionStatus { wpr_available: true, ..Default::default() };
    let event = AnomalyEvent {
        severity: RiskLevel::Medium,
        title: "T".to_owned(),
        summary: "S".to_owned(),
        root_cause_hypothesis: "H".to_owned(),
        ..Default::default()
    };
    let anomalies = vec![event.clone(), event.clone(), event.clone(), event];
    let mut headline = Headline { primary_severity: Severity::Healthy, primary_reason: String::new() };
    let alerts = build_alerts(
        AlertBuildInputs {
            processes: &[],
            connections: &[],
            temp_entries: &[],
            services: &[],
            anomalies: &anomalies,
            precision: &precision,
        },
        &mut headline,
        10,
    );
    assert_eq!(alerts.len(), 3);
    assert_eq!(alerts[0].title, "T [Medio]");
    assert_eq!(headline.primary_severity, Severity::Warning);
    assert_eq!(headline.primary_reason, "H");
}

fn pressure(value: f32, warning: f32, critical: f32) -> Pressure {
    if value >= critical {
        Pressure::Critical
    } else if value >= warning {
        Pressure::Warning
    } else {
        Pressure::Normal
    }
}

#[test]
fn proceso_temporal_con_escritura_fuerte_es_critico() {
    let (cpu, memory, write) = (72.0f32, 1800.0f32, 350.0f32);
    let (severity, score, reasons, category) = classify_process(
        "weird-updater.exe",
        r"C:\Users\vbav\AppData\Local\Temp\weird-updater.exe",
        pressure(cpu, 30.0, 65.0),
        pressure(memory, 1_000.0, 2_500.0),
        pressure(write, 40.0, 200.0),
        &format!("{cpu:.1}"),
        &format!("{memory:.0}"),
        &format!("{write:.1}"),
    );
    assert_eq!(severity, Severity::Critical);
    assert!(score > 55);
    assert!(reasons.iter().any(|reason| reason.contains("temporal")));
    assert_eq!(category, "Temporal / instalador");
}
