use rootcause::models::{
    AgentStatus, Alert, AnomalyEvent, ConnectionInsight, IncidentSummary, PersistenceChange, PersistenceEntry,
    RiskLevel, Severity,
};
use rootcause::report::{build_report, ReportFacts, ReportProcess};
use rootcause::rules::TempReading;

fn base() -> ReportFacts {
    ReportFacts {
        generated_at: "2026-01-02 10:00:00".to_owned(),
        captured_at: "2026-01-02 09:59:58".to_owned(),
        version: "0.13.0".to_owned(),
        host_name: String::new(),
        os_name: String::new(),
        os_version: String::new(),
        cpu_brand: String::new(),
        cpu_cores: 0,
        total_ram_text: String::new(),
        primary_severity: Severity::Healthy,
        primary_reason: String::new(),
        cpu_text: "12.5".to_owned(),
        memory_used_text: "7.9".to_owned(),
        memory_total_text: "15.8".to_owned(),
        ram_percent_text: "50".to_owned(),
        io_write_text: "1.0".to_owned(),
        io_read_text: "2.0".to_owned(),
        network_rx_text: "0.3".to_owned(),
        network_tx_text: "0.1".to_owned(),
        temp_total_text: "812".to_owned(),
        incident: None,
        anomalies: vec![],
        alerts: vec![],
        persistence_entries: vec![],
        processes: vec![],
        connections: vec![],
        temp_entries: vec![],
        agent_status: AgentStatus::Healthy,
        agent_summary: String::new(),
    }
}

#[test]
fn minimal_report() {
    let text = build_report(&base());
    let expected = "# Reporte forense — RootCause Windows Inspector\n\
\n\
- **Generado:** 2026-01-02 10:00:00\n\
- **Captura analizada:** 2026-01-02 09:59:58\n\
- **Versión:** RootCause v0.13.0\n\
\n\
> Reporte de **indicios** con evidencia (no veredictos). RootCause es un software forense de ciberseguridad; complementa a tu antivirus/EDR, no lo reemplaza.\n\
\n\
## Veredicto\n\
- **Estado general:** Saludable\n\
- **Alertas:** 0 crítica(s) · 0 aviso(s)\n\
\n\
## Métricas en la captura\n\
| Recurso | Valor |\n\
|---|---|\n\
| CPU | 12.5% |\n\
| RAM | 7.9 / 15.8 GB (50%) |\n\
| Disco I/O | escritura 1.0 MB · lectura 2.0 MB |\n\
| Red | Rx 0.3 MB · Tx 0.1 MB |\n\
| Temporales vigilados | 812 MB |\n\
\n\
## Salud del agente RootCause\n\
- Estado: Saludable\n\
\n\
---\n_Generado por RootCause v0.13.0. Los hallazgos son indicios para investigar, no confirmaciones de amenaza._\n";
    assert_eq!(text, expected);
}

#[test]
fn full_report_sections() {
    let mut f = base();
    f.host_name = "PC".to_owned();
    f.os_name = "Windows".to_owned();
    f.os_version = "11".to_owned();
    f.cpu_brand = "CPU".to_owned();
    f.cpu_cores = 8;
    f.total_ram_text = "15.8".to_owned();
    f.primary_severity = Severity::Critical;
    f.primary_reason = "Proceso".to_owned();
    f.incident = Some(IncidentSummary {
        title: "Inc".to_owned(),
        risk_level: Some(RiskLevel::High),
        risk_score: 70,
        root_cause_hypothesis: "H".to_owned(),
        anomaly_types: vec!["a".to_owned(), "b".to_owned()],
        recommended_actions: (1..=6).map(|i| format!("r{i}")).collect(),
        ..Default::default()
    });
    f.anomalies = vec![AnomalyEvent {
        title: "T".to_owned(),
        kind: "k".to_owned(),
        score: 60,
        summary: "S".to_owned(),
        ..Default::default()
    }];
    f.alerts = vec![
        Alert { severity: Severity::Critical, title: "A".to_owned(), detail: "D".to_owned(), pid: Some(5), path: Some("p".to_owned()), hint: String::new() },
        Alert { severity: Severity::Warning, title: "B".to_owned(), detail: "E".to_owned(), pid: None, path: None, hint: String::new() },
    ];
    f.persistence_entries = vec![
        PersistenceEntry { entry_kind: "run".to_owned(), name: "x".to_owned(), command: "c".to_owned(), change_status: PersistenceChange::Added, ..Default::default() },
        PersistenceEntry { entry_kind: "run".to_owned(), name: "y".to_owned(), command: "d".to_owned(), ..Default::default() },
    ];
    f.processes = vec![
        ReportProcess { name: "low".to_owned(), pid: 1, score: 10, cpu_text: "1.0".to_owned(), memory_text: "10".to_owned(), io_write_text: "0.0".to_owned() },
        ReportProcess { name: "high".to_owned(), pid: 2, score: 90, cpu_text: "90.0".to_owned(), memory_text: "900".to_owned(), io_write_text: "9.0".to_owned() },
    ];
    f.connections = vec![
        ConnectionInsight { process_name: "p".to_owned(), pid: 3, remote_address: "8.8.8.8:443".to_owned(), state: "ESTABLISHED".to_owned(), is_public_remote: true, ..Default::default() },
        ConnectionInsight { process_name: "q".to_owned(), pid: 4, remote_address: "10.0.0.1:1".to_owned(), state: "ESTABLISHED".to_owned(), ..Default::default() },
    ];
    f.temp_entries = vec![TempReading { path: "C:\\T".to_owned(), severity: Severity::Warning, size_text: "300.0".to_owned(), file_count: 3, note: String::new() }];
    f.agent_status = AgentStatus::Recovered;
    f.agent_summary = "Recuperado".to_owned();
    let text = build_report(&f);
    assert!(text.contains("- **Equipo:** PC · Windows 11 · CPU · 8 núcleos · 15.8 GB RAM\n"));
    assert!(text.contains("- **Motivo dominante:** Proceso\n- **Alertas:** 1 crítica(s) · 1 aviso(s)\n"));
    assert!(text.contains("- Riesgo: Alto (score 70)\n- Hipótesis: H\n- Señales: a, b\n"));
    assert!(text.contains("  - Acción sugerida: r4\n\n"));
    assert!(!text.contains("r5"));
    assert!(text.contains("- **T** `k` · — (score 60) — S\n"));
    assert!(text.contains("- [Crítico] **A** (PID 5) — D\n  - `p`\n- [Advertencia] **B** — E\n"));
    assert!(text.contains("- **NUEVA** · run — x `c`\n\n"));
    assert!(!text.contains("— y `d`"));
    let high = text.find("| high | 2 | 90.0% | 900 MB | 9.0 MB | 90 |").unwrap();
    let low = text.find("| low | 1 | 1.0% | 10 MB | 0.0 MB | 10 |").unwrap();
    assert!(high < low);
    assert!(text.contains("| p | 3 | 8.8.8.8:443 | ESTABLISHED |\n"));
    assert!(!text.contains("10.0.0.1"));
    assert!(text.contains("- 300.0 MB — `C:\\T`\n"));
    assert!(text.contains("- Estado: Recuperado\n- Recuperado\n"));
}
