use rootcause::etl::{
    analysis_layout,
    build_trace_analysis, categorize_path, cleanup_value, detect_process_name, extract_attr, extract_public_ips,
    extract_text, is_delivery_optimization_path, is_temp_executable_path, is_windows_update_path,
    looks_like_update_process, looks_like_windows_path, severity_for_path, summary_excerpt, trace_ip_public,
    EtlReader,
};
use rootcause::models::Severity;

#[test]
fn reconoce_ruta_temporal_ejecutable() {
    assert!(is_temp_executable_path(r"C:\Users\vbav\AppData\Local\Temp\setup.exe"));
    assert!(!is_temp_executable_path(r"C:\Windows\System32\notepad.exe"));
}

#[test]
fn clasifica_actualizacion() {
    assert!(is_windows_update_path(r"C:\Windows\SoftwareDistribution\Download\a.cab"));
    assert!(looks_like_update_process("trustedinstaller.exe"));
}

#[test]
fn path_categories_and_severities() {
    assert_eq!(categorize_path(r"C:\Windows\SoftwareDistribution\Download\a.cab"), "windows-update");
    assert_eq!(
        categorize_path(r"C:\ProgramData\Microsoft\Windows\DeliveryOptimization\Cache\x"),
        "delivery-optimization"
    );
    assert_eq!(categorize_path(r"C:\Users\a\AppData\Local\Temp\x.txt"), "temporal");
    assert_eq!(categorize_path(r"C:\Windows\System32\kernel32.dll"), "sistema");
    assert_eq!(categorize_path(r"D:\data\file.txt"), "usuario");
    assert_eq!(severity_for_path(r"C:\Temp\a.exe"), Severity::Critical);
    assert_eq!(severity_for_path(r"C:\Windows\WinSxS\x"), Severity::Warning);
    assert_eq!(severity_for_path(r"D:\data\file.txt"), Severity::Healthy);
    assert!(is_delivery_optimization_path(r"C:\x\DeliveryOptimization\y"));
}

#[test]
fn xml_helpers() {
    assert_eq!(cleanup_value("  a &lt;b&gt; &amp; &quot;c&quot; "), "a <b> & \"c\"");
    assert_eq!(extract_attr(r#"<Data Name="Image">x</Data>"#, "Name"), Some("Image".to_owned()));
    assert_eq!(extract_attr("<Data>x</Data>", "Name"), None);
    assert_eq!(extract_text(r#"<Data Name="Image">C:\a.exe</Data>"#), r"C:\a.exe");
    assert_eq!(extract_text("no tags"), "");
    assert!(looks_like_windows_path(r" C:\Windows "));
    assert!(looks_like_windows_path(r"\\server\share"));
    assert!(!looks_like_windows_path("plain"));
}

#[test]
fn process_names_from_fields() {
    assert_eq!(
        detect_process_name("ImageName", r"C:\Tools\Setup.EXE"),
        Some("setup.exe".to_owned())
    );
    assert_eq!(detect_process_name("FileName", r"C:\Tools\Setup.EXE"), None);
    assert_eq!(detect_process_name("ProcessName", "notes.txt"), None);
}

#[test]
fn public_addresses_in_values() {
    assert_eq!(
        extract_public_ips("dst=8.8.8.8 src=10.0.0.1 other=192.168.1.4 last=1.1.1.1"),
        vec!["8.8.8.8".to_owned(), "1.1.1.1".to_owned()]
    );
    assert!(extract_public_ips("no addresses here").is_empty());
    assert!(trace_ip_public("8.8.8.8"));
    assert!(!trace_ip_public("172.20.1.1"));
    assert!(trace_ip_public("172.40.1.1"));
    assert!(!trace_ip_public("0.0.0.0"));
}

#[test]
fn excerpt_keeps_three_non_blank_lines() {
    assert_eq!(summary_excerpt("\n a \n\n b\nc\nd\n"), "a | b | c");
    assert_eq!(summary_excerpt(""), "");
}

#[test]
fn reader_tallies_a_temporary_executable() {
    let mut reader = EtlReader::new();
    for line in [
        "<Events>",
        "  <Event xmlns=\"x\">",
        "    <Provider Name=\"Microsoft-Windows-Kernel-Process\" Guid=\"{1}\"/>",
        "    <Data Name=\"ImageName\">C:\\Users\\a\\AppData\\Local\\Temp\\dropper.exe</Data>",
        "    <Data Name=\"DestAddress\">8.8.8.8</Data>",
        "  </Event>",
        "</Events>",
    ] {
        reader.feed_line(line);
    }
    let analysis = build_trace_analysis(
        reader.tally(),
        "",
        "2026-01-01T00:00:00Z".to_owned(),
        "trace.etl".to_owned(),
        "out".to_owned(),
        "out/trace.xml".to_owned(),
        "out/summary.txt".to_owned(),
    );
    assert_eq!(analysis.total_events, 1);
    assert_eq!(analysis.etl_path, "trace.etl");
    assert_eq!(analysis.raw_xml_path.as_deref(), Some("out/trace.xml"));
    assert!(analysis
        .findings
        .iter()
        .any(|f| f.title == "Ejecutable observado desde carpeta temporal" && f.severity == Severity::Critical));
    assert!(analysis.findings.iter().any(|f| f.evidence == "8.8.8.8"));
    assert_eq!(analysis.hot_processes.len(), 1);
    assert_eq!(analysis.hot_processes[0].name, "dropper.exe");
    assert_eq!(analysis.hot_processes[0].occurrences, 1);
    assert_eq!(analysis.public_ips, vec!["8.8.8.8".to_owned()]);
    assert_eq!(analysis.providers, vec![("Microsoft-Windows-Kernel-Process".to_owned(), 1)]);
}

#[test]
fn empty_trace_gives_quiet_summary() {
    let reader = EtlReader::new();
    let analysis = build_trace_analysis(
        reader.tally(),
        "",
        "t".to_owned(),
        "e".to_owned(),
        "o".to_owned(),
        "x".to_owned(),
        "s".to_owned(),
    );
    assert_eq!(analysis.total_events, 0);
    assert_eq!(analysis.findings.len(), 1);
    assert!(analysis.hot_processes.is_empty());
    assert_eq!(analysis.limitations.len(), 3);
}

#[test]
fn a_line_starting_with_event_opens_a_new_event() {
    let mut reader = EtlReader::new();
    for line in [
        "<Event>",
        "<Provider Name=\"Lost-Provider\"/>",
        "<EventID>7</EventID>",
        "<Data Name=\"ImageName\">C:\\Tools\\kept.exe</Data>",
        "</Event>",
    ] {
        reader.feed_line(line);
    }
    let analysis = build_trace_analysis(
        reader.tally(),
        "",
        "t".to_owned(),
        "e".to_owned(),
        "o".to_owned(),
        "x".to_owned(),
        "s".to_owned(),
    );
    assert_eq!(analysis.total_events, 1);
    assert!(analysis.providers.is_empty());
    assert_eq!(analysis.hot_processes[0].name, "kept.exe");
}

#[test]
fn hot_processes_come_by_decreasing_count() {
    let mut reader = EtlReader::new();
    for name in ["a.exe", "b.exe", "b.exe", "c.exe", "b.exe", "c.exe"] {
        reader.feed_line("<Event>");
        reader.feed_line(&format!("<Data Name=\"ImageName\">C:\\x\\{name}</Data>"));
        reader.feed_line("</Event>");
    }
    let analysis = build_trace_analysis(
        reader.tally(),
        "",
        "t".to_owned(),
        "e".to_owned(),
        "o".to_owned(),
        "x".to_owned(),
        "s".to_owned(),
    );
    let rows: Vec<(String, u64)> =
        analysis.hot_processes.iter().map(|p| (p.name.clone(), p.occurrences)).collect();
    assert_eq!(
        rows,
        vec![("b.exe".to_owned(), 3), ("c.exe".to_owned(), 2), ("a.exe".to_owned(), 1)]
    );
}

#[test]
fn trace_artefacts_sit_in_a_folder_named_after_the_trace() {
    let (xml, summary, json) = analysis_layout(r"C:\traces\analysis", r"C:\traces\boot-slow.etl");
    assert_eq!(xml, r"C:\traces\analysis\boot-slow\dumpfile.xml");
    assert_eq!(summary, r"C:\traces\analysis\boot-slow\summary.txt");
    assert_eq!(json, r"C:\traces\analysis\boot-slow\trace-analysis.json");
    let (xml, _, _) = analysis_layout("out/", "dir/a.b.etl");
    assert_eq!(xml, r"out/a.b\dumpfile.xml");
    let (xml, _, _) = analysis_layout("out", ".hidden");
    assert_eq!(xml, r"out\.hidden\dumpfile.xml");
    let (xml, _, _) = analysis_layout("out", "");
    assert_eq!(xml, r"out\trace\dumpfile.xml");
}
