use rootcause::models::Severity;
use rootcause::network::{classify_connection, extract_ip, is_public_ip, looks_like_browser, parse_netstat_output};
use std::collections::HashMap;

#[test]
fn detecta_ip_publica_correctamente() {
    assert!(is_public_ip("8.8.8.8"));
    assert!(!is_public_ip("127.0.0.1"));
    assert!(!is_public_ip("192.168.1.3"));
    assert!(!is_public_ip("172.16.5.20"));
    assert!(is_public_ip("172.32.5.20"));
}

#[test]
fn parsea_lineas_tcp_y_udp() {
    let mut names = HashMap::new();
    names.insert(1000_u32, "weird-updater.exe".to_owned());
    let mut paths = HashMap::new();
    paths.insert(1000_u32, r"C:\Users\vbav\AppData\Local\Temp\weird-updater.exe".to_owned());

    let input = r#"
  Proto  Local Address          Foreign Address        State           PID
  TCP    192.168.1.15:53010     8.8.8.8:443            ESTABLISHED     1000
  UDP    0.0.0.0:5353           *:*                                    1000
"#;

    let rows = parse_netstat_output(input, &names, &paths);
    assert_eq!(rows.len(), 2);
    assert_eq!(rows[0].pid, 1000);
}

#[test]
fn netstat_rows_are_classified() {
    let mut names = HashMap::new();
    names.insert(1000_u32, "weird-updater.exe".to_owned());
    let mut paths = HashMap::new();
    paths.insert(1000_u32, r"C:\Users\vbav\AppData\Local\Temp\weird-updater.exe".to_owned());
    let input = "  TCP    192.168.1.15:53010     8.8.8.8:443            ESTABLISHED     1000\n  TCP    10.0.0.2:1     10.0.0.3:2    LISTENING    77\n";
    let rows = parse_netstat_output(input, &names, &paths);
    assert_eq!(rows.len(), 2);
    assert_eq!(rows[0].severity, Severity::Critical);
    assert_eq!(rows[0].process_name, "weird-updater.exe");
    assert!(rows[0].is_public_remote);
    assert_eq!(rows[1].pid, 77);
    assert_eq!(rows[1].process_name, "Desconocido");
    assert_eq!(rows[1].severity, Severity::Healthy);
}

#[test]
fn endpoints_and_addresses() {
    assert_eq!(extract_ip("8.8.8.8:443"), Some("8.8.8.8".to_owned()));
    assert_eq!(extract_ip("[fe80::1]:80"), Some("fe80::1".to_owned()));
    assert_eq!(extract_ip("*:*"), None);
    assert_eq!(extract_ip("0.0.0.0:0"), None);
    assert!(!is_public_ip("::1"));
    assert!(!is_public_ip("fe80::1"));
    assert!(!is_public_ip(""));
    assert!(looks_like_browser("chrome.exe"));
    assert!(!looks_like_browser("svchost.exe"));
}

#[test]
fn connection_classification_levels() {
    let (sev, _, public) = classify_connection("x.exe", r"C:\Temp\x.exe", "1.2.3.4:80", "ESTABLISHED");
    assert_eq!(sev, Severity::Critical);
    assert!(public);
    let (sev, _, _) = classify_connection("svc.exe", r"C:\Program Files\a\svc.exe", "1.2.3.4:80", "ESTABLISHED");
    assert_eq!(sev, Severity::Warning);
    let (sev, _, _) = classify_connection("chrome.exe", r"C:\Program Files\c\chrome.exe", "1.2.3.4:443", "ESTABLISHED");
    assert_eq!(sev, Severity::Healthy);
    let (sev, reason, _) = classify_connection("a.exe", "", "1.2.3.4:53", "udp");
    assert_eq!(sev, Severity::Warning);
    assert_eq!(reason, "Tráfico UDP hacia IP pública; revisar si corresponde a software esperado");
    let (sev, _, public) = classify_connection("a.exe", "", "192.168.0.1:53", "ESTABLISHED");
    assert_eq!(sev, Severity::Healthy);
    assert!(!public);
}
