use rootcause::commands::{
    cmdline_map, cmdline_query_script, extract_target_path, firewall_block_script, is_valid_firewall_ip, merge_output,
    parse_cmdline_json, recording_from_status, stop_service_script, CmdlineRow,
};

#[test]
fn firewall_addresses_are_checked() {
    assert!(is_valid_firewall_ip("1.2.3.4"));
    assert!(is_valid_firewall_ip("2001:db8::1"));
    assert!(!is_valid_firewall_ip(""));
    assert!(!is_valid_firewall_ip("1.2.3.4; rm"));
    assert!(!is_valid_firewall_ip(&"1".repeat(46)));
}

#[test]
fn firewall_script_or_refusal() {
    assert_eq!(
        firewall_block_script(" 8.8.8.8 "),
        Ok("New-NetFirewallRule -DisplayName 'RootCause block 8.8.8.8' -Direction Outbound -RemoteAddress 8.8.8.8 -Action Block | Out-Null; Write-Output 'Regla creada para bloquear 8.8.8.8'".to_owned())
    );
    assert_eq!(
        firewall_block_script("x'y"),
        Err("Dirección IP no válida: 'x'y'. Solo se aceptan IPv4 (ej. 1.2.3.4) o IPv6 (ej. 2001:db8::1).".to_owned())
    );
}

#[test]
fn service_script_or_refusal() {
    assert_eq!(
        stop_service_script("wuauserv"),
        Ok("Stop-Service -Name 'wuauserv' -Force -ErrorAction Stop; Write-Output 'Servicio wuauserv detenido temporalmente'".to_owned())
    );
    assert_eq!(stop_service_script("a b"), Err("Nombre de servicio no válido: 'a b'.".to_owned()));
    assert_eq!(stop_service_script("   "), Err("Nombre de servicio no válido: ''.".to_owned()));
}

#[test]
fn recorder_status_is_read() {
    assert!(!recording_from_status("There are no trace profiles running."));
    assert!(!recording_from_status("No hay perfiles de seguimiento en ejecución"));
    assert!(recording_from_status("Profiles running: GeneralProfile"));
}

#[test]
fn tool_output_is_merged_and_trimmed() {
    assert_eq!(merge_output(" out\n", "err \n"), "out\nerr");
    assert_eq!(merge_output("", ""), "");
}

#[test]
fn command_line_query_lists_pids() {
    assert_eq!(
        cmdline_query_script(&[4, 1000]),
        Some("Get-CimInstance Win32_Process -Filter 'ProcessId IN (4,1000)' | Select-Object ProcessId,CommandLine | ConvertTo-Json -Compress".to_owned())
    );
    assert_eq!(cmdline_query_script(&[]), None);
}

#[test]
fn command_lines_from_an_array_reply() {
    let raw = r#"[{"ProcessId":10,"CommandLine":"a.exe -x"},{"ProcessId":11,"CommandLine":""},{"ProcessId":"12","CommandLine":"b"},{"ProcessId":13,"CommandLine":null},{"ProcessId":10,"CommandLine":"c.exe"}]"#;
    let map = parse_cmdline_json(raw);
    assert_eq!(map.len(), 1);
    assert_eq!(map.get(&10).map(String::as_str), Some("c.exe"));
}

#[test]
fn command_lines_from_a_single_object_reply() {
    let map = parse_cmdline_json(r#"{"ProcessId":42,"CommandLine":"powershell -enc x"}"#);
    assert_eq!(map.len(), 1);
    assert_eq!(map.get(&42).map(String::as_str), Some("powershell -enc x"));
    assert!(parse_cmdline_json("no es json").is_empty());
    assert!(parse_cmdline_json("").is_empty());
}

#[test]
fn command_line_map_keeps_usable_rows() {
    let rows = vec![
        CmdlineRow { process_id: Some(7), command_line: Some("x".to_owned()) },
        CmdlineRow { process_id: None, command_line: Some("y".to_owned()) },
        CmdlineRow { process_id: Some(8), command_line: None },
        CmdlineRow { process_id: Some(4_294_967_297), command_line: Some("z".to_owned()) },
    ];
    let map = cmdline_map(&rows);
    assert_eq!(map.len(), 2);
    assert_eq!(map.get(&7).map(String::as_str), Some("x"));
    assert_eq!(map.get(&1).map(String::as_str), Some("z"));
}

#[test]
fn autostart_targets() {
    assert_eq!(
        extract_target_path(r#""C:\Program Files\App\app.exe" --tray"#),
        Some(r"C:\Program Files\App\app.exe".to_owned())
    );
    assert_eq!(
        extract_target_path(r"C:\Tools\run.bat arg1"),
        Some(r"C:\Tools\run.bat".to_owned())
    );
    assert_eq!(extract_target_path("   "), None);
}
