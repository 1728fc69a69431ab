use rootcause::inspection::protected_process_names;
use rootcause::models::AuditRecord;
use rootcause::remediation::{
    audit_entry, authorize_block_ip, authorize_stop_service, authorize_terminate, stop_service_audit_target,
};

const DISABLED: &str = "Las acciones manuales están desactivadas por configuración";

#[test]
fn manual_actions_off_refuses_everything() {
    let protected = protected_process_names();
    assert_eq!(authorize_stop_service(false, "BITS"), Err(DISABLED.to_owned()));
    assert_eq!(authorize_block_ip(false, "8.8.8.8:443"), Err(DISABLED.to_owned()));
    assert_eq!(
        authorize_terminate(false, 500, 99, Some(("notepad.exe", r"C:\Windows\notepad.exe")), &protected),
        Err(DISABLED.to_owned())
    );
}

#[test]
fn only_the_four_services_may_be_stopped() {
    assert_eq!(authorize_stop_service(true, "  BITS "), Ok("bits".to_owned()));
    assert_eq!(authorize_stop_service(true, "WuAuServ"), Ok("wuauserv".to_owned()));
    assert_eq!(authorize_stop_service(true, "dosvc"), Ok("dosvc".to_owned()));
    assert_eq!(authorize_stop_service(true, "SysMain"), Ok("sysmain".to_owned()));
    assert_eq!(
        authorize_stop_service(true, "WinDefend"),
        Err("El servicio WinDefend no está permitido para detención rápida desde la UI".to_owned())
    );
    assert_eq!(stop_service_audit_target(true, " WinDefend "), "windefend");
    assert_eq!(stop_service_audit_target(false, " WinDefend "), " WinDefend ");
}

#[test]
fn termination_follows_the_policy() {
    let protected = protected_process_names();
    let notepad = Some(("notepad.exe", r"C:\Windows\notepad.exe"));
    assert_eq!(authorize_terminate(true, 500, 99, notepad, &protected), Ok(500));
    assert_eq!(
        authorize_terminate(true, 99, 99, notepad, &protected),
        Err("La aplicación no se permite finalizar a sí misma".to_owned())
    );
    assert_eq!(authorize_terminate(true, 500, 99, None, &protected), Err("El proceso ya no existe".to_owned()));
    assert_eq!(
        authorize_terminate(true, 600, 99, Some(("lsass.exe", "")), &protected),
        Err("Proceso protegido por política local".to_owned())
    );
}

#[test]
fn blocked_address_comes_from_the_endpoint() {
    assert_eq!(authorize_block_ip(true, "8.8.8.8:443"), Ok("8.8.8.8".to_owned()));
    assert_eq!(authorize_block_ip(true, "[2001:db8::1]:443"), Ok("2001:db8::1".to_owned()));
    assert_eq!(authorize_block_ip(true, "*:*"), Ok("*:*".to_owned()));
}

#[test]
fn audit_records_the_outcome() {
    let ok: AuditRecord = audit_entry("2024-01-01T00:00:00Z", "block-ip", "8.8.8.8", &Ok("Regla creada".to_owned()));
    assert_eq!(ok.occurred_at, "2024-01-01T00:00:00Z");
    assert_eq!(ok.action, "block-ip");
    assert_eq!(ok.target, "8.8.8.8");
    assert!(ok.success);
    assert_eq!(ok.detail, "Regla creada");
    let failed = audit_entry("t", "stop-service", "bits", &Err(DISABLED.to_owned()));
    assert!(!failed.success);
    assert_eq!(failed.detail, DISABLED);
}
