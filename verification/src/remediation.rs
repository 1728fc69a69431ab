//! Manual actions (terminating a process, blocking an address, stopping a
//! service): whether the local policy lets each one go ahead, on which
//! target, and the audit record every attempt leaves.

use crate::inspection::{can_terminate_process, can_terminate_spec};
use crate::interface::{is_stoppable_name, stoppable_name};
use crate::models::{strings_view, AuditRecord, AuditRecordView};
use crate::network::{extract_ip, extract_ip_spec};
use crate::text::{concat3, lower, owned, to_lower, trim, trim_str};
use vstd::prelude::*;

verus! {

/// The refusal given to every manual action while they are switched off.
pub open spec fn manual_actions_disabled_msg() -> Seq<char> {
    "Las acciones manuales están desactivadas por configuración"@
}

fn manual_actions_disabled() -> (r: String)
    ensures
        r@ == manual_actions_disabled_msg(),
{
    owned("Las acciones manuales están desactivadas por configuración")
}

/// A result of texts, seen as character sequences.
pub open spec fn outcome_view(r: Result<String, String>) -> Result<Seq<char>, Seq<char>> {
    match r {
        Ok(s) => Ok(s@),
        Err(e) => Err(e@),
    }
}

/// The service name once trimmed and lower-cased.
pub open spec fn trim_lower(name: Seq<char>) -> Seq<char> {
    lower(trim(name))
}

/// Whether a service may be stopped, and under which name.
pub open spec fn authorize_stop_service_spec(manual_actions_enabled: bool, service_name: Seq<char>) -> Result<
    Seq<char>,
    Seq<char>,
> {
    if !manual_actions_enabled {
        Err(manual_actions_disabled_msg())
    } else if is_stoppable_name(trim_lower(service_name)) {
        Ok(trim_lower(service_name))
    } else {
        Err("El servicio "@ + service_name + " no está permitido para detención rápida desde la UI"@)
    }
}

/// Decides whether a service may be stopped: manual actions must be on and
/// the name, trimmed and lower-cased, must be one of the four stoppable
/// services. On success gives that normalised name.
pub fn authorize_stop_service(manual_actions_enabled: bool, service_name: &str) -> (r: Result<String, String>)
    ensures
        outcome_view(r) == authorize_stop_service_spec(manual_actions_enabled, service_name@),
{
    if !manual_actions_enabled {
        return Err(manual_actions_disabled());
    }
    let trimmed = trim_str(service_name);
    let lowered = to_lower(trimmed.as_str());
    if stoppable_name(lowered.as_str()) {
        Ok(lowered)
    } else {
        Err(concat3("El servicio ", service_name, " no está permitido para detención rápida desde la UI"))
    }
}

/// The target an attempt to stop a service is audited under: the name as
/// given while manual actions are off, else the name trimmed and lower-cased.
pub fn stop_service_audit_target(manual_actions_enabled: bool, service_name: &str) -> (r: String)
    ensures
        r@ == (if manual_actions_enabled { trim_lower(service_name@) } else { service_name@ }),
{
    if manual_actions_enabled {
        let trimmed = trim_str(service_name);
        to_lower(trimmed.as_str())
    } else {
        owned(service_name)
    }
}

/// Whether a process may be terminated: `found` holds the name and the
/// executable path of the process when it still exists.
pub open spec fn authorize_terminate_spec(
    manual_actions_enabled: bool,
    pid: u32,
    own_pid: u32,
    found: Option<(Seq<char>, Seq<char>)>,
    protected: Seq<Seq<char>>,
) -> Result<u32, Seq<char>> {
    if !manual_actions_enabled {
        Err(manual_actions_disabled_msg())
    } else if pid == own_pid {
        Err("La aplicación no se permite finalizar a sí misma"@)
    } else {
        match found {
            None => Err("El proceso ya no existe"@),
            Some((name, exe_path)) => if can_terminate_spec(pid, name, exe_path, own_pid, protected) {
                Ok(pid)
            } else {
                Err("Proceso protegido por política local"@)
            },
        }
    }
}

/// Decides whether a process may be terminated: manual actions must be on,
/// the process must not be this application, it must still exist (`found`
/// holds its name and executable path), and the local policy must allow it.
pub fn authorize_terminate(
    manual_actions_enabled: bool,
    pid: u32,
    own_pid: u32,
    found: Option<(&str, &str)>,
    protected: &[String],
) -> (r: Result<u32, String>)
    ensures
        match r {
            Ok(p) => authorize_terminate_spec(
                manual_actions_enabled,
                pid,
                own_pid,
                match found {
                    Some((n, e)) => Some((n@, e@)),
                    None => None,
                },
                strings_view(protected@),
            ) == Ok::<u32, Seq<char>>(p),
            Err(e) => authorize_terminate_spec(
                manual_actions_enabled,
                pid,
                own_pid,
                match found {
                    Some((n, e)) => Some((n@, e@)),
                    None => None,
                },
                strings_view(protected@),
            ) == Err::<u32, Seq<char>>(e@),
        },
{
    if !manual_actions_enabled {
        return Err(manual_actions_disabled());
    }
    if pid == own_pid {
        return Err(owned("La aplicación no se permite finalizar a sí misma"));
    }
    match found {
        None => Err(owned("El proceso ya no existe")),
        Some((name, exe_path)) => {
            if can_terminate_process(pid, name, exe_path, own_pid, protected) {
                Ok(pid)
            } else {
                Err(owned("Proceso protegido por política local"))
            }
        },
    }
}

/// Whether an address may be blocked, and which one: the IP of the endpoint,
/// or the text itself when it carries none.
pub open spec fn authorize_block_ip_spec(manual_actions_enabled: bool, ip_or_endpoint: Seq<char>) -> Result<
    Seq<char>,
    Seq<char>,
> {
    if !manual_actions_enabled {
        Err(manual_actions_disabled_msg())
    } else {
        match extract_ip_spec(ip_or_endpoint) {
            Some(ip) => Ok(ip),
            None => Ok(ip_or_endpoint),
        }
    }
}

/// Decides whether an address may be blocked: manual actions must be on.
/// On success gives the IP of the endpoint, or the text itself when no IP
/// can be read from it.
pub fn authorize_block_ip(manual_actions_enabled: bool, ip_or_endpoint: &str) -> (r: Result<String, String>)
    ensures
        outcome_view(r) == authorize_block_ip_spec(manual_actions_enabled, ip_or_endpoint@),
{
    if !manual_actions_enabled {
        return Err(manual_actions_disabled());
    }
    match extract_ip(ip_or_endpoint) {
        Some(ip) => Ok(ip),
        None => Ok(owned(ip_or_endpoint)),
    }
}

/// The audit record of an attempted action: it succeeded exactly when the
/// outcome is `Ok`, and its detail is the outcome's message.
pub open spec fn audit_entry_spec(
    occurred_at: Seq<char>,
    action: Seq<char>,
    target: Seq<char>,
    outcome: Result<Seq<char>, Seq<char>>,
) -> AuditRecordView {
    AuditRecordView {
        occurred_at,
        action,
        target,
        success: outcome is Ok,
        detail: match outcome {
            Ok(s) => s,
            Err(e) => e,
        },
    }
}

/// Builds the audit record of an attempted action.
pub fn audit_entry(occurred_at: &str, action: &str, target: &str, outcome: &Result<String, String>) -> (r: AuditRecord)
    ensures
        r@ == audit_entry_spec(occurred_at@, action@, target@, outcome_view(*outcome)),
{
    let (success, detail) = match outcome {
        Ok(s) => (true, owned(s.as_str())),
        Err(e) => (false, owned(e.as_str())),
    };
    AuditRecord {
        occurred_at: owned(occurred_at),
        action: owned(action),
        target: owned(target),
        success,
        detail,
    }
}

/// While manual actions are off, every manual action is refused with the
/// same message, whatever its target.
pub proof fn lemma_manual_actions_off_refuses_all(
    service_name: Seq<char>,
    ip_or_endpoint: Seq<char>,
    pid: u32,
    own_pid: u32,
    found: Option<(Seq<char>, Seq<char>)>,
    protected: Seq<Seq<char>>,
)
    ensures
        authorize_stop_service_spec(false, service_name) == Err::<Seq<char>, Seq<char>>(manual_actions_disabled_msg()),
        authorize_block_ip_spec(false, ip_or_endpoint) == Err::<Seq<char>, Seq<char>>(manual_actions_disabled_msg()),
        authorize_terminate_spec(false, pid, own_pid, found, protected) == Err::<u32, Seq<char>>(
            manual_actions_disabled_msg(),
        ),
{
}

/// A service that may be stopped is always one of the four stoppable
/// services, named in lower case without surrounding blanks.
pub proof fn lemma_stopped_service_is_allowed(manual_actions_enabled: bool, service_name: Seq<char>)
    ensures
        authorize_stop_service_spec(manual_actions_enabled, service_name) matches Ok(n) ==> manual_actions_enabled
            && is_stoppable_name(n) && n == trim_lower(service_name),
{
}

} // verus!
