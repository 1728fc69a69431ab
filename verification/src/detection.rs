//! The per-process detection rules and the analysis of one snapshot.
//!
//! Each rule reads one process of the snapshot (with its streaks, its
//! network destinations and its parent) and raises at most one event. The
//! analysis runs the rules over every process in order, adds the autostart and
//! security-service findings, correlates events that share a context, sorts
//! everything by severity, score and kind, and forgets stale state.

use crate::anomaly::{
    build_process_event, correlate_anomalies, correlate_spec, events_view, metric_evidence,
    network_summary_spec, path_is_suspicious, path_is_suspicious_spec, persistence_event,
    persistence_event_spec, process_event_spec, security_control_score, security_control_spec,
    security_service_event, security_service_event_spec, summarize_network,
    suspicious_parent_child, suspicious_parent_child_spec, is_trusted_process,
    trusted_process_spec, parent_name_of, AnomalyConfig, ProcessEventSpec, ProcessNetworkSummary,
    ProcessObservation, ProcessObservationView,
};
use crate::models::{
    evidence_view, opt_view, strings_view, AnomalyEvent, AnomalyEventView, ConnectionInsight,
    ConnectionInsightView, IncidentEvidence, IncidentEvidenceView, PersistenceEntry,
    PersistenceEntryView, ServiceState, ServiceStateView, Timestamp, risk_rank,
};
use crate::order::{
    insert_pos, lemma_stable_sort_sorted, lemma_stable_sort_step, sorted_by, stable_insert, stable_sort,
    strict_order,
};
use crate::text::{
    chars_of, concat2, owned, concat_all, contains, contains_str, int_text, int_text_exec, join_all,
    lemma_lex_lt_asym, lemma_lex_lt_trans, lex_lt, lex_lt_vec, lower, to_lower,
};
use crate::tracker::{
    keep, keys_distinct, lookup, respawn_score, respawns_after, script_score, scripts_after,
    upsert, history_after, within_window, window_ok, observed_pid, observations_view, AnomalyTracker,
    ProcessHistory, RespawnState, ScriptState, TrackerView,
};
use vstd::prelude::*;

verus! {

broadcast use vstd::std_specs::hash::group_hash_axioms;

// ---------------------------------------------------------------------------
// Rule specifications
// ---------------------------------------------------------------------------

/// What the rules read about one process in one snapshot.
pub struct RuleFacts {
    pub p: ProcessObservationView,
    pub at: Timestamp,
    /// Name of the parent process, when it is part of the snapshot.
    pub parent: Option<Seq<char>>,
    pub net: ProcessNetworkSummary,
    /// The streaks of the process once this snapshot is counted.
    pub hist: ProcessHistory,
}

/// The event a rule raises for the process of `f`.
pub open spec fn raise(
    f: RuleFacts,
    kind: Seq<char>,
    title: Seq<char>,
    score: u16,
    summary: Seq<char>,
    hypothesis: Seq<char>,
    action: Seq<char>,
    evidence: Seq<IncidentEvidenceView>,
) -> AnomalyEventView {
    process_event_spec(f.p, f.at, kind, title, score, f.parent, summary, hypothesis, action, evidence, f.net)
}

/// `x`, but at most `cap`.
pub open spec fn capped(x: int, cap: int) -> u16 {
    if x > cap {
        cap as u16
    } else {
        x as u16
    }
}

/// One item of evidence.
pub open spec fn ev(kind: Seq<char>, label: Seq<char>, value: Seq<char>) -> IncidentEvidenceView {
    IncidentEvidenceView { kind, label, value }
}

/// The command line of a process as evidence, when it has one.
pub open spec fn command_line_evidence_spec(p: ProcessObservationView) -> Seq<IncidentEvidenceView> {
    match p.command_line {
        Some(c) => seq![ev("command-line"@, "Command line"@, c)],
        None => Seq::empty(),
    }
}

/// Sustained high CPU: score 42 + 8 per sample, at most 88.
pub open spec fn cpu_rule_spec(f: RuleFacts, cfg: AnomalyConfig) -> Option<AnomalyEventView> {
    let s = f.hist.high_cpu_streak;
    if s >= cfg.cpu_sustained_samples {
        Some(
            raise(
                f,
                "sustained-high-cpu"@,
                "CPU sostenido anormal"@,
                capped(42 + s * 8, 88),
                f.p.name + " mantiene "@ + f.p.cpu_text + "% de CPU durante "@ + int_text(s as int)
                    + " muestras consecutivas."@,
                "lentitud asociada a proceso no habitual con alto consumo sostenido"@,
                "Observar, validar command line y finalizar manualmente solo si el proceso no corresponde."@,
                seq![
                    ev("cpu"@, "CPU"@, f.p.cpu_text + "%"@),
                    ev("samples"@, "Muestras sostenidas"@, int_text(s as int)),
                ],
            ),
        )
    } else {
        None
    }
}

/// Repeated memory growth: score 46 + 8 per sample, at most 86.
pub open spec fn memory_rule_spec(f: RuleFacts, cfg: AnomalyConfig) -> Option<AnomalyEventView> {
    let s = f.hist.memory_growth_streak;
    if s >= cfg.memory_growth_samples {
        Some(
            raise(
                f,
                "memory-growth"@,
                "Crecimiento anomalo de memoria"@,
                capped(46 + s * 8, 86),
                f.p.name + " incrementa memoria hasta "@ + f.p.memory_text + " MB con crecimiento repetido."@,
                "degradacion compatible con proceso persistente o script abusivo con crecimiento de memoria"@,
                "Revisar manualmente el proceso, preservar evidencia y escalar escaneo si no pertenece a la carga normal."@,
                seq![
                    ev("memory"@, "Memoria"@, f.p.memory_text + " MB"@),
                    ev("growth"@, "Crecimiento"@, f.p.memory_growth_text + " MB"@),
                ],
            ),
        )
    } else {
        None
    }
}

/// Sustained aggressive writes: score 50 + 8 per sample, at most 92.
pub open spec fn write_rule_spec(f: RuleFacts, cfg: AnomalyConfig) -> Option<AnomalyEventView> {
    let s = f.hist.aggressive_write_streak;
    if s >= cfg.aggressive_write_samples {
        Some(
            raise(
                f,
                "aggressive-disk-write"@,
                "Escritura agresiva en disco"@,
                capped(50 + s * 8, 92),
                f.p.name + " escribe "@ + f.p.io_write_text + " MB por intervalo en forma sostenida."@,
                "degradacion compatible con escritura masiva no autorizada o proceso de alto impacto en disco"@,
                "Revisar si corresponde a backup, actualizacion o cifrado no esperado; generar informe tecnico si persiste."@,
                seq![ev("disk-write"@, "Escritura"@, f.p.io_write_text + " MB"@)],
            ),
        )
    } else {
        None
    }
}

/// Many public destinations: score 56 + 4 per destination, at most 90.
pub open spec fn outbound_rule_spec(f: RuleFacts, cfg: AnomalyConfig) -> Option<AnomalyEventView> {
    let n = f.net.public_unique_destinations;
    if n >= cfg.public_destination_count {
        Some(
            raise(
                f,
                "multi-destination-outbound"@,
                "Conexiones salientes inusuales"@,
                capped(56 + n * 4, 90),
                f.p.name + " se conecta a "@ + int_text(n as int) + " destinos publicos en la misma ventana."@,
                "picos de red asociados a proceso fuera de linea base"@,
                "Validar origen del proceso, revisar destinos remotos y considerar bloqueo o escaneo externo si no corresponde."@,
                seq![ev("public-remotes"@, "Destinos publicos"@, int_text(n as int))],
            ),
        )
    } else {
        None
    }
}

/// The process runs from a path (or with a command line) with a suspicious keyword.
pub open spec fn suspicious_path_of(p: ProcessObservationView, cfg: AnomalyConfig) -> bool {
    path_is_suspicious_spec(lower(p.exe_path), p.command_line, strings_view(cfg.suspicious_path_keywords@))
}

/// Execution from a suspicious path: 78 under a temp or downloads folder, else 62.
pub open spec fn path_rule_spec(f: RuleFacts, cfg: AnomalyConfig) -> Option<AnomalyEventView> {
    let lp = lower(f.p.exe_path);
    if suspicious_path_of(f.p, cfg) {
        Some(
            raise(
                f,
                "suspicious-execution-path"@,
                "Ejecucion desde ruta sospechosa"@,
                if contains(lp, "\\temp\\"@) || contains(lp, "\\downloads\\"@) {
                    78
                } else {
                    62
                },
                f.p.name + " se ejecuta desde una ruta atipica: "@ + f.p.exe_path + "."@,
                "actividad potencialmente no autorizada asociada a ejecucion fuera de rutas confiables"@,
                "Revisar manualmente la ruta, validar el origen del binario y evitar ejecucion futura si no corresponde."@,
                seq![ev("path"@, "Ruta"@, f.p.exe_path)],
            ),
        )
    } else {
        None
    }
}

/// An untrusted process with relevant activity: score 60.
pub open spec fn untrusted_rule_spec(f: RuleFacts, cfg: AnomalyConfig) -> Option<AnomalyEventView> {
    let trusted = trusted_process_spec(
        f.p.name,
        lower(f.p.exe_path),
        strings_view(cfg.trusted_process_names@),
        strings_view(cfg.trusted_path_prefixes@),
    );
    let active = suspicious_path_of(f.p, cfg) || f.p.busy || f.net.public_unique_destinations > 0;
    if !trusted && active {
        Some(
            raise(
                f,
                "outside-trusted-baseline"@,
                "Proceso fuera de linea confiable"@,
                60,
                f.p.name + " no coincide con la linea base confiable local y presenta actividad relevante."@,
                "riesgo medio-alto por ejecucion no habitual con impacto operativo"@,
                "Revisar manualmente, contrastar con software autorizado y escanear con antivirus/EDR si hay dudas."@,
                seq![ev("path"@, "Ruta"@, f.p.exe_path)],
            ),
        )
    } else {
        None
    }
}

/// An interpreter launched by a document program or another interpreter: score 72.
pub open spec fn parent_rule_spec(f: RuleFacts, cfg: AnomalyConfig) -> Option<AnomalyEventView> {
    match f.parent {
        Some(pn) => if suspicious_parent_child_spec(
            pn,
            f.p.name,
            f.p.command_line,
            strings_view(cfg.suspicious_parent_names@),
        ) {
            Some(
                raise(
                    f,
                    "suspicious-parent-child"@,
                    "Relacion padre-hijo sospechosa"@,
                    72,
                    f.p.name + " fue lanzado por "@ + pn + "."@,
                    "actividad compatible con ejecucion encadenada fuera del patron normal"@,
                    "Revisar manualmente el proceso padre, command line y origen del archivo adjunto o launcher asociado."@,
                    seq![ev("parent"@, "Padre"@, pn), ev("child"@, "Hijo"@, f.p.name)],
                ),
            )
        } else {
            None
        },
        None => None,
    }
}

/// A process that keeps coming back: its respawn score, at most 92.
pub open spec fn respawn_rule_spec(f: RuleFacts, score: Option<u16>) -> Option<AnomalyEventView> {
    match score {
        Some(s) => Some(
            raise(
                f,
                "rapid-respawn"@,
                "Reaparicion rapida de proceso"@,
                capped(s as int, 92),
                f.p.name + " reaparecio repetidamente en una ventana corta."@,
                "degradacion compatible con proceso que se reinicia automaticamente o mecanismo de persistencia"@,
                "Revisar persistencia, servicio asociado y tareas programadas antes de finalizar el proceso."@,
                seq![ev("pid"@, "PID actual"@, int_text(f.p.pid as int))],
            ),
        ),
        None => None,
    }
}

/// A script invocation that keeps repeating: its score, at most 88.
pub open spec fn script_rule_spec(f: RuleFacts, score: Option<u16>) -> Option<AnomalyEventView> {
    match score {
        Some(s) => Some(
            raise(
                f,
                "repetitive-script-execution"@,
                "Ejecucion repetitiva de scripts o comandos"@,
                capped(s as int, 88),
                f.p.name + " repite una invocacion de script fuera del patron esperado."@,
                "actividad compatible con automatizacion agresiva, script abusivo o intento de persistencia"@,
                "Revisar command line, scheduler, carpeta Startup y origen del script antes de intervenir."@,
                command_line_evidence_spec(f.p),
            ),
        ),
        None => None,
    }
}

/// A command that alters local security controls.
pub open spec fn security_rule_spec(f: RuleFacts) -> Option<AnomalyEventView> {
    match security_control_spec(f.p.command_line) {
        Some(s) => Some(
            raise(
                f,
                "security-control-alteration"@,
                "Intento de alterar seguridad local"@,
                s,
                f.p.name + " ejecuta comandos compatibles con cambios sobre controles de seguridad."@,
                "alteracion compatible con desactivacion o debilitamiento de defensas locales"@,
                "Revisar urgentemente el comando, validar usuario/contexto y escanear el endpoint con herramientas dedicadas."@,
                command_line_evidence_spec(f.p),
            ),
        ),
        None => None,
    }
}

/// Many private destinations: score 52 + 3 per destination, at most 88.
pub open spec fn scan_rule_spec(f: RuleFacts, cfg: AnomalyConfig) -> Option<AnomalyEventView> {
    let n = f.net.private_unique_destinations;
    if n >= cfg.local_scan_destination_count {
        Some(
            raise(
                f,
                "local-network-scan"@,
                "Patron de exploracion agresiva en red local"@,
                capped(52 + n * 3, 88),
                f.p.name + " contacta "@ + int_text(n as int) + " destinos privados distintos en poco tiempo."@,
                "actividad compatible con propagacion basica o exploracion interna no habitual"@,
                "Validar si corresponde a software de inventario o administracion; si no, aislar red y revisar el host."@,
                seq![ev("private-remotes"@, "Destinos privados"@, int_text(n as int))],
            ),
        )
    } else {
        None
    }
}

/// An optional event as a sequence of zero or one events.
pub open spec fn opt_seq(o: Option<AnomalyEventView>) -> Seq<AnomalyEventView> {
    match o {
        Some(e) => seq![e],
        None => Seq::empty(),
    }
}

/// The view of an optional event.
pub open spec fn opt_event_view(o: Option<AnomalyEvent>) -> Option<AnomalyEventView> {
    match o {
        Some(e) => Some(e@),
        None => None,
    }
}

/// The facts of a process as the exec rules receive them.
pub open spec fn facts_of(
    process: ProcessObservation,
    at: Timestamp,
    parent: Option<&ProcessObservation>,
    net: ProcessNetworkSummary,
    hist: ProcessHistory,
) -> RuleFacts {
    RuleFacts { p: process@, at, parent: parent_name_of(parent), net, hist }
}

fn raise_event(
    process: &ProcessObservation,
    at: Timestamp,
    parent: Option<&ProcessObservation>,
    net: &ProcessNetworkSummary,
    hist: ProcessHistory,
    kind: &str,
    title: &str,
    score: u16,
    summary: String,
    hypothesis: &str,
    action: &str,
    evidence: Vec<IncidentEvidence>,
) -> (r: AnomalyEvent)
    ensures
        r@ == raise(
            facts_of(*process, at, parent, *net, hist),
            kind@,
            title@,
            score,
            summary@,
            hypothesis@,
            action@,
            evidence_view(evidence@),
        ),
{
    build_process_event(
        process,
        ProcessEventSpec {
            detected_at: at,
            kind,
            title,
            score,
            parent,
            summary,
            root_cause_hypothesis: owned(hypothesis),
            recommended_action: action,
            evidence,
            network: net,
        },
    )
}

fn one_item(a: IncidentEvidence) -> (r: Vec<IncidentEvidence>)
    ensures
        evidence_view(r@) == seq![a@],
{
    let mut v: Vec<IncidentEvidence> = Vec::new();
    let ghost av = a@;
    v.push(a);
    assert(evidence_view(v@) =~= seq![av]);
    v
}

fn two_items(a: IncidentEvidence, b: IncidentEvidence) -> (r: Vec<IncidentEvidence>)
    ensures
        evidence_view(r@) == seq![a@, b@],
{
    let mut v: Vec<IncidentEvidence> = Vec::new();
    let ghost av = a@;
    let ghost bv = b@;
    v.push(a);
    v.push(b);
    assert(evidence_view(v@) =~= seq![av, bv]);
    v
}

fn command_line_evidence(process: &ProcessObservation) -> (r: Vec<IncidentEvidence>)
    ensures
        evidence_view(r@) == command_line_evidence_spec(process@),
{
    match &process.command_line {
        Some(c) => one_item(metric_evidence("command-line", "Command line", c.clone())),
        None => {
            let v: Vec<IncidentEvidence> = Vec::new();
            assert(evidence_view(v@) =~= Seq::<IncidentEvidenceView>::empty());
            v
        },
    }
}

fn cap_score(x: u64, cap: u16) -> (r: u16)
    ensures
        r == capped(x as int, cap as int),
{
    if x > cap as u64 {
        cap
    } else {
        x as u16
    }
}

fn cpu_rule(
    process: &ProcessObservation,
    at: Timestamp,
    parent: Option<&ProcessObservation>,
    net: &ProcessNetworkSummary,
    hist: ProcessHistory,
    cfg: &AnomalyConfig,
) -> (r: Option<AnomalyEvent>)
    ensures
        opt_event_view(r) == cpu_rule_spec(facts_of(*process, at, parent, *net, hist), *cfg),
{
    let s = hist.high_cpu_streak;
    if s >= cfg.cpu_sustained_samples {
        let st = int_text_exec(s as i128);
        let summary = join_all(
            &[process.name.as_str(), " mantiene ", process.cpu_text.as_str(), "% de CPU durante ", st.as_str(), " muestras consecutivas."],
        );
        proof {
            reveal_with_fuel(concat_all, 7);
        }
        let evidence = two_items(
            metric_evidence("cpu", "CPU", concat2(process.cpu_text.as_str(), "%")),
            metric_evidence("samples", "Muestras sostenidas", int_text_exec(s as i128)),
        );
        let r = raise_event(
            process,
            at,
            parent,
            net,
            hist,
            "sustained-high-cpu",
            "CPU sostenido anormal",
            cap_score(42 + s as u64 * 8, 88),
            summary,
            "lentitud asociada a proceso no habitual con alto consumo sostenido",
            "Observar, validar command line y finalizar manualmente solo si el proceso no corresponde.",
            evidence,
        );
        assert(summary@ =~= process.name@ + " mantiene "@ + process.cpu_text@ + "% de CPU durante "@
            + int_text(s as int) + " muestras consecutivas."@);
        Some(r)
    } else {
        None
    }
}

fn memory_rule(
    process: &ProcessObservation,
    at: Timestamp,
    parent: Option<&ProcessObservation>,
    net: &ProcessNetworkSummary,
    hist: ProcessHistory,
    cfg: &AnomalyConfig,
) -> (r: Option<AnomalyEvent>)
    ensures
        opt_event_view(r) == memory_rule_spec(facts_of(*process, at, parent, *net, hist), *cfg),
{
    let s = hist.memory_growth_streak;
    if s >= cfg.memory_growth_samples {
        let summary = join_all(
            &[process.name.as_str(), " incrementa memoria hasta ", process.memory_text.as_str(), " MB con crecimiento repetido."],
        );
        proof {
            reveal_with_fuel(concat_all, 5);
        }
        let evidence = two_items(
            metric_evidence("memory", "Memoria", concat2(process.memory_text.as_str(), " MB")),
            metric_evidence("growth", "Crecimiento", concat2(process.memory_growth_text.as_str(), " MB")),
        );
        let r = raise_event(
            process,
            at,
            parent,
            net,
            hist,
            "memory-growth",
            "Crecimiento anomalo de memoria",
            cap_score(46 + s as u64 * 8, 86),
            summary,
            "degradacion compatible con proceso persistente o script abusivo con crecimiento de memoria",
            "Revisar manualmente el proceso, preservar evidencia y escalar escaneo si no pertenece a la carga normal.",
            evidence,
        );
        assert(summary@ =~= process.name@ + " incrementa memoria hasta "@ + process.memory_text@
            + " MB con crecimiento repetido."@);
        Some(r)
    } else {
        None
    }
}

fn write_rule(
    process: &ProcessObservation,
    at: Timestamp,
    parent: Option<&ProcessObservation>,
    net: &ProcessNetworkSummary,
    hist: ProcessHistory,
    cfg: &AnomalyConfig,
) -> (r: Option<AnomalyEvent>)
    ensures
        opt_event_view(r) == write_rule_spec(facts_of(*process, at, parent, *net, hist), *cfg),
{
    let s = hist.aggressive_write_streak;
    if s >= cfg.aggressive_write_samples {
        let summary = join_all(
            &[process.name.as_str(), " escribe ", process.io_write_text.as_str(), " MB por intervalo en forma sostenida."],
        );
        proof {
            reveal_with_fuel(concat_all, 5);
        }
        let evidence = one_item(
            metric_evidence("disk-write", "Escritura", concat2(process.io_write_text.as_str(), " MB")),
        );
        let r = raise_event(
            process,
            at,
            parent,
            net,
            hist,
            "aggressive-disk-write",
            "Escritura agresiva en disco",
            cap_score(50 + s as u64 * 8, 92),
            summary,
            "degradacion compatible con escritura masiva no autorizada o proceso de alto impacto en disco",
            "Revisar si corresponde a backup, actualizacion o cifrado no esperado; generar informe tecnico si persiste.",
            evidence,
        );
        assert(summary@ =~= process.name@ + " escribe "@ + process.io_write_text@
            + " MB por intervalo en forma sostenida."@);
        Some(r)
    } else {
        None
    }
}

fn cap_wide(x: u128, cap: u16) -> (r: u16)
    ensures
        r == capped(x as int, cap as int),
{
    if x > cap as u128 {
        cap
    } else {
        x as u16
    }
}

fn outbound_rule(
    process: &ProcessObservation,
    at: Timestamp,
    parent: Option<&ProcessObservation>,
    net: &ProcessNetworkSummary,
    hist: ProcessHistory,
    cfg: &AnomalyConfig,
) -> (r: Option<AnomalyEvent>)
    ensures
        opt_event_view(r) == outbound_rule_spec(facts_of(*process, at, parent, *net, hist), *cfg),
{
    let n = net.public_unique_destinations;
    if n >= cfg.public_destination_count {
        let nt = int_text_exec(n as i128);
        let summary = join_all(
            &[process.name.as_str(), " se conecta a ", nt.as_str(), " destinos publicos en la misma ventana."],
        );
        proof {
            reveal_with_fuel(concat_all, 5);
        }
        let evidence = one_item(
            metric_evidence("public-remotes", "Destinos publicos", int_text_exec(n as i128)),
        );
        let r = raise_event(
            process,
            at,
            parent,
            net,
            hist,
            "multi-destination-outbound",
            "Conexiones salientes inusuales",
            cap_wide(56 + n as u128 * 4, 90),
            summary,
            "picos de red asociados a proceso fuera de linea base",
            "Validar origen del proceso, revisar destinos remotos y considerar bloqueo o escaneo externo si no corresponde.",
            evidence,
        );
        assert(summary@ =~= process.name@ + " se conecta a "@ + int_text(n as int)
            + " destinos publicos en la misma ventana."@);
        Some(r)
    } else {
        None
    }
}

fn path_rule(
    process: &ProcessObservation,
    at: Timestamp,
    parent: Option<&ProcessObservation>,
    net: &ProcessNetworkSummary,
    hist: ProcessHistory,
    cfg: &AnomalyConfig,
    lower_path: &str,
    suspicious: bool,
) -> (r: Option<AnomalyEvent>)
    requires
        lower_path@ == lower(process.exe_path@),
        suspicious == suspicious_path_of(process@, *cfg),
    ensures
        opt_event_view(r) == path_rule_spec(facts_of(*process, at, parent, *net, hist), *cfg),
{
    if suspicious {
        let score: u16 = if contains_str(lower_path, "\\temp\\") || contains_str(lower_path, "\\downloads\\") {
            78
        } else {
            62
        };
        let summary = join_all(
            &[process.name.as_str(), " se ejecuta desde una ruta atipica: ", process.exe_path.as_str(), "."],
        );
        proof {
            reveal_with_fuel(concat_all, 5);
        }
        let evidence = one_item(metric_evidence("path", "Ruta", process.exe_path.clone()));
        let r = raise_event(
            process,
            at,
            parent,
            net,
            hist,
            "suspicious-execution-path",
            "Ejecucion desde ruta sospechosa",
            score,
            summary,
            "actividad potencialmente no autorizada asociada a ejecucion fuera de rutas confiables",
            "Revisar manualmente la ruta, validar el origen del binario y evitar ejecucion futura si no corresponde.",
            evidence,
        );
        assert(summary@ =~= process.name@ + " se ejecuta desde una ruta atipica: "@ + process.exe_path@ + "."@);
        Some(r)
    } else {
        None
    }
}

fn untrusted_rule(
    process: &ProcessObservation,
    at: Timestamp,
    parent: Option<&ProcessObservation>,
    net: &ProcessNetworkSummary,
    hist: ProcessHistory,
    cfg: &AnomalyConfig,
    lower_path: &str,
    suspicious: bool,
) -> (r: Option<AnomalyEvent>)
    requires
        lower_path@ == lower(process.exe_path@),
        suspicious == suspicious_path_of(process@, *cfg),
    ensures
        opt_event_view(r) == untrusted_rule_spec(facts_of(*process, at, parent, *net, hist), *cfg),
{
    if !is_trusted_process(process.name.as_str(), lower_path, cfg) && (suspicious || process.busy
        || net.public_unique_destinations > 0) {
        let summary = concat2(
            process.name.as_str(),
            " no coincide con la linea base confiable local y presenta actividad relevante.",
        );
        let evidence = one_item(metric_evidence("path", "Ruta", process.exe_path.clone()));
        let r = raise_event(
            process,
            at,
            parent,
            net,
            hist,
            "outside-trusted-baseline",
            "Proceso fuera de linea confiable",
            60,
            summary,
            "riesgo medio-alto por ejecucion no habitual con impacto operativo",
            "Revisar manualmente, contrastar con software autorizado y escanear con antivirus/EDR si hay dudas.",
            evidence,
        );
        Some(r)
    } else {
        None
    }
}

fn parent_rule(
    process: &ProcessObservation,
    at: Timestamp,
    parent: Option<&ProcessObservation>,
    net: &ProcessNetworkSummary,
    hist: ProcessHistory,
    cfg: &AnomalyConfig,
) -> (r: Option<AnomalyEvent>)
    ensures
        opt_event_view(r) == parent_rule_spec(facts_of(*process, at, parent, *net, hist), *cfg),
{
    match parent {
        Some(pp) => {
            let cmd: Option<&str> = match &process.command_line {
                Some(c) => Some(c.as_str()),
                None => None,
            };
            if suspicious_parent_child(pp.name.as_str(), process.name.as_str(), cmd, cfg) {
                let summary = join_all(&[process.name.as_str(), " fue lanzado por ", pp.name.as_str(), "."]);
                proof {
                    reveal_with_fuel(concat_all, 5);
                }
                let evidence = two_items(
                    metric_evidence("parent", "Padre", pp.name.clone()),
                    metric_evidence("child", "Hijo", process.name.clone()),
                );
                let r = raise_event(
                    process,
                    at,
                    parent,
                    net,
                    hist,
                    "suspicious-parent-child",
                    "Relacion padre-hijo sospechosa",
                    72,
                    summary,
                    "actividad compatible con ejecucion encadenada fuera del patron normal",
                    "Revisar manualmente el proceso padre, command line y origen del archivo adjunto o launcher asociado.",
                    evidence,
                );
                assert(summary@ =~= process.name@ + " fue lanzado por "@ + pp.name@ + "."@);
                Some(r)
            } else {
                None
            }
        },
        None => None,
    }
}

fn respawn_rule(
    process: &ProcessObservation,
    at: Timestamp,
    parent: Option<&ProcessObservation>,
    net: &ProcessNetworkSummary,
    hist: ProcessHistory,
    score: Option<u16>,
) -> (r: Option<AnomalyEvent>)
    ensures
        opt_event_view(r) == respawn_rule_spec(facts_of(*process, at, parent, *net, hist), score),
{
    match score {
        Some(s) => {
            let summary = concat2(process.name.as_str(), " reaparecio repetidamente en una ventana corta.");
            let evidence = one_item(metric_evidence("pid", "PID actual", int_text_exec(process.pid as i128)));
            let r = raise_event(
                process,
                at,
                parent,
                net,
                hist,
                "rapid-respawn",
                "Reaparicion rapida de proceso",
                cap_wide(s as u128, 92),
                summary,
                "degradacion compatible con proceso que se reinicia automaticamente o mecanismo de persistencia",
                "Revisar persistencia, servicio asociado y tareas programadas antes de finalizar el proceso.",
                evidence,
            );
            Some(r)
        },
        None => None,
    }
}

fn script_rule(
    process: &ProcessObservation,
    at: Timestamp,
    parent: Option<&ProcessObservation>,
    net: &ProcessNetworkSummary,
    hist: ProcessHistory,
    score: Option<u16>,
) -> (r: Option<AnomalyEvent>)
    ensures
        opt_event_view(r) == script_rule_spec(facts_of(*process, at, parent, *net, hist), score),
{
    match score {
        Some(s) => {
            let summary = concat2(process.name.as_str(), " repite una invocacion de script fuera del patron esperado.");
            let r = raise_event(
                process,
                at,
                parent,
                net,
                hist,
                "repetitive-script-execution",
                "Ejecucion repetitiva de scripts o comandos",
                cap_wide(s as u128, 88),
                summary,
                "actividad compatible con automatizacion agresiva, script abusivo o intento de persistencia",
                "Revisar command line, scheduler, carpeta Startup y origen del script antes de intervenir.",
                command_line_evidence(process),
            );
            Some(r)
        },
        None => None,
    }
}

fn security_rule(
    process: &ProcessObservation,
    at: Timestamp,
    parent: Option<&ProcessObservation>,
    net: &ProcessNetworkSummary,
    hist: ProcessHistory,
) -> (r: Option<AnomalyEvent>)
    ensures
        opt_event_view(r) == security_rule_spec(facts_of(*process, at, parent, *net, hist)),
{
    match security_control_score(&process.command_line) {
        Some(s) => {
            let summary = concat2(
                process.name.as_str(),
                " ejecuta comandos compatibles con cambios sobre controles de seguridad.",
            );
            let r = raise_event(
                process,
                at,
                parent,
                net,
                hist,
                "security-control-alteration",
                "Intento de alterar seguridad local",
                s,
                summary,
                "alteracion compatible con desactivacion o debilitamiento de defensas locales",
                "Revisar urgentemente el comando, validar usuario/contexto y escanear el endpoint con herramientas dedicadas.",
                command_line_evidence(process),
            );
            Some(r)
        },
        None => None,
    }
}

fn scan_rule(
    process: &ProcessObservation,
    at: Timestamp,
    parent: Option<&ProcessObservation>,
    net: &ProcessNetworkSummary,
    hist: ProcessHistory,
    cfg: &AnomalyConfig,
) -> (r: Option<AnomalyEvent>)
    ensures
        opt_event_view(r) == scan_rule_spec(facts_of(*process, at, parent, *net, hist), *cfg),
{
    let n = net.private_unique_destinations;
    if n >= cfg.local_scan_destination_count {
        let nt = int_text_exec(n as i128);
        let summary = join_all(
            &[process.name.as_str(), " contacta ", nt.as_str(), " destinos privados distintos en poco tiempo."],
        );
        proof {
            reveal_with_fuel(concat_all, 5);
        }
        let evidence = one_item(
            metric_evidence("private-remotes", "Destinos privados", int_text_exec(n as i128)),
        );
        let r = raise_event(
            process,
            at,
            parent,
            net,
            hist,
            "local-network-scan",
            "Patron de exploracion agresiva en red local",
            cap_wide(52 + n as u128 * 3, 88),
            summary,
            "actividad compatible con propagacion basica o exploracion interna no habitual",
            "Validar si corresponde a software de inventario o administracion; si no, aislar red y revisar el host.",
            evidence,
        );
        assert(summary@ =~= process.name@ + " contacta "@ + int_text(n as int)
            + " destinos privados distintos en poco tiempo."@);
        Some(r)
    } else {
        None
    }
}

// ---------------------------------------------------------------------------
// Analysis of a snapshot
// ---------------------------------------------------------------------------

/// Name of the last process of the snapshot with the given PID.
pub open spec fn name_of_pid(ps: Seq<ProcessObservationView>, pid: u32) -> Option<Seq<char>>
    decreases ps.len(),
{
    if ps.len() == 0 {
        None
    } else if ps.last().pid == pid {
        Some(ps.last().name)
    } else {
        name_of_pid(ps.drop_last(), pid)
    }
}

/// Name of the parent of a process, when the parent is in the snapshot.
pub open spec fn parent_of(ps: Seq<ProcessObservationView>, p: ProcessObservationView) -> Option<Seq<char>> {
    match p.parent_pid {
        Some(pp) => name_of_pid(ps, pp),
        None => None,
    }
}

/// The destinations of a PID (none when it has no connection).
pub open spec fn net_of(net: Map<u32, ProcessNetworkSummary>, pid: u32) -> ProcessNetworkSummary {
    if net.contains_key(pid) {
        net[pid]
    } else {
        ProcessNetworkSummary { public_unique_destinations: 0, private_unique_destinations: 0 }
    }
}

/// The events raised for one process, given the tracker as it was before the
/// process was counted, in rule order.
pub open spec fn process_events(
    t: TrackerView,
    p: ProcessObservationView,
    ps: Seq<ProcessObservationView>,
    at: Timestamp,
    net: Map<u32, ProcessNetworkSummary>,
    cfg: AnomalyConfig,
) -> Seq<AnomalyEventView> {
    let f = RuleFacts {
        p,
        at,
        parent: parent_of(ps, p),
        net: net_of(net, p.pid),
        hist: history_after(lookup(t.processes, p.pid), p),
    };
    let w = cfg.respawn_window_secs;
    rules_spec(
        f,
        cfg,
        respawn_score(t.respawns, p, at, w, cfg.respawn_count),
        script_score(t.scripts, p, at, w, cfg.repetitive_script_count),
    )
}

/// The events of the rules that read the measurements and the path.
pub open spec fn early_rules(f: RuleFacts, cfg: AnomalyConfig) -> Seq<AnomalyEventView> {
    opt_seq(cpu_rule_spec(f, cfg)) + opt_seq(memory_rule_spec(f, cfg)) + opt_seq(write_rule_spec(f, cfg))
        + opt_seq(outbound_rule_spec(f, cfg)) + opt_seq(path_rule_spec(f, cfg)) + opt_seq(
        untrusted_rule_spec(f, cfg),
    )
}

/// The events of the rules that read the parent, the history and the command line.
pub open spec fn late_rules(f: RuleFacts, cfg: AnomalyConfig, respawn: Option<u16>, script: Option<u16>) -> Seq<
    AnomalyEventView,
> {
    opt_seq(parent_rule_spec(f, cfg)) + opt_seq(respawn_rule_spec(f, respawn)) + opt_seq(
        script_rule_spec(f, script),
    ) + opt_seq(security_rule_spec(f)) + opt_seq(scan_rule_spec(f, cfg))
}

/// The events of all rules for one process, in rule order.
pub open spec fn rules_spec(f: RuleFacts, cfg: AnomalyConfig, respawn: Option<u16>, script: Option<u16>) -> Seq<
    AnomalyEventView,
> {
    early_rules(f, cfg) + late_rules(f, cfg, respawn, script)
}

/// The tracker once one process is counted.
pub open spec fn tracker_after(t: TrackerView, p: ProcessObservationView, at: Timestamp, cfg: AnomalyConfig) -> TrackerView {
    let w = cfg.respawn_window_secs;
    TrackerView {
        processes: upsert(t.processes, p.pid, history_after(lookup(t.processes, p.pid), p)),
        respawns: respawns_after(t.respawns, p, at, w),
        scripts: scripts_after(t.scripts, p, at, w),
    }
}

/// Counts the processes `qs` in order: the tracker after them and their events.
pub open spec fn scan_processes(
    t: TrackerView,
    qs: Seq<ProcessObservationView>,
    ps: Seq<ProcessObservationView>,
    at: Timestamp,
    net: Map<u32, ProcessNetworkSummary>,
    cfg: AnomalyConfig,
) -> (TrackerView, Seq<AnomalyEventView>)
    decreases qs.len(),
{
    if qs.len() == 0 {
        (t, Seq::empty())
    } else {
        let prev = scan_processes(t, qs.drop_last(), ps, at, net, cfg);
        (
            tracker_after(prev.0, qs.last(), at, cfg),
            prev.1 + process_events(prev.0, qs.last(), ps, at, net, cfg),
        )
    }
}

/// The events of the suspicious autostart entries, in order.
pub open spec fn persistence_events(at: Timestamp, es: Seq<PersistenceEntryView>, cfg: AnomalyConfig) -> Seq<
    AnomalyEventView,
>
    decreases es.len(),
{
    if es.len() == 0 {
        Seq::empty()
    } else {
        persistence_events(at, es.drop_last(), cfg) + opt_seq(
            persistence_event_spec(
                at,
                es.last(),
                strings_view(cfg.suspicious_path_keywords@),
                strings_view(cfg.trusted_path_prefixes@),
            ),
        )
    }
}

/// The events of the security services found stopped, in order.
pub open spec fn service_events(at: Timestamp, ss: Seq<ServiceStateView>, cfg: AnomalyConfig) -> Seq<
    AnomalyEventView,
>
    decreases ss.len(),
{
    if ss.len() == 0 {
        Seq::empty()
    } else {
        service_events(at, ss.drop_last(), cfg) + opt_seq(
            security_service_event_spec(at, ss.last(), strings_view(cfg.security_service_names@)),
        )
    }
}

/// Order of the reported events: higher severity first, then higher score,
/// then kind in lexicographic order.
pub open spec fn event_less(a: AnomalyEventView, b: AnomalyEventView) -> bool {
    risk_rank(a.severity) > risk_rank(b.severity) || (risk_rank(a.severity) == risk_rank(b.severity) && (
    a.score > b.score || (a.score == b.score && lex_lt(a.kind, b.kind))))
}

/// The tracker and the events after analysing one snapshot.
pub open spec fn analysis_spec(
    t: TrackerView,
    at: Timestamp,
    ps: Seq<ProcessObservationView>,
    cs: Seq<ConnectionInsightView>,
    ss: Seq<ServiceStateView>,
    pe: Seq<PersistenceEntryView>,
    cfg: AnomalyConfig,
) -> (TrackerView, Seq<AnomalyEventView>) {
    if !cfg.enabled {
        (t, Seq::empty())
    } else {
        let scanned = scan_processes(t, ps, ps, at, network_summary_spec(cs), cfg);
        let base = scanned.1 + (if cfg.watch_persistence {
            persistence_events(at, pe, cfg)
        } else {
            Seq::empty()
        }) + service_events(at, ss, cfg);
        let all = base + correlate_spec(at, base);
        let w = cfg.respawn_window_secs;
        (
            TrackerView {
                processes: keep(scanned.0.processes, |e: (u32, ProcessHistory)| observed_pid(ps, e.0)),
                respawns: keep(
                    scanned.0.respawns,
                    |e: (Seq<char>, RespawnState)| within_window(at, e.1.last_seen, w),
                ),
                scripts: keep(
                    scanned.0.scripts,
                    |e: (Seq<char>, ScriptState)| within_window(at, e.1.last_seen, w),
                ),
            },
            stable_sort(all, |a: AnomalyEventView, b: AnomalyEventView| event_less(a, b)),
        )
    }
}

/// One snapshot as the analysis reads it.
pub struct DetectionInput<'a> {
    pub collected_at: Timestamp,
    pub processes: &'a [ProcessObservation],
    pub connections: &'a [ConnectionInsight],
    pub services: &'a [ServiceState],
    pub persistence_entries: &'a [PersistenceEntry],
    pub config: &'a AnomalyConfig,
}

fn find_last_pid(ps: &[ProcessObservation], pid: u32) -> (r: Option<&ProcessObservation>)
    ensures
        parent_name_of(r) == name_of_pid(observations_view(ps@), pid),
{
    let ghost v = observations_view(ps@);
    let mut found: Option<usize> = None;
    let mut i: usize = 0;
    while i < ps.len()
        invariant
            i <= ps@.len(),
            v == observations_view(ps@),
            v.len() == ps@.len(),
            match found {
                Some(k) => k < i && name_of_pid(v.subrange(0, i as int), pid) == Some(v[k as int].name),
                None => name_of_pid(v.subrange(0, i as int), pid) is None,
            },
        decreases ps.len() - i,
    {
        proof {
            let pre = v.subrange(0, i + 1);
            assert(pre.drop_last() =~= v.subrange(0, i as int));
            assert(pre.last() == v[i as int]);
        }
        if ps[i].pid == pid {
            found = Some(i);
        }
        i = i + 1;
    }
    assert(v.subrange(0, v.len() as int) =~= v);
    match found {
        Some(k) => Some(&ps[k]),
        None => None,
    }
}

fn push_opt(out: &mut Vec<AnomalyEvent>, e: Option<AnomalyEvent>)
    ensures
        events_view(final(out)@) == events_view(old(out)@) + opt_seq(opt_event_view(e)),
{
    let ghost before = events_view(out@);
    match e {
        Some(x) => {
            let ghost xv = x@;
            out.push(x);
            assert(events_view(out@) =~= before + seq![xv]);
        },
        None => {
            assert(events_view(out@) =~= before + Seq::<AnomalyEventView>::empty());
        },
    }
}

fn event_less_exec(a: &AnomalyEvent, b: &AnomalyEvent) -> (r: bool)
    ensures
        r == event_less(a@, b@),
{
    let ra = a.severity.rank();
    let rb = b.severity.rank();
    if ra != rb {
        return ra > rb;
    }
    if a.score != b.score {
        return a.score > b.score;
    }
    let ka = chars_of(a.kind.as_str());
    let kb = chars_of(b.kind.as_str());
    lex_lt_vec(&ka, &kb)
}

/// Inserts `x` into `out` after every event it does not precede.
fn insert_event(out: &mut Vec<AnomalyEvent>, x: AnomalyEvent)
    ensures
        events_view(final(out)@) == stable_insert(
            events_view(old(out)@),
            x@,
            |a: AnomalyEventView, b: AnomalyEventView| event_less(a, b),
        ),
{
    let ghost less = |a: AnomalyEventView, b: AnomalyEventView| event_less(a, b);
    let ghost s = events_view(out@);
    let mut p: usize = 0;
    while p < out.len() && !event_less_exec(&x, &out[p])
        invariant
            p <= out.len(),
            less == (|a: AnomalyEventView, b: AnomalyEventView| event_less(a, b)),
            s == events_view(out@),
            s.len() == out@.len(),
            insert_pos(s, x@, less, 0) == insert_pos(s, x@, less, p as int),
        decreases out.len() - p,
    {
        proof {
            assert(s[p as int] == out@[p as int]@);
            assert(!less(x@, s[p as int]));
        }
        p = p + 1;
    }
    proof {
        if p < out.len() {
            assert(s[p as int] == out@[p as int]@);
        }
        assert(insert_pos(s, x@, less, p as int) == p as int);
    }
    let ghost xv = x@;
    out.insert(p, x);
    proof {
        assert(events_view(out@) =~= s.insert(p as int, xv));
    }
}

/// Sorts events by `event_less`, keeping the order of equal events.
pub(crate) fn sort_events(events: Vec<AnomalyEvent>) -> (r: Vec<AnomalyEvent>)
    ensures
        events_view(r@) == stable_sort(
            events_view(events@),
            |a: AnomalyEventView, b: AnomalyEventView| event_less(a, b),
        ),
{
    let ghost less = |a: AnomalyEventView, b: AnomalyEventView| event_less(a, b);
    let ghost unsorted = events_view(events@);
    let ghost n = events@.len();
    let mut rows = events;
    assert(rows@.len() == rows.len());
    let mut out: Vec<AnomalyEvent> = Vec::new();
    let mut k: usize = 0;
    while rows.len() > 0
        invariant
            k + rows@.len() == n,
            n <= usize::MAX,
            less == (|a: AnomalyEventView, b: AnomalyEventView| event_less(a, b)),
            n == unsorted.len(),
            events_view(rows@) == unsorted.subrange(k as int, n as int),
            events_view(out@) == stable_sort(unsorted.subrange(0, k as int), less),
        decreases rows.len(),
    {
        let ghost before = rows@;
        let x = rows.remove(0);
        proof {
            assert(events_view(before)[0] == unsorted[k as int]);
            lemma_stable_sort_step(unsorted, k as int, less);
            assert forall|j: int| 0 <= j < rows@.len() implies #[trigger] events_view(rows@)[j]
                == unsorted.subrange(k + 1, n as int)[j] by {
                assert(rows@[j] == before[j + 1]);
                assert(events_view(before)[j + 1] == unsorted.subrange(k as int, n as int)[j + 1]);
            }
            assert(events_view(rows@) =~= unsorted.subrange(k + 1, n as int));
        }
        insert_event(&mut out, x);
        k = k + 1;
    }
    assert(unsorted.subrange(0, n as int) =~= unsorted);
    out
}

fn early_events(
    p: &ProcessObservation,
    at: Timestamp,
    parent: Option<&ProcessObservation>,
    netp: &ProcessNetworkSummary,
    hist: ProcessHistory,
    cfg: &AnomalyConfig,
) -> (r: Vec<AnomalyEvent>)
    ensures
        events_view(r@) == early_rules(facts_of(*p, at, parent, *netp, hist), *cfg),
{
    let lower_path = to_lower(p.exe_path.as_str());
    let suspicious = path_is_suspicious(lower_path.as_str(), &p.command_line, cfg);
    let mut events: Vec<AnomalyEvent> = Vec::new();
    assert(events_view(events@) =~= Seq::<AnomalyEventView>::empty());
    push_opt(&mut events, cpu_rule(p, at, parent, netp, hist, cfg));
    push_opt(&mut events, memory_rule(p, at, parent, netp, hist, cfg));
    push_opt(&mut events, write_rule(p, at, parent, netp, hist, cfg));
    push_opt(&mut events, outbound_rule(p, at, parent, netp, hist, cfg));
    push_opt(&mut events, path_rule(p, at, parent, netp, hist, cfg, lower_path.as_str(), suspicious));
    push_opt(&mut events, untrusted_rule(p, at, parent, netp, hist, cfg, lower_path.as_str(), suspicious));
    events
}

fn late_events(
    p: &ProcessObservation,
    at: Timestamp,
    parent: Option<&ProcessObservation>,
    netp: &ProcessNetworkSummary,
    hist: ProcessHistory,
    cfg: &AnomalyConfig,
    respawn: Option<u16>,
    script: Option<u16>,
) -> (r: Vec<AnomalyEvent>)
    ensures
        events_view(r@) == late_rules(facts_of(*p, at, parent, *netp, hist), *cfg, respawn, script),
{
    let mut events: Vec<AnomalyEvent> = Vec::new();
    assert(events_view(events@) =~= Seq::<AnomalyEventView>::empty());
    push_opt(&mut events, parent_rule(p, at, parent, netp, hist, cfg));
    push_opt(&mut events, respawn_rule(p, at, parent, netp, hist, respawn));
    push_opt(&mut events, script_rule(p, at, parent, netp, hist, script));
    push_opt(&mut events, security_rule(p, at, parent, netp, hist));
    push_opt(&mut events, scan_rule(p, at, parent, netp, hist, cfg));
    events
}

fn append_events(out: &mut Vec<AnomalyEvent>, more: Vec<AnomalyEvent>)
    ensures
        events_view(final(out)@) == events_view(old(out)@) + events_view(more@),
{
    let ghost a = events_view(out@);
    let ghost b = events_view(more@);
    let mut more = more;
    out.append(&mut more);
    assert(events_view(out@) =~= a + b);
}

impl AnomalyTracker {
    /// Counts process `i` of the snapshot and appends its events.
    fn process_step(
        &mut self,
        processes: &[ProcessObservation],
        i: usize,
        at: Timestamp,
        net: &std::collections::HashMap<u32, ProcessNetworkSummary>,
        cfg: &AnomalyConfig,
        events: &mut Vec<AnomalyEvent>,
    )
        requires
            old(self).wf(),
            i < processes@.len(),
        ensures
            final(self).wf(),
            final(self)@ == tracker_after(old(self)@, processes@[i as int]@, at, *cfg),
            events_view(final(events)@) == events_view(old(events)@) + process_events(
                old(self)@,
                processes@[i as int]@,
                observations_view(processes@),
                at,
                net@,
                *cfg,
            ),
    {
        let p = &processes[i];
        let ghost tb = self@;
        let hist = self.record_process(p);
        let netp: ProcessNetworkSummary = match net.get(&p.pid) {
            Some(n) => *n,
            None => ProcessNetworkSummary { public_unique_destinations: 0, private_unique_destinations: 0 },
        };
        let parent: Option<&ProcessObservation> = match p.parent_pid {
            Some(pp) => find_last_pid(processes, pp),
            None => None,
        };
        let respawn = self.detect_respawn(p, at, cfg.respawn_window_secs, cfg.respawn_count);
        let script = self.detect_repetitive_script(p, at, cfg.respawn_window_secs, cfg.repetitive_script_count);
        let ghost f = RuleFacts {
            p: p@,
            at,
            parent: parent_of(observations_view(processes@), p@),
            net: net_of(net@, p.pid),
            hist: history_after(lookup(tb.processes, p.pid), p@),
        };
        assert(facts_of(*p, at, parent, netp, hist) == f);
        let early = early_events(p, at, parent, &netp, hist, cfg);
        let late = late_events(p, at, parent, &netp, hist, cfg, respawn, script);
        append_events(events, early);
        append_events(events, late);
        proof {
            assert(self@ == tracker_after(tb, p@, at, *cfg));
        }
    }

    /// Analyses one snapshot: runs the rules over every process, adds the
    /// autostart and security-service findings and the correlations, sorts
    /// the events, and forgets the state that went stale.
    pub fn analyze(&mut self, input: DetectionInput<'_>) -> (r: Vec<AnomalyEvent>)
        requires
            old(self).wf(),
            input.config.enabled ==> window_ok(input.config.respawn_window_secs),
        ensures
            final(self).wf(),
            final(self)@ == analysis_spec(
                old(self)@,
                input.collected_at,
                observations_view(input.processes@),
                input.connections@.map_values(|c: ConnectionInsight| c@),
                input.services@.map_values(|s: ServiceState| s@),
                input.persistence_entries@.map_values(|e: PersistenceEntry| e@),
                *input.config,
            ).0,
            events_view(r@) == analysis_spec(
                old(self)@,
                input.collected_at,
                observations_view(input.processes@),
                input.connections@.map_values(|c: ConnectionInsight| c@),
                input.services@.map_values(|s: ServiceState| s@),
                input.persistence_entries@.map_values(|e: PersistenceEntry| e@),
                *input.config,
            ).1,
    {
        let cfg = input.config;
        let at = input.collected_at;
        if !cfg.enabled {
            let none: Vec<AnomalyEvent> = Vec::new();
            assert(events_view(none@) =~= Seq::<AnomalyEventView>::empty());
            return none;
        }
        let ghost t0 = self@;
        let ghost ps = observations_view(input.processes@);
        let ghost netv = network_summary_spec(input.connections@.map_values(|c: ConnectionInsight| c@));
        let net = summarize_network(input.connections);
        let w = cfg.respawn_window_secs;
        let mut events: Vec<AnomalyEvent> = Vec::new();
        assert(events_view(events@) =~= Seq::<AnomalyEventView>::empty());
        let mut i: usize = 0;
        while i < input.processes.len()
            invariant
                i <= input.processes@.len(),
                self.wf(),
                ps == observations_view(input.processes@),
                ps.len() == input.processes@.len(),
                net@ == netv,
                w == cfg.respawn_window_secs,
                cfg == input.config,
                at == input.collected_at,
                self@ == scan_processes(t0, ps.subrange(0, i as int), ps, at, netv, *cfg).0,
                events_view(events@) == scan_processes(t0, ps.subrange(0, i as int), ps, at, netv, *cfg).1,
            decreases input.processes.len() - i,
        {
            proof {
                let pre = ps.subrange(0, i + 1);
                assert(pre.drop_last() =~= ps.subrange(0, i as int));
                assert(pre.last() == input.processes@[i as int]@);
            }
            self.process_step(input.processes, i, at, &net, cfg, &mut events);
            i = i + 1;
        }
        assert(ps.subrange(0, ps.len() as int) =~= ps);
        let ghost scanned = events_view(events@);
        if cfg.watch_persistence {
            let ghost pe = input.persistence_entries@.map_values(|e: PersistenceEntry| e@);
            let mut j: usize = 0;
            while j < input.persistence_entries.len()
                invariant
                    j <= input.persistence_entries@.len(),
                    pe == input.persistence_entries@.map_values(|e: PersistenceEntry| e@),
                    pe.len() == input.persistence_entries@.len(),
                    cfg == input.config,
                    at == input.collected_at,
                    events_view(events@) == scanned + persistence_events(at, pe.subrange(0, j as int), *cfg),
                decreases input.persistence_entries.len() - j,
            {
                proof {
                    let pre = pe.subrange(0, j + 1);
                    assert(pre.drop_last() =~= pe.subrange(0, j as int));
                    assert(pre.last() == input.persistence_entries@[j as int]@);
                }
                let ev = persistence_event(at, &input.persistence_entries[j], cfg);
                let ghost b = events_view(events@);
                push_opt(&mut events, ev);
                assert(events_view(events@) =~= scanned + persistence_events(at, pe.subrange(0, j + 1), *cfg));
                j = j + 1;
            }
            assert(pe.subrange(0, pe.len() as int) =~= pe);
        } else {
            assert(events_view(events@) =~= scanned + Seq::<AnomalyEventView>::empty());
        }
        let ghost with_persistence = events_view(events@);
        let ghost sv = input.services@.map_values(|s: ServiceState| s@);
        let mut k: usize = 0;
        while k < input.services.len()
            invariant
                k <= input.services@.len(),
                sv == input.services@.map_values(|s: ServiceState| s@),
                sv.len() == input.services@.len(),
                cfg == input.config,
                at == input.collected_at,
                events_view(events@) == with_persistence + service_events(at, sv.subrange(0, k as int), *cfg),
            decreases input.services.len() - k,
        {
            proof {
                let pre = sv.subrange(0, k + 1);
                assert(pre.drop_last() =~= sv.subrange(0, k as int));
                assert(pre.last() == input.services@[k as int]@);
            }
            let ev = security_service_event(at, &input.services[k], cfg);
            push_opt(&mut events, ev);
            assert(events_view(events@) =~= with_persistence + service_events(at, sv.subrange(0, k + 1), *cfg));
            k = k + 1;
        }
        assert(sv.subrange(0, sv.len() as int) =~= sv);
        let ghost base = events_view(events@);
        let mut correlated = correlate_anomalies(at, events.as_slice());
        let ghost cv = events_view(correlated@);
        events.append(&mut correlated);
        assert(events_view(events@) =~= base + cv);
        let sorted = sort_events(events);
        self.retain_observed(input.processes);
        self.forget_stale(at, w);
        sorted
    }
}


// ---------------------------------------------------------------------------
// Laws
// ---------------------------------------------------------------------------

/// The order of reported events is a strict order.
pub proof fn lemma_event_order_is_strict()
    ensures
        strict_order(|a: AnomalyEventView, b: AnomalyEventView| event_less(a, b)),
{
    let less = |a: AnomalyEventView, b: AnomalyEventView| event_less(a, b);
    assert forall|a: AnomalyEventView, b: AnomalyEventView| #[trigger] less(a, b) implies !less(b, a) by {
        lemma_lex_lt_asym(a.kind, b.kind);
    }
    assert forall|a: AnomalyEventView, b: AnomalyEventView, c: AnomalyEventView|
        #[trigger] less(a, b) && #[trigger] less(b, c) implies less(a, c) by {
        if lex_lt(a.kind, b.kind) && lex_lt(b.kind, c.kind) {
            lemma_lex_lt_trans(a.kind, b.kind, c.kind);
        }
    }
}

/// The events of an analysis come ordered: no event is reported after one
/// that it precedes by severity, then score, then kind.
pub proof fn lemma_analysis_events_ordered(
    t: TrackerView,
    at: Timestamp,
    ps: Seq<ProcessObservationView>,
    cs: Seq<ConnectionInsightView>,
    ss: Seq<ServiceStateView>,
    pe: Seq<PersistenceEntryView>,
    cfg: AnomalyConfig,
)
    ensures
        sorted_by(
            analysis_spec(t, at, ps, cs, ss, pe, cfg).1,
            |a: AnomalyEventView, b: AnomalyEventView| event_less(a, b),
        ),
{
    lemma_event_order_is_strict();
    if cfg.enabled {
        let scanned = scan_processes(t, ps, ps, at, network_summary_spec(cs), cfg);
        let base = scanned.1 + (if cfg.watch_persistence {
            persistence_events(at, pe, cfg)
        } else {
            Seq::empty()
        }) + service_events(at, ss, cfg);
        let all = base + correlate_spec(at, base);
        lemma_stable_sort_sorted(all, |a: AnomalyEventView, b: AnomalyEventView| event_less(a, b));
    }
}

} // verus!
