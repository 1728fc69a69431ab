//! Classification of processes, the alert list of a snapshot and the incident
//! derived from it, kept apart from the collectors so that prioritising and
//! assembling incidents does not mix with gathering data.
//!
//! Measurements arrive already compared with their thresholds (a
//! [`Pressure`]) and rendered as text, since the comparisons and the
//! rendering of the floating-point values happen where they are measured.

use crate::anomaly::{dedupe, dedupe_spec, events_view, lemma_dedupe_keeps_each_item_once};
use crate::etl::take;
use crate::inspection::alerts_view;
use crate::models::{
    copy_evidence, evidence_view, millis, opt_view, risk_label, severity_debug_name, severity_rank,
    strings_view, Alert, AlertView, AnomalyEvent, AnomalyEventView, ConnectionInsight,
    ConnectionInsightView, IncidentEvidence, IncidentEvidenceView, IncidentSummary,
    IncidentSummaryView, PrecisionStatus, RiskLevel, ServiceState, ServiceStateView, Severity,
    Timestamp, TraceAnalysisSummary, TraceAnalysisSummaryView,
};
use crate::text::{
    concat_all, contains, contains_str, eq_ic, eq_ignore_case, int_text, int_text_exec, join_all,
    lower, owned, starts_with, starts_with_str, str_eq, to_lower,
};
use vstd::prelude::*;

verus! {

// ---------------------------------------------------------------------------
// Classification of a process
// ---------------------------------------------------------------------------

/// How a measurement compares with its warning and critical thresholds.
#[derive(Debug, Clone, Copy, PartialEq, Eq, Structural)]
pub enum Pressure {
    /// Below the warning threshold.
    Normal,
    /// At or above the warning threshold, below the critical one.
    Warning,
    /// At or above the critical threshold.
    Critical,
}

/// Points a pressure adds to the score.
pub open spec fn pressure_points(p: Pressure, warning: int, critical: int) -> int {
    match p {
        Pressure::Normal => 0,
        Pressure::Warning => warning,
        Pressure::Critical => critical,
    }
}

/// The lower-cased path lies under a temporary folder.
pub open spec fn temp_path(lp: Seq<char>) -> bool {
    contains(lp, "\\temp\\"@) || contains(lp, "\\appdata\\local\\temp\\"@)
}

/// Names that point to updates and installers.
pub open spec fn installer_needles() -> Seq<Seq<char>> {
    seq!["update"@, "installer"@, "setup"@, "msiexec"@, "trustedinstaller"@, "dism"@]
}

/// The lower-cased name looks like an update or an installer.
pub open spec fn installer_name(ln: Seq<char>) -> bool {
    exists|i: int| 0 <= i < installer_needles().len() && contains(ln, #[trigger] installer_needles()[i])
}

/// The score of a process: CPU, memory and writes by their pressure, a
/// temporary path and an installer-like name.
pub open spec fn process_score(name: Seq<char>, path: Seq<char>, cpu: Pressure, memory: Pressure, write: Pressure) -> int {
    pressure_points(cpu, 18, 35) + pressure_points(memory, 14, 28) + pressure_points(write, 20, 40) + (if temp_path(
        lower(path),
    ) {
        24int
    } else {
        0int
    }) + (if installer_name(lower(name)) {
        12int
    } else {
        0int
    })
}

/// The severity of a score: up to 24 healthy, up to 54 a warning, critical
/// above.
pub open spec fn score_severity(score: int) -> Severity {
    if score <= 24 {
        Severity::Healthy
    } else if score <= 54 {
        Severity::Warning
    } else {
        Severity::Critical
    }
}

/// The bands of the score: up to 24 healthy, 25 to 54 a warning, 55 and
/// more critical; a higher score never gives a lower severity.
pub proof fn lemma_score_bands(score: int, other: int)
    ensures
        score <= 24 ==> score_severity(score) == Severity::Healthy,
        25 <= score <= 54 ==> score_severity(score) == Severity::Warning,
        55 <= score ==> score_severity(score) == Severity::Critical,
        score <= other ==> crate::models::severity_rank(score_severity(score)) <= crate::models::severity_rank(
            score_severity(other),
        ),
{
}

/// The reasons behind a score, in the order the checks are made.
pub open spec fn process_reasons(
    name: Seq<char>,
    path: Seq<char>,
    cpu: Pressure,
    memory: Pressure,
    write: Pressure,
    cpu_text: Seq<char>,
    memory_text: Seq<char>,
    write_text: Seq<char>,
) -> Seq<Seq<char>> {
    (match cpu {
        Pressure::Critical => seq!["CPU alto ("@ + cpu_text + "%)"@],
        Pressure::Warning => seq!["CPU sostenido ("@ + cpu_text + "%)"@],
        Pressure::Normal => Seq::empty(),
    }) + (match memory {
        Pressure::Critical => seq!["Memoria elevada ("@ + memory_text + " MB)"@],
        Pressure::Warning => seq!["Memoria moderada-alta ("@ + memory_text + " MB)"@],
        Pressure::Normal => Seq::empty(),
    }) + (match write {
        Pressure::Critical => seq!["Escritura intensa ("@ + write_text + " MB en el intervalo)"@],
        Pressure::Warning => seq!["Escritura perceptible ("@ + write_text + " MB)"@],
        Pressure::Normal => Seq::empty(),
    }) + (if temp_path(lower(path)) {
        seq!["Ejecutable lanzado desde carpeta temporal"@]
    } else {
        Seq::empty()
    }) + (if installer_name(lower(name)) {
        seq!["Patrón de actualización/instalación detectado"@]
    } else {
        Seq::empty()
    })
}

/// The category of a process by its path and name.
pub open spec fn process_category(name: Seq<char>, path: Seq<char>) -> Seq<char> {
    let lp = lower(path);
    if contains(lp, "\\temp\\"@) {
        "Temporal / instalador"@
    } else if contains(lp, "\\windows\\softwaredistribution"@) || contains(lower(name), "update"@) {
        "Actualización / mantenimiento"@
    } else if starts_with(lp, "c:\\windows"@) {
        "Sistema operativo"@
    } else {
        "Aplicación de usuario"@
    }
}

/// The reason a pressure gives: `crit_head text crit_tail` when critical,
/// `warn_head text warn_tail` when a warning, none otherwise.
pub open spec fn pressure_reason(
    p: Pressure,
    crit_head: Seq<char>,
    crit_tail: Seq<char>,
    warn_head: Seq<char>,
    warn_tail: Seq<char>,
    text: Seq<char>,
) -> Seq<Seq<char>> {
    match p {
        Pressure::Critical => seq![crit_head + text + crit_tail],
        Pressure::Warning => seq![warn_head + text + warn_tail],
        Pressure::Normal => Seq::empty(),
    }
}

fn push_reason(
    v: &mut Vec<String>,
    p: Pressure,
    crit_head: &str,
    crit_tail: &str,
    warn_head: &str,
    warn_tail: &str,
    text: &str,
)
    ensures
        strings_view(final(v)@) == strings_view(old(v)@) + pressure_reason(
            p,
            crit_head@,
            crit_tail@,
            warn_head@,
            warn_tail@,
            text@,
        ),
{
    let ghost before = strings_view(v@);
    match p {
        Pressure::Critical => {
            let t = crate::text::concat3(crit_head, text, crit_tail);
            v.push(t);
        },
        Pressure::Warning => {
            let t = crate::text::concat3(warn_head, text, warn_tail);
            v.push(t);
        },
        Pressure::Normal => {},
    }
    assert(strings_view(v@) =~= before + pressure_reason(p, crit_head@, crit_tail@, warn_head@, warn_tail@, text@));
}

fn push_if(v: &mut Vec<String>, cond: bool, text: &str)
    ensures
        strings_view(final(v)@) == strings_view(old(v)@) + (if cond {
            seq![text@]
        } else {
            Seq::empty()
        }),
{
    let ghost before = strings_view(v@);
    if cond {
        v.push(owned(text));
    }
    assert(strings_view(v@) =~= before + (if cond {
        seq![text@]
    } else {
        Seq::<Seq<char>>::empty()
    }));
}

fn points(p: Pressure, warning: u8, critical: u8) -> (r: u8)
    ensures
        r as int == pressure_points(p, warning as int, critical as int),
{
    match p {
        Pressure::Normal => 0,
        Pressure::Warning => warning,
        Pressure::Critical => critical,
    }
}

fn installer_name_exec(ln: &str) -> (r: bool)
    ensures
        r == installer_name(ln@),
{
    let r = crate::text::contains_any_str(ln, &["update", "installer", "setup", "msiexec", "trustedinstaller", "dism"]);
    proof {
        let needles: Seq<&str> = seq!["update", "installer", "setup", "msiexec", "trustedinstaller", "dism"];
        reveal_strlit("update");
        reveal_strlit("installer");
        reveal_strlit("setup");
        reveal_strlit("msiexec");
        reveal_strlit("trustedinstaller");
        reveal_strlit("dism");
        assert forall|i: int| 0 <= i < 6 implies (#[trigger] installer_needles()[i]) == needles[i]@ by {}
        if r {
            let i = choose|i: int| 0 <= i < 6 && contains(ln@, (#[trigger] needles[i])@);
            assert(contains(ln@, installer_needles()[i]));
        }
        if installer_name(ln@) {
            let i = choose|i: int| 0 <= i < 6 && contains(ln@, #[trigger] installer_needles()[i]);
            assert(contains(ln@, needles[i]@));
        }
    }
    r
}

/// Classifies a process from its name, its path and how its CPU, memory and
/// writes compare with their thresholds (each also given as the text shown in
/// the reasons). Returns the severity, the score, the reasons (a neutral one
/// when there is none) and the category.
pub fn classify_process(
    name: &str,
    exe_path: &str,
    cpu: Pressure,
    memory: Pressure,
    write: Pressure,
    cpu_text: &str,
    memory_text: &str,
    write_text: &str,
) -> (r: (Severity, u8, Vec<String>, String))
    ensures
        r.1 as int == process_score(name@, exe_path@, cpu, memory, write),
        r.0 == score_severity(r.1 as int),
        r.1 <= 24 ==> r.0 == Severity::Healthy,
        25 <= r.1 <= 54 ==> r.0 == Severity::Warning,
        55 <= r.1 ==> r.0 == Severity::Critical,
        cpu == Pressure::Critical || memory == Pressure::Critical || write == Pressure::Critical
            ==> r.0 != Severity::Healthy,
        strings_view(r.2@) == ({
            let rs = process_reasons(name@, exe_path@, cpu, memory, write, cpu_text@, memory_text@, write_text@);
            if rs.len() == 0 {
                seq!["Sin presión relevante en esta muestra"@]
            } else {
                rs
            }
        }),
        r.3@ == process_category(name@, exe_path@),
{
    let ln = to_lower(name);
    let lp = to_lower(exe_path);
    let in_temp = contains_str(lp.as_str(), "\\temp\\") || contains_str(lp.as_str(), "\\appdata\\local\\temp\\");
    let installer = installer_name_exec(ln.as_str());
    proof {
        reveal_strlit("\\temp\\");
        reveal_strlit("\\appdata\\local\\temp\\");
    }
    let score: u8 = points(cpu, 18, 35) + points(memory, 14, 28) + points(write, 20, 40) + (if in_temp {
        24u8
    } else {
        0u8
    }) + (if installer {
        12u8
    } else {
        0u8
    });
    let mut reasons: Vec<String> = Vec::new();
    push_reason(&mut reasons, cpu, "CPU alto (", "%)", "CPU sostenido (", "%)", cpu_text);
    push_reason(&mut reasons, memory, "Memoria elevada (", " MB)", "Memoria moderada-alta (", " MB)", memory_text);
    push_reason(
        &mut reasons,
        write,
        "Escritura intensa (",
        " MB en el intervalo)",
        "Escritura perceptible (",
        " MB)",
        write_text,
    );
    push_if(&mut reasons, in_temp, "Ejecutable lanzado desde carpeta temporal");
    push_if(&mut reasons, installer, "Patrón de actualización/instalación detectado");
    proof {
        reveal_strlit("CPU alto (");
        reveal_strlit("CPU sostenido (");
        reveal_strlit("%)");
        reveal_strlit("Memoria elevada (");
        reveal_strlit("Memoria moderada-alta (");
        reveal_strlit(" MB)");
        reveal_strlit("Escritura intensa (");
        reveal_strlit(" MB en el intervalo)");
        reveal_strlit("Escritura perceptible (");
        reveal_strlit("Ejecutable lanzado desde carpeta temporal");
        reveal_strlit("Patrón de actualización/instalación detectado");
        let rs = process_reasons(
            name@,
            exe_path@,
            cpu,
            memory,
            write,
            cpu_text@,
            memory_text@,
            write_text@,
        );
        assert(strings_view(reasons@) =~= rs);
    }
    let severity = if score <= 24 {
        Severity::Healthy
    } else if score <= 54 {
        Severity::Warning
    } else {
        Severity::Critical
    };
    if reasons.len() == 0 {
        push_if(&mut reasons, true, "Sin presión relevante en esta muestra");
    }
    let category = if contains_str(lp.as_str(), "\\temp\\") {
        owned("Temporal / instalador")
    } else if contains_str(lp.as_str(), "\\windows\\softwaredistribution") || contains_str(ln.as_str(), "update") {
        owned("Actualización / mantenimiento")
    } else if starts_with_str(lp.as_str(), "c:\\windows") {
        owned("Sistema operativo")
    } else {
        owned("Aplicación de usuario")
    };
    (severity, score, reasons, category)
}


// ---------------------------------------------------------------------------
// Alerts of a snapshot
// ---------------------------------------------------------------------------

/// A process as the alerts and the incident read it: its classification and
/// its measurements as shown (CPU with one decimal, memory without decimals,
/// writes in the interval with one decimal).
pub struct ProcessReading {
    pub pid: u32,
    pub name: String,
    pub exe_path: String,
    pub severity: Severity,
    pub reasons: Vec<String>,
    pub cpu_text: String,
    pub memory_text: String,
    pub io_write_text: String,
}

pub struct ProcessReadingView {
    pub pid: u32,
    pub name: Seq<char>,
    pub exe_path: Seq<char>,
    pub severity: Severity,
    pub reasons: Seq<Seq<char>>,
    pub cpu_text: Seq<char>,
    pub memory_text: Seq<char>,
    pub io_write_text: Seq<char>,
}

impl View for ProcessReading {
    type V = ProcessReadingView;

    open spec fn view(&self) -> ProcessReadingView {
        ProcessReadingView {
            pid: self.pid,
            name: self.name@,
            exe_path: self.exe_path@,
            severity: self.severity,
            reasons: strings_view(self.reasons@),
            cpu_text: self.cpu_text@,
            memory_text: self.memory_text@,
            io_write_text: self.io_write_text@,
        }
    }
}

/// A temporary folder as the alerts and the incident read it (its size in MB
/// with one decimal).
#[derive(Debug, Clone)]
pub struct TempReading {
    pub path: String,
    pub severity: Severity,
    pub size_text: String,
    pub file_count: u64,
    pub note: String,
}

pub struct TempReadingView {
    pub path: Seq<char>,
    pub severity: Severity,
    pub size_text: Seq<char>,
    pub file_count: u64,
    pub note: Seq<char>,
}

impl View for TempReading {
    type V = TempReadingView;

    open spec fn view(&self) -> TempReadingView {
        TempReadingView {
            path: self.path@,
            severity: self.severity,
            size_text: self.size_text@,
            file_count: self.file_count,
            note: self.note@,
        }
    }
}

/// The headline of a snapshot: its severity and the reason for it.
pub struct Headline {
    pub primary_severity: Severity,
    pub primary_reason: String,
}

pub struct HeadlineView {
    pub primary_severity: Severity,
    pub primary_reason: Seq<char>,
}

impl View for Headline {
    type V = HeadlineView;

    open spec fn view(&self) -> HeadlineView {
        HeadlineView { primary_severity: self.primary_severity, primary_reason: self.primary_reason@ }
    }
}

/// What the alerts of a snapshot are built from.
pub struct AlertBuildInputs<'a> {
    pub processes: &'a [ProcessReading],
    pub connections: &'a [ConnectionInsight],
    pub temp_entries: &'a [TempReading],
    pub services: &'a [ServiceState],
    pub anomalies: &'a [AnomalyEvent],
    pub precision: &'a PrecisionStatus,
}

pub struct AlertInputsView {
    pub processes: Seq<ProcessReadingView>,
    pub connections: Seq<ConnectionInsightView>,
    pub temp_entries: Seq<TempReadingView>,
    pub services: Seq<ServiceStateView>,
    pub anomalies: Seq<AnomalyEventView>,
    pub wpr_available: bool,
}

/// The views of the inputs.
pub open spec fn inputs_view(i: AlertBuildInputs) -> AlertInputsView {
    AlertInputsView {
        processes: i.processes@.map_values(|p: ProcessReading| p@),
        connections: i.connections@.map_values(|c: ConnectionInsight| c@),
        temp_entries: i.temp_entries@.map_values(|t: TempReading| t@),
        services: i.services@.map_values(|s: ServiceState| s@),
        anomalies: events_view(i.anomalies@),
        wpr_available: i.precision.wpr_available,
    }
}

/// Index of the first item at or after `from` that satisfies `p`, or the length.
pub open spec fn first_index<T>(s: Seq<T>, p: spec_fn(T) -> bool, from: int) -> int
    decreases s.len() - from,
{
    if from < 0 || from >= s.len() {
        s.len() as int
    } else if p(s[from]) {
        from
    } else {
        first_index(s, p, from + 1)
    }
}

/// The first item that satisfies `p`.
pub open spec fn first_where<T>(s: Seq<T>, p: spec_fn(T) -> bool) -> Option<T> {
    let i = first_index(s, p, 0);
    if 0 <= i < s.len() {
        Some(s[i])
    } else {
        None
    }
}

proof fn lemma_first_index<T>(s: Seq<T>, p: spec_fn(T) -> bool, from: int)
    requires
        0 <= from <= s.len(),
    ensures
        from <= first_index(s, p, from) <= s.len(),
        forall|m: int| from <= m < first_index(s, p, from) ==> !p(#[trigger] s[m]),
        first_index(s, p, from) < s.len() ==> p(s[first_index(s, p, from)]),
    decreases s.len() - from,
{
    if from < s.len() && !p(s[from]) {
        lemma_first_index(s, p, from + 1);
    }
}

/// The alert of an anomaly.
pub open spec fn anomaly_alert(a: AnomalyEventView) -> AlertView {
    AlertView {
        severity: crate::models::risk_to_severity(a.severity),
        title: a.title + " ["@ + risk_label(a.severity) + "]"@,
        detail: a.summary,
        pid: a.pid,
        path: a.exe_path,
        hint: a.recommended_action,
    }
}

/// The alert of the first critical process.
pub open spec fn process_alert(p: ProcessReadingView) -> AlertView {
    AlertView {
        severity: Severity::Critical,
        title: "Proceso dominante con presión alta"@,
        detail: p.name + " usa "@ + p.cpu_text + "% CPU, "@ + p.memory_text + " MB RAM y escribe "@ + p.io_write_text
            + " MB por intervalo."@,
        pid: Some(p.pid),
        path: Some(p.exe_path),
        hint: "Revísalo primero; si confirmas que no es esencial, puedes finalizarlo"@,
    }
}

/// The alert of the first critical connection.
pub open spec fn connection_alert(c: ConnectionInsightView) -> AlertView {
    AlertView {
        severity: Severity::Critical,
        title: "Conexión remota a revisar"@,
        detail: c.process_name + " (PID "@ + int_text(c.pid as int) + ") mantiene conexión con "@ + c.remote_address
            + "."@,
        pid: Some(c.pid),
        path: Some(c.exe_path),
        hint: "Valida la ruta del ejecutable y bloquea la IP si no corresponde"@,
    }
}

/// The alert of the first critical temporary folder.
pub open spec fn temp_alert(t: TempReadingView) -> AlertView {
    AlertView {
        severity: t.severity,
        title: "Acumulación temporal relevante"@,
        detail: t.path + " pesa "@ + t.size_text + " MB y contiene "@ + int_text(t.file_count as int) + " archivos."@,
        pid: None,
        path: Some(t.path),
        hint: t.note,
    }
}

/// An update service that is running.
pub open spec fn running_update_service(s: ServiceStateView) -> bool {
    let ln = lower(s.name);
    (ln == "wuauserv"@ || ln == "bits"@ || ln == "dosvc"@) && eq_ignore_case(s.status, "Running"@)
}

/// The alert of a running update service.
pub open spec fn service_alert(s: ServiceStateView) -> AlertView {
    AlertView {
        severity: Severity::Warning,
        title: "Servicio de actualización activo"@,
        detail: s.display_name + " está "@ + s.status + " y puede explicar actividad en segundo plano."@,
        pid: None,
        path: None,
        hint: "Correlaciónalo con SoftwareDistribution, Delivery Optimization y procesos de instalación/descarga"@,
    }
}

/// The alerts of the running update services, in order.
pub open spec fn service_alerts(ss: Seq<ServiceStateView>) -> Seq<AlertView>
    decreases ss.len(),
{
    if ss.len() == 0 {
        Seq::empty()
    } else {
        service_alerts(ss.drop_last()) + if running_update_service(ss.last()) {
            seq![service_alert(ss.last())]
        } else {
            Seq::empty()
        }
    }
}

/// The alert shown when WPR is missing.
pub open spec fn precision_alert() -> AlertView {
    AlertView {
        severity: Severity::Healthy,
        title: "Modo de precisión disponible bajo instalación adicional"@,
        detail: "La app puede operar sin WPR, pero para correlación fina conviene instalar Windows Performance Toolkit."@,
        pid: None,
        path: None,
        hint: "Úsalo cuando necesites saber con más exactitud qué archivo o actividad disparó la lentitud."@,
    }
}

/// The alert of a quiet snapshot.
pub open spec fn stable_alert() -> AlertView {
    AlertView {
        severity: Severity::Healthy,
        title: "Estado estable"@,
        detail: "No aparecieron procesos o conexiones anómalas dominantes en esta captura."@,
        pid: None,
        path: None,
        hint: "Mantén el monitoreo unos minutos cuando aparezca la lentitud real"@,
    }
}

pub open spec fn critical_process(p: ProcessReadingView) -> bool {
    p.severity == Severity::Critical
}

pub open spec fn critical_connection(c: ConnectionInsightView) -> bool {
    c.severity == Severity::Critical
}

pub open spec fn critical_temp(t: TempReadingView) -> bool {
    t.severity == Severity::Critical
}

/// Alerts and headline after the anomalies: up to three anomaly alerts, the
/// first anomaly setting the headline.
pub open spec fn after_anomalies(anomalies: Seq<AnomalyEventView>, h: HeadlineView) -> (Seq<AlertView>, HeadlineView) {
    (
        take(anomalies, 3).map_values(|a: AnomalyEventView| anomaly_alert(a)),
        if anomalies.len() > 0 {
            HeadlineView {
                primary_severity: crate::models::risk_to_severity(anomalies[0].severity),
                primary_reason: anomalies[0].root_cause_hypothesis,
            }
        } else {
            h
        },
    )
}

/// ... then the first critical process, which always sets the headline.
pub open spec fn after_process(processes: Seq<ProcessReadingView>, st: (Seq<AlertView>, HeadlineView)) -> (Seq<AlertView>, HeadlineView) {
    match first_where(processes, |p: ProcessReadingView| critical_process(p)) {
        Some(p) => (
            st.0.push(process_alert(p)),
            HeadlineView {
                primary_severity: Severity::Critical,
                primary_reason: "Proceso crítico detectado: "@ + p.name + " (PID "@ + int_text(p.pid as int) + ")"@,
            },
        ),
        None => st,
    }
}

/// ... then the first critical connection, which sets a headline below critical.
pub open spec fn after_connection(connections: Seq<ConnectionInsightView>, st: (Seq<AlertView>, HeadlineView)) -> (Seq<AlertView>, HeadlineView) {
    match first_where(connections, |c: ConnectionInsightView| critical_connection(c)) {
        Some(c) => (
            st.0.push(connection_alert(c)),
            if severity_rank(st.1.primary_severity) < severity_rank(Severity::Critical) {
                HeadlineView {
                    primary_severity: Severity::Critical,
                    primary_reason: "Conexión pública sospechosa: "@ + c.process_name + " -> "@ + c.remote_address,
                }
            } else {
                st.1
            },
        ),
        None => st,
    }
}

/// ... then the first critical temporary folder, which raises a healthy
/// headline to a warning.
pub open spec fn after_temp(temp_entries: Seq<TempReadingView>, st: (Seq<AlertView>, HeadlineView)) -> (Seq<AlertView>, HeadlineView) {
    match first_where(temp_entries, |t: TempReadingView| critical_temp(t)) {
        Some(t) => (
            st.0.push(temp_alert(t)),
            if severity_rank(st.1.primary_severity) < severity_rank(Severity::Warning) {
                HeadlineView {
                    primary_severity: Severity::Warning,
                    primary_reason: "Crecimiento temporal alto en "@ + t.path,
                }
            } else {
                st.1
            },
        ),
        None => st,
    }
}

/// The alerts of a snapshot and its headline: anomalies, the first critical
/// process, connection and temporary folder, running update services, a
/// missing WPR; a stable alert when there is nothing; cut to `max_alerts`.
pub open spec fn alerts_spec(i: AlertInputsView, h: HeadlineView, max_alerts: usize) -> (Seq<AlertView>, HeadlineView) {
    let st = after_temp(
        i.temp_entries,
        after_connection(i.connections, after_process(i.processes, after_anomalies(i.anomalies, h))),
    );
    let a = st.0 + service_alerts(i.services) + if !i.wpr_available {
        seq![precision_alert()]
    } else {
        Seq::empty()
    };
    if a.len() == 0 {
        (
            take(seq![stable_alert()], max_alerts as int),
            HeadlineView {
                primary_severity: Severity::Healthy,
                primary_reason: "No se observaron conflictos claros en esta muestra"@,
            },
        )
    } else {
        (take(a, max_alerts as int), st.1)
    }
}


fn anomaly_alert_exec(a: &AnomalyEvent) -> (r: Alert)
    ensures
        r@ == anomaly_alert(a@),
{
    let title = join_all(&[a.title.as_str(), " [", a.severity.label(), "]"]);
    proof {
        reveal_with_fuel(concat_all, 5);
    }
    Alert {
        severity: a.severity.to_severity(),
        title,
        detail: a.summary.clone(),
        pid: a.pid,
        path: crate::models::clone_opt(&a.exe_path),
        hint: a.recommended_action.clone(),
    }
}

fn process_alert_exec(p: &ProcessReading) -> (r: Alert)
    ensures
        r@ == process_alert(p@),
{
    let detail = join_all(
        &[
            p.name.as_str(),
            " usa ",
            p.cpu_text.as_str(),
            "% CPU, ",
            p.memory_text.as_str(),
            " MB RAM y escribe ",
            p.io_write_text.as_str(),
            " MB por intervalo.",
        ],
    );
    proof {
        reveal_with_fuel(concat_all, 9);
    }
    Alert {
        severity: Severity::Critical,
        title: owned("Proceso dominante con presión alta"),
        detail,
        pid: Some(p.pid),
        path: Some(p.exe_path.clone()),
        hint: owned("Revísalo primero; si confirmas que no es esencial, puedes finalizarlo"),
    }
}

fn connection_alert_exec(c: &ConnectionInsight) -> (r: Alert)
    ensures
        r@ == connection_alert(c@),
{
    let pid = int_text_exec(c.pid as i128);
    let detail = join_all(
        &[c.process_name.as_str(), " (PID ", pid.as_str(), ") mantiene conexión con ", c.remote_address.as_str(), "."],
    );
    proof {
        reveal_with_fuel(concat_all, 7);
    }
    Alert {
        severity: Severity::Critical,
        title: owned("Conexión remota a revisar"),
        detail,
        pid: Some(c.pid),
        path: Some(c.exe_path.clone()),
        hint: owned("Valida la ruta del ejecutable y bloquea la IP si no corresponde"),
    }
}

fn temp_alert_exec(t: &TempReading) -> (r: Alert)
    ensures
        r@ == temp_alert(t@),
{
    let count = int_text_exec(t.file_count as i128);
    let detail = join_all(
        &[t.path.as_str(), " pesa ", t.size_text.as_str(), " MB y contiene ", count.as_str(), " archivos."],
    );
    proof {
        reveal_with_fuel(concat_all, 7);
    }
    Alert {
        severity: t.severity,
        title: owned("Acumulación temporal relevante"),
        detail,
        pid: None,
        path: Some(t.path.clone()),
        hint: t.note.clone(),
    }
}

fn service_alert_exec(sv: &ServiceState) -> (r: Alert)
    ensures
        r@ == service_alert(sv@),
{
    let detail = join_all(
        &[sv.display_name.as_str(), " está ", sv.status.as_str(), " y puede explicar actividad en segundo plano."],
    );
    proof {
        reveal_with_fuel(concat_all, 5);
    }
    Alert {
        severity: Severity::Warning,
        title: owned("Servicio de actualización activo"),
        detail,
        pid: None,
        path: None,
        hint: owned(
            "Correlaciónalo con SoftwareDistribution, Delivery Optimization y procesos de instalación/descarga",
        ),
    }
}

fn running_update_service_exec(sv: &ServiceState) -> (r: bool)
    ensures
        r == running_update_service(sv@),
{
    let ln = to_lower(sv.name.as_str());
    (str_eq(ln.as_str(), "wuauserv") || str_eq(ln.as_str(), "bits") || str_eq(ln.as_str(), "dosvc")) && eq_ic(
        sv.status.as_str(),
        "Running",
    )
}

fn first_critical_process(ps: &[ProcessReading]) -> (r: usize)
    ensures
        r as int == first_index(
            ps@.map_values(|p: ProcessReading| p@),
            |p: ProcessReadingView| critical_process(p),
            0,
        ),
        r <= ps@.len(),
{
    let ghost v = ps@.map_values(|p: ProcessReading| p@);
    let ghost pred = |p: ProcessReadingView| critical_process(p);
    let mut i: usize = 0;
    while i < ps.len() && ps[i].severity != Severity::Critical
        invariant
            i <= ps@.len(),
            v == ps@.map_values(|p: ProcessReading| p@),
            pred == (|p: ProcessReadingView| critical_process(p)),
            first_index(v, pred, 0) == first_index(v, pred, i as int),
        decreases ps.len() - i,
    {
        assert(v[i as int] == ps@[i as int]@);
        i = i + 1;
    }
    if i < ps.len() {
        assert(v[i as int] == ps@[i as int]@);
    }
    i
}

fn first_critical_connection(cs: &[ConnectionInsight]) -> (r: usize)
    ensures
        r as int == first_index(
            cs@.map_values(|c: ConnectionInsight| c@),
            |c: ConnectionInsightView| critical_connection(c),
            0,
        ),
        r <= cs@.len(),
{
    let ghost v = cs@.map_values(|c: ConnectionInsight| c@);
    let ghost pred = |c: ConnectionInsightView| critical_connection(c);
    let mut i: usize = 0;
    while i < cs.len() && cs[i].severity != Severity::Critical
        invariant
            i <= cs@.len(),
            v == cs@.map_values(|c: ConnectionInsight| c@),
            pred == (|c: ConnectionInsightView| critical_connection(c)),
            first_index(v, pred, 0) == first_index(v, pred, i as int),
        decreases cs.len() - i,
    {
        assert(v[i as int] == cs@[i as int]@);
        i = i + 1;
    }
    if i < cs.len() {
        assert(v[i as int] == cs@[i as int]@);
    }
    i
}

fn first_critical_temp(ts: &[TempReading]) -> (r: usize)
    ensures
        r as int == first_index(
            ts@.map_values(|t: TempReading| t@),
            |t: TempReadingView| critical_temp(t),
            0,
        ),
        r <= ts@.len(),
{
    let ghost v = ts@.map_values(|t: TempReading| t@);
    let ghost pred = |t: TempReadingView| critical_temp(t);
    let mut i: usize = 0;
    while i < ts.len() && ts[i].severity != Severity::Critical
        invariant
            i <= ts@.len(),
            v == ts@.map_values(|t: TempReading| t@),
            pred == (|t: TempReadingView| critical_temp(t)),
            first_index(v, pred, 0) == first_index(v, pred, i as int),
        decreases ts.len() - i,
    {
        assert(v[i as int] == ts@[i as int]@);
        i = i + 1;
    }
    if i < ts.len() {
        assert(v[i as int] == ts@[i as int]@);
    }
    i
}

fn push_alert(v: &mut Vec<Alert>, a: Alert)
    ensures
        alerts_view(final(v)@) == alerts_view(old(v)@).push(a@),
{
    let ghost before = alerts_view(v@);
    let ghost av = a@;
    v.push(a);
    assert(alerts_view(v@) =~= before.push(av));
}


fn stage_anomalies(anomalies: &[AnomalyEvent], alerts: &mut Vec<Alert>, overview: &mut Headline)
    requires
        old(alerts)@.len() == 0,
    ensures
        alerts_view(final(alerts)@) == after_anomalies(events_view(anomalies@), old(overview)@).0,
        final(overview)@ == after_anomalies(events_view(anomalies@), old(overview)@).1,
{
    let ghost ev = events_view(anomalies@);
    if anomalies.len() > 0 {
        overview.primary_severity = anomalies[0].severity.to_severity();
        overview.primary_reason = anomalies[0].root_cause_hypothesis.clone();
        assert(ev[0] == anomalies@[0]@);
    }
    let n: usize = if anomalies.len() < 3 {
        anomalies.len()
    } else {
        3
    };
    let mut k: usize = 0;
    while k < n
        invariant
            k <= n,
            n <= anomalies@.len(),
            ev == events_view(anomalies@),
            alerts_view(alerts@) == ev.subrange(0, k as int).map_values(|a: AnomalyEventView| anomaly_alert(a)),
        decreases n - k,
    {
        push_alert(alerts, anomaly_alert_exec(&anomalies[k]));
        proof {
            assert(ev[k as int] == anomalies@[k as int]@);
            assert(alerts_view(alerts@) =~= ev.subrange(0, k + 1).map_values(|a: AnomalyEventView| anomaly_alert(a)));
        }
        k = k + 1;
    }
    assert(take(ev, 3) =~= ev.subrange(0, n as int));
}

fn stage_process(processes: &[ProcessReading], alerts: &mut Vec<Alert>, overview: &mut Headline)
    ensures
        alerts_view(final(alerts)@) == after_process(
            processes@.map_values(|p: ProcessReading| p@),
            (alerts_view(old(alerts)@), old(overview)@),
        ).0,
        final(overview)@ == after_process(
            processes@.map_values(|p: ProcessReading| p@),
            (alerts_view(old(alerts)@), old(overview)@),
        ).1,
{
    let ghost pv = processes@.map_values(|p: ProcessReading| p@);
    let pi = first_critical_process(processes);
    proof {
        lemma_first_index(pv, |p: ProcessReadingView| critical_process(p), 0);
    }
    if pi < processes.len() {
        let p = &processes[pi];
        let pid = int_text_exec(p.pid as i128);
        overview.primary_severity = Severity::Critical;
        overview.primary_reason = join_all(&["Proceso crítico detectado: ", p.name.as_str(), " (PID ", pid.as_str(), ")"]);
        proof {
            reveal_with_fuel(concat_all, 6);
        }
        push_alert(alerts, process_alert_exec(p));
        assert(pv[pi as int] == p@);
    }
}

fn stage_connection(connections: &[ConnectionInsight], alerts: &mut Vec<Alert>, overview: &mut Headline)
    ensures
        alerts_view(final(alerts)@) == after_connection(
            connections@.map_values(|c: ConnectionInsight| c@),
            (alerts_view(old(alerts)@), old(overview)@),
        ).0,
        final(overview)@ == after_connection(
            connections@.map_values(|c: ConnectionInsight| c@),
            (alerts_view(old(alerts)@), old(overview)@),
        ).1,
{
    let ghost cv = connections@.map_values(|c: ConnectionInsight| c@);
    let ci = first_critical_connection(connections);
    proof {
        lemma_first_index(cv, |c: ConnectionInsightView| critical_connection(c), 0);
    }
    if ci < connections.len() {
        let c = &connections[ci];
        if overview.primary_severity.rank() < Severity::Critical.rank() {
            overview.primary_severity = Severity::Critical;
            overview.primary_reason = join_all(
                &["Conexión pública sospechosa: ", c.process_name.as_str(), " -> ", c.remote_address.as_str()],
            );
            proof {
                reveal_with_fuel(concat_all, 5);
            }
        }
        push_alert(alerts, connection_alert_exec(c));
        assert(cv[ci as int] == c@);
    }
}

fn stage_temp(temp_entries: &[TempReading], alerts: &mut Vec<Alert>, overview: &mut Headline)
    ensures
        alerts_view(final(alerts)@) == after_temp(
            temp_entries@.map_values(|t: TempReading| t@),
            (alerts_view(old(alerts)@), old(overview)@),
        ).0,
        final(overview)@ == after_temp(
            temp_entries@.map_values(|t: TempReading| t@),
            (alerts_view(old(alerts)@), old(overview)@),
        ).1,
{
    let ghost tv = temp_entries@.map_values(|t: TempReading| t@);
    let ti = first_critical_temp(temp_entries);
    proof {
        lemma_first_index(tv, |t: TempReadingView| critical_temp(t), 0);
    }
    if ti < temp_entries.len() {
        let t = &temp_entries[ti];
        if overview.primary_severity.rank() < Severity::Warning.rank() {
            overview.primary_severity = Severity::Warning;
            overview.primary_reason = crate::text::concat2("Crecimiento temporal alto en ", t.path.as_str());
        }
        push_alert(alerts, temp_alert_exec(t));
        assert(tv[ti as int] == t@);
    }
}

fn stage_services(services: &[ServiceState], alerts: &mut Vec<Alert>)
    ensures
        alerts_view(final(alerts)@) == alerts_view(old(alerts)@) + service_alerts(
            services@.map_values(|sv: ServiceState| sv@),
        ),
{
    let ghost sv0 = services@.map_values(|sv: ServiceState| sv@);
    let ghost start = alerts_view(alerts@);
    let mut j: usize = 0;
    while j < services.len()
        invariant
            j <= services@.len(),
            sv0 == services@.map_values(|sv: ServiceState| sv@),
            alerts_view(alerts@) == start + service_alerts(sv0.subrange(0, j as int)),
        decreases services.len() - j,
    {
        let sv = &services[j];
        proof {
            let pre = sv0.subrange(0, j + 1);
            assert(pre.drop_last() =~= sv0.subrange(0, j as int));
            assert(pre.last() == sv@);
        }
        if running_update_service_exec(sv) {
            push_alert(alerts, service_alert_exec(sv));
        }
        assert(alerts_view(alerts@) =~= start + service_alerts(sv0.subrange(0, j + 1)));
        j = j + 1;
    }
    assert(sv0.subrange(0, sv0.len() as int) =~= sv0);
}

/// Builds the alerts of a snapshot (see [`alerts_spec`]) and sets its
/// headline.
pub fn build_alerts(inputs: AlertBuildInputs<'_>, overview: &mut Headline, max_alerts: usize) -> (r: Vec<Alert>)
    ensures
        alerts_view(r@) == alerts_spec(inputs_view(inputs), old(overview)@, max_alerts).0,
        final(overview)@ == alerts_spec(inputs_view(inputs), old(overview)@, max_alerts).1,
{
    let ghost iv = inputs_view(inputs);
    let mut alerts: Vec<Alert> = Vec::new();
    stage_anomalies(inputs.anomalies, &mut alerts, overview);
    stage_process(inputs.processes, &mut alerts, overview);
    stage_connection(inputs.connections, &mut alerts, overview);
    stage_temp(inputs.temp_entries, &mut alerts, overview);
    let ghost st4 = (alerts_view(alerts@), overview@);
    stage_services(inputs.services, &mut alerts);
    if !inputs.precision.wpr_available {
        let a = Alert {
            severity: Severity::Healthy,
            title: owned("Modo de precisión disponible bajo instalación adicional"),
            detail: owned(
                "La app puede operar sin WPR, pero para correlación fina conviene instalar Windows Performance Toolkit.",
            ),
            pid: None,
            path: None,
            hint: owned(
                "Úsalo cuando necesites saber con más exactitud qué archivo o actividad disparó la lentitud.",
            ),
        };
        push_alert(&mut alerts, a);
    }
    let ghost full = st4.0 + service_alerts(iv.services) + if !iv.wpr_available {
        seq![precision_alert()]
    } else {
        Seq::<AlertView>::empty()
    };
    assert(alerts_view(alerts@) =~= full);
    if alerts.len() == 0 {
        overview.primary_severity = Severity::Healthy;
        overview.primary_reason = owned("No se observaron conflictos claros en esta muestra");
        let a = Alert {
            severity: Severity::Healthy,
            title: owned("Estado estable"),
            detail: owned("No aparecieron procesos o conexiones anómalas dominantes en esta captura."),
            pid: None,
            path: None,
            hint: owned("Mantén el monitoreo unos minutos cuando aparezca la lentitud real"),
        };
        push_alert(&mut alerts, a);
    }
    let ghost before_cut = alerts_view(alerts@);
    alerts.truncate(max_alerts);
    assert(alerts_view(alerts@) =~= take(before_cut, max_alerts as int));
    alerts
}


// ---------------------------------------------------------------------------
// Incident of a snapshot
// ---------------------------------------------------------------------------

/// What an incident is derived from: the snapshot's time, headline and alerts,
/// its processes, connections and temporary folders (most relevant first),
/// its anomalies in the order they are reported, and the last trace analysis.
pub struct SnapshotFacts {
    pub collected_at: Timestamp,
    pub primary_severity: Severity,
    pub primary_reason: String,
    pub alerts: Vec<Alert>,
    pub processes: Vec<ProcessReading>,
    pub connections: Vec<ConnectionInsight>,
    pub temp_entries: Vec<TempReading>,
    pub anomalies: Vec<AnomalyEvent>,
    pub trace_analysis: Option<TraceAnalysisSummary>,
}

pub struct SnapshotFactsView {
    pub collected_at: Timestamp,
    pub primary_severity: Severity,
    pub primary_reason: Seq<char>,
    pub alerts: Seq<AlertView>,
    pub processes: Seq<ProcessReadingView>,
    pub connections: Seq<ConnectionInsightView>,
    pub temp_entries: Seq<TempReadingView>,
    pub anomalies: Seq<AnomalyEventView>,
    pub trace_analysis: Option<TraceAnalysisSummaryView>,
}

impl View for SnapshotFacts {
    type V = SnapshotFactsView;

    open spec fn view(&self) -> SnapshotFactsView {
        SnapshotFactsView {
            collected_at: self.collected_at,
            primary_severity: self.primary_severity,
            primary_reason: self.primary_reason@,
            alerts: alerts_view(self.alerts@),
            processes: self.processes@.map_values(|p: ProcessReading| p@),
            connections: self.connections@.map_values(|c: ConnectionInsight| c@),
            temp_entries: self.temp_entries@.map_values(|t: TempReading| t@),
            anomalies: events_view(self.anomalies@),
            trace_analysis: match self.trace_analysis {
                Some(t) => Some(t@),
                None => None,
            },
        }
    }
}

pub open spec fn at_least_warning(s: Severity) -> bool {
    severity_rank(s) >= severity_rank(Severity::Warning)
}

/// The evidence of the given events, one after the other.
pub open spec fn flat_evidence(es: Seq<AnomalyEventView>) -> Seq<IncidentEvidenceView>
    decreases es.len(),
{
    if es.len() == 0 {
        Seq::empty()
    } else {
        flat_evidence(es.drop_last()) + es.last().evidence
    }
}

/// The identifier of an incident: `incident-` and the milliseconds of the
/// snapshot.
pub open spec fn incident_id_spec(at: Timestamp) -> Seq<char> {
    "incident-"@ + int_text(millis(at))
}

/// The actions every anomaly incident recommends after those of its events.
pub open spec fn anomaly_followups() -> Seq<Seq<char>> {
    seq![
        "Exportar snapshot JSON para preservar evidencia tecnica"@,
        "Escanear con antivirus o EDR especializado si la actividad no corresponde al contexto esperado."@,
        "Correlacionar la alerta con historial reciente, servicios y persistencia local."@,
    ]
}

/// The incident of a snapshot with anomalies: led by the first one.
pub open spec fn anomaly_incident(s: SnapshotFactsView) -> IncidentSummaryView {
    let top = s.anomalies[0];
    let five = take(s.anomalies, 5);
    IncidentSummaryView {
        incident_id: incident_id_spec(s.collected_at),
        fingerprint: lower(
            severity_debug_name(crate::models::risk_to_severity(top.severity)) + "|"@ + top.kind + "|"@ + top.title
                + "|"@ + int_text(s.anomalies.len() as int),
        ),
        collected_at: s.collected_at,
        severity: crate::models::risk_to_severity(top.severity),
        kind: top.kind,
        title: top.title,
        summary: top.summary,
        root_cause_hypothesis: top.root_cause_hypothesis,
        probable_causes: dedupe_spec(five.map_values(|e: AnomalyEventView| e.root_cause_hypothesis)),
        recommended_actions: dedupe_spec(
            five.map_values(|e: AnomalyEventView| e.recommended_action) + anomaly_followups(),
        ),
        evidence: take(flat_evidence(take(s.anomalies, 3)), 8),
        risk_level: Some(top.severity),
        risk_score: top.score,
        anomaly_count: s.anomalies.len() as usize,
        anomaly_types: dedupe_spec(s.anomalies.map_values(|e: AnomalyEventView| e.kind)),
        anomaly_events: five,
        has_ai_advice: false,
    }
}

pub open spec fn any_critical_process(ps: Seq<ProcessReadingView>) -> bool {
    exists|i: int| 0 <= i < ps.len() && (#[trigger] ps[i]).severity == Severity::Critical
}

pub open spec fn any_warning_connection(cs: Seq<ConnectionInsightView>) -> bool {
    exists|i: int| 0 <= i < cs.len() && at_least_warning((#[trigger] cs[i]).severity)
}

pub open spec fn any_warning_temp(ts: Seq<TempReadingView>) -> bool {
    exists|i: int| 0 <= i < ts.len() && at_least_warning((#[trigger] ts[i]).severity)
}

/// The kind of an incident without anomalies, by what dominates the snapshot.
pub open spec fn incident_kind_spec(s: SnapshotFactsView) -> Seq<char> {
    if any_critical_process(s.processes) {
        "process-pressure"@
    } else if any_warning_connection(s.connections) {
        "network-anomaly"@
    } else if any_warning_temp(s.temp_entries) {
        "temp-growth"@
    } else if s.trace_analysis is Some {
        "trace-correlation"@
    } else {
        "system-degradation"@
    }
}

/// The title: the first alert's, or the headline reason.
pub open spec fn incident_title_spec(s: SnapshotFactsView) -> Seq<char> {
    if s.alerts.len() > 0 {
        s.alerts[0].title
    } else {
        s.primary_reason
    }
}

pub open spec fn process_evidence(p: ProcessReadingView) -> IncidentEvidenceView {
    IncidentEvidenceView {
        kind: "process"@,
        label: "Proceso dominante "@ + int_text(p.pid as int),
        value: p.name + " | CPU "@ + p.cpu_text + "% | RAM "@ + p.memory_text + " MB | I/O W "@ + p.io_write_text + " MB"@,
    }
}

pub open spec fn connection_evidence(c: ConnectionInsightView) -> IncidentEvidenceView {
    IncidentEvidenceView {
        kind: "connection"@,
        label: "Red "@ + int_text(c.pid as int),
        value: c.process_name + " -> "@ + c.remote_address + " ("@ + c.reason + ")"@,
    }
}

pub open spec fn temp_evidence(t: TempReadingView) -> IncidentEvidenceView {
    IncidentEvidenceView {
        kind: "temp"@,
        label: "Temporal destacado"@,
        value: t.path + " | "@ + t.size_text + " MB | "@ + int_text(t.file_count as int) + " archivos"@,
    }
}

pub open spec fn trace_evidence(t: TraceAnalysisSummaryView) -> IncidentEvidenceView {
    IncidentEvidenceView { kind: "trace"@, label: "Resumen ETL"@, value: t.headline + " | "@ + t.etl_path }
}

/// The evidence of an incident without anomalies: the dominant process, the
/// first connection of concern, the largest temporary folder and the trace.
pub open spec fn incident_evidence_spec(s: SnapshotFactsView) -> Seq<IncidentEvidenceView> {
    (if s.processes.len() > 0 {
        seq![process_evidence(s.processes[0])]
    } else {
        Seq::empty()
    }) + (match first_where(s.connections, |c: ConnectionInsightView| at_least_warning(c.severity)) {
        Some(c) => seq![connection_evidence(c)],
        None => Seq::empty(),
    }) + (if s.temp_entries.len() > 0 {
        seq![temp_evidence(s.temp_entries[0])]
    } else {
        Seq::empty()
    }) + (match s.trace_analysis {
        Some(t) => seq![trace_evidence(t)],
        None => Seq::empty(),
    })
}

/// The probable causes of an incident without anomalies, without repetitions.
pub open spec fn probable_causes_spec(s: SnapshotFactsView) -> Seq<Seq<char>> {
    let causes = (match first_where(s.processes, |p: ProcessReadingView| at_least_warning(p.severity)) {
        Some(p) => take(p.reasons, 3),
        None => Seq::empty(),
    }) + (match first_where(s.connections, |c: ConnectionInsightView| at_least_warning(c.severity)) {
        Some(c) => seq![c.reason],
        None => Seq::empty(),
    }) + (match first_where(s.temp_entries, |t: TempReadingView| at_least_warning(t.severity)) {
        Some(t) => seq![t.note],
        None => Seq::empty(),
    }) + (match s.trace_analysis {
        Some(t) => seq![t.headline],
        None => Seq::empty(),
    });
    dedupe_spec(
        if causes.len() == 0 {
            seq![s.primary_reason]
        } else {
            causes
        },
    )
}

/// The recommended actions of an incident without anomalies, without repetitions.
pub open spec fn recommended_actions_spec(s: SnapshotFactsView) -> Seq<Seq<char>> {
    dedupe_spec(
        seq![
            "Exportar snapshot JSON para preservar evidencia"@,
            "Correlacionar el hallazgo con historial reciente y cambios del sistema"@,
        ] + (if at_least_warning(s.primary_severity) {
            seq!["Capturar ETW/WPR si la degradación sigue activa"@]
        } else {
            Seq::empty()
        }) + (if any_warning_connection(s.connections) {
            seq!["Validar la IP remota y bloquearla solo si confirmas que no corresponde"@]
        } else {
            Seq::empty()
        }) + (if any_critical_process(s.processes) {
            seq!["Revisar command line y ruta del proceso antes de finalizarlo manualmente"@]
        } else {
            Seq::empty()
        }) + (if s.trace_analysis is None {
            seq!["Si no basta la observación liviana, subir a modo de precisión ETW"@]
        } else {
            Seq::empty()
        }),
    )
}

/// The incident of a snapshot without anomalies, led by its headline.
pub open spec fn headline_incident(s: SnapshotFactsView) -> IncidentSummaryView {
    IncidentSummaryView {
        incident_id: incident_id_spec(s.collected_at),
        fingerprint: lower(
            severity_debug_name(s.primary_severity) + "|"@ + incident_kind_spec(s) + "|"@ + incident_title_spec(s),
        ),
        collected_at: s.collected_at,
        severity: s.primary_severity,
        kind: incident_kind_spec(s),
        title: incident_title_spec(s),
        summary: s.primary_reason,
        root_cause_hypothesis: s.primary_reason,
        probable_causes: probable_causes_spec(s),
        recommended_actions: recommended_actions_spec(s),
        evidence: incident_evidence_spec(s),
        risk_level: None,
        risk_score: 0,
        anomaly_count: 0,
        anomaly_types: Seq::empty(),
        anomaly_events: Seq::empty(),
        has_ai_advice: false,
    }
}

/// The incident of a snapshot: led by its first anomaly when there is one;
/// otherwise by its headline, unless the snapshot is healthy and has no trace
/// analysis, which gives no incident.
pub open spec fn incident_spec(s: SnapshotFactsView) -> Option<IncidentSummaryView> {
    if s.anomalies.len() > 0 {
        Some(anomaly_incident(s))
    } else if s.primary_severity == Severity::Healthy && s.trace_analysis is None {
        None
    } else {
        Some(headline_incident(s))
    }
}


fn hypotheses_of(anomalies: &Vec<AnomalyEvent>, n: usize) -> (r: Vec<String>)
    requires
        n <= anomalies@.len(),
    ensures
        strings_view(r@) == events_view(anomalies@).subrange(0, n as int).map_values(
            |e: AnomalyEventView| e.root_cause_hypothesis,
        ),
{
    let mut out: Vec<String> = Vec::new();
    let mut k: usize = 0;
    while k < n
        invariant
            k <= n <= anomalies@.len(),
            out@.len() == k,
            forall|m: int| 0 <= m < k ==> (#[trigger] out@[m])@ == anomalies@[m].root_cause_hypothesis@,
        decreases n - k,
    {
        out.push(anomalies[k].root_cause_hypothesis.clone());
        k = k + 1;
    }
    assert(strings_view(out@) =~= events_view(anomalies@).subrange(0, n as int).map_values(
        |e: AnomalyEventView| e.root_cause_hypothesis,
    ));
    out
}

fn actions_of(anomalies: &Vec<AnomalyEvent>, n: usize) -> (r: Vec<String>)
    requires
        n <= anomalies@.len(),
    ensures
        strings_view(r@) == events_view(anomalies@).subrange(0, n as int).map_values(
            |e: AnomalyEventView| e.recommended_action,
        ),
{
    let mut out: Vec<String> = Vec::new();
    let mut k: usize = 0;
    while k < n
        invariant
            k <= n <= anomalies@.len(),
            out@.len() == k,
            forall|m: int| 0 <= m < k ==> (#[trigger] out@[m])@ == anomalies@[m].recommended_action@,
        decreases n - k,
    {
        out.push(anomalies[k].recommended_action.clone());
        k = k + 1;
    }
    assert(strings_view(out@) =~= events_view(anomalies@).subrange(0, n as int).map_values(
        |e: AnomalyEventView| e.recommended_action,
    ));
    out
}

fn kinds_of(anomalies: &Vec<AnomalyEvent>) -> (r: Vec<String>)
    ensures
        strings_view(r@) == events_view(anomalies@).map_values(|e: AnomalyEventView| e.kind),
{
    let mut out: Vec<String> = Vec::new();
    let mut k: usize = 0;
    while k < anomalies.len()
        invariant
            k <= anomalies@.len(),
            out@.len() == k,
            forall|m: int| 0 <= m < k ==> (#[trigger] out@[m])@ == anomalies@[m].kind@,
        decreases anomalies.len() - k,
    {
        out.push(anomalies[k].kind.clone());
        k = k + 1;
    }
    assert(strings_view(out@) =~= events_view(anomalies@).map_values(|e: AnomalyEventView| e.kind));
    out
}

fn events_evidence(anomalies: &Vec<AnomalyEvent>, n: usize) -> (r: Vec<IncidentEvidence>)
    requires
        n <= anomalies@.len(),
    ensures
        evidence_view(r@) == flat_evidence(events_view(anomalies@).subrange(0, n as int)),
{
    let ghost ev = events_view(anomalies@);
    let mut out: Vec<IncidentEvidence> = Vec::new();
    let mut k: usize = 0;
    while k < n
        invariant
            k <= n <= anomalies@.len(),
            ev == events_view(anomalies@),
            evidence_view(out@) == flat_evidence(ev.subrange(0, k as int)),
        decreases n - k,
    {
        let ghost before = evidence_view(out@);
        let mut more = copy_evidence(&anomalies[k].evidence);
        out.append(&mut more);
        proof {
            let pre = ev.subrange(0, k + 1);
            assert(pre.drop_last() =~= ev.subrange(0, k as int));
            assert(pre.last() == anomalies@[k as int]@);
            assert(evidence_view(out@) =~= before + anomalies@[k as int]@.evidence);
        }
        k = k + 1;
    }
    out
}

fn copy_events(anomalies: &Vec<AnomalyEvent>, n: usize) -> (r: Vec<AnomalyEvent>)
    requires
        n <= anomalies@.len(),
    ensures
        r@.map_values(|e: AnomalyEvent| e@) == events_view(anomalies@).subrange(0, n as int),
{
    let mut out: Vec<AnomalyEvent> = Vec::new();
    let mut k: usize = 0;
    while k < n
        invariant
            k <= n <= anomalies@.len(),
            out@.len() == k,
            forall|m: int| 0 <= m < k ==> (#[trigger] out@[m])@ == anomalies@[m]@,
        decreases n - k,
    {
        out.push(anomalies[k].copy());
        k = k + 1;
    }
    assert(out@.map_values(|e: AnomalyEvent| e@) =~= events_view(anomalies@).subrange(0, n as int));
    out
}

fn incident_id(at: Timestamp) -> (r: String)
    ensures
        r@ == incident_id_spec(at),
{
    let m = int_text_exec(at.millis());
    crate::text::concat2("incident-", m.as_str())
}

fn anomaly_incident_exec(s: &SnapshotFacts) -> (r: IncidentSummary)
    requires
        s.anomalies@.len() > 0,
    ensures
        r@ == anomaly_incident(s@),
{
    let ghost sv = s@;
    let top = &s.anomalies[0];
    assert(sv.anomalies[0] == top@);
    let total = s.anomalies.len();
    let five: usize = if total < 5 {
        total
    } else {
        5
    };
    let three: usize = if total < 3 {
        total
    } else {
        3
    };
    let probable = dedupe(hypotheses_of(&s.anomalies, five));
    let mut actions = actions_of(&s.anomalies, five);
    let ghost first_actions = strings_view(actions@);
    actions.push(owned("Exportar snapshot JSON para preservar evidencia tecnica"));
    actions.push(
        owned("Escanear con antivirus o EDR especializado si la actividad no corresponde al contexto esperado."),
    );
    actions.push(owned("Correlacionar la alerta con historial reciente, servicios y persistencia local."));
    proof {
        assert(strings_view(actions@) =~= first_actions + anomaly_followups());
    }
    let recommended = dedupe(actions);
    let mut evidence = events_evidence(&s.anomalies, three);
    let ghost all_evidence = evidence_view(evidence@);
    evidence.truncate(8);
    let types = dedupe(kinds_of(&s.anomalies));
    let events = copy_events(&s.anomalies, five);
    let severity = top.severity.to_severity();
    let count = int_text_exec(total as i128);
    let raw = join_all(
        &[severity.debug_name(), "|", top.kind.as_str(), "|", top.title.as_str(), "|", count.as_str()],
    );
    proof {
        reveal_with_fuel(concat_all, 8);
    }
    let fingerprint = to_lower(raw.as_str());
    let r = IncidentSummary {
        incident_id: incident_id(s.collected_at),
        fingerprint,
        collected_at: s.collected_at,
        severity,
        kind: top.kind.clone(),
        title: top.title.clone(),
        summary: top.summary.clone(),
        root_cause_hypothesis: top.root_cause_hypothesis.clone(),
        probable_causes: probable,
        recommended_actions: recommended,
        evidence,
        risk_level: Some(top.severity),
        risk_score: top.score,
        anomaly_count: total,
        anomaly_types: types,
        anomaly_events: events,
        ai_advice: None,
    };
    proof {
        let want = anomaly_incident(sv);
        assert(take(sv.anomalies, 5) =~= sv.anomalies.subrange(0, five as int));
        assert(take(sv.anomalies, 3) =~= sv.anomalies.subrange(0, three as int));
        assert(r@.evidence =~= want.evidence);
        assert(r@.anomaly_events =~= want.anomaly_events);
        assert(r@.probable_causes =~= want.probable_causes);
        assert(r@.recommended_actions =~= want.recommended_actions);
        assert(r@.anomaly_types =~= want.anomaly_types);
        assert(r@.fingerprint =~= want.fingerprint);
    }
    r
}


fn any_critical_process_exec(ps: &Vec<ProcessReading>) -> (r: bool)
    ensures
        r == any_critical_process(ps@.map_values(|p: ProcessReading| p@)),
{
    let ghost v = ps@.map_values(|p: ProcessReading| p@);
    let mut i: usize = 0;
    while i < ps.len()
        invariant
            i <= ps@.len(),
            v == ps@.map_values(|p: ProcessReading| p@),
            forall|m: int| 0 <= m < i ==> (#[trigger] v[m]).severity != Severity::Critical,
        decreases ps.len() - i,
    {
        assert(v[i as int] == ps@[i as int]@);
        if ps[i].severity == Severity::Critical {
            return true;
        }
        i = i + 1;
    }
    false
}

fn any_warning_connection_exec(cs: &Vec<ConnectionInsight>) -> (r: bool)
    ensures
        r == any_warning_connection(cs@.map_values(|c: ConnectionInsight| c@)),
{
    let ghost v = cs@.map_values(|c: ConnectionInsight| c@);
    let mut i: usize = 0;
    while i < cs.len()
        invariant
            i <= cs@.len(),
            v == cs@.map_values(|c: ConnectionInsight| c@),
            forall|m: int| 0 <= m < i ==> !at_least_warning((#[trigger] v[m]).severity),
        decreases cs.len() - i,
    {
        assert(v[i as int] == cs@[i as int]@);
        if cs[i].severity.rank() >= Severity::Warning.rank() {
            return true;
        }
        i = i + 1;
    }
    false
}

fn any_warning_temp_exec(ts: &Vec<TempReading>) -> (r: bool)
    ensures
        r == any_warning_temp(ts@.map_values(|t: TempReading| t@)),
{
    let ghost v = ts@.map_values(|t: TempReading| t@);
    let mut i: usize = 0;
    while i < ts.len()
        invariant
            i <= ts@.len(),
            v == ts@.map_values(|t: TempReading| t@),
            forall|m: int| 0 <= m < i ==> !at_least_warning((#[trigger] v[m]).severity),
        decreases ts.len() - i,
    {
        assert(v[i as int] == ts@[i as int]@);
        if ts[i].severity.rank() >= Severity::Warning.rank() {
            return true;
        }
        i = i + 1;
    }
    false
}

fn first_warning_process(ps: &Vec<ProcessReading>) -> (r: usize)
    ensures
        r as int == first_index(
            ps@.map_values(|p: ProcessReading| p@),
            |p: ProcessReadingView| at_least_warning(p.severity),
            0,
        ),
{
    let ghost v = ps@.map_values(|p: ProcessReading| p@);
    let ghost pred = |p: ProcessReadingView| at_least_warning(p.severity);
    let mut i: usize = 0;
    while i < ps.len() && ps[i].severity.rank() < Severity::Warning.rank()
        invariant
            i <= ps@.len(),
            v == ps@.map_values(|p: ProcessReading| p@),
            pred == (|p: ProcessReadingView| at_least_warning(p.severity)),
            first_index(v, pred, 0) == first_index(v, pred, i as int),
        decreases ps.len() - i,
    {
        assert(v[i as int] == ps@[i as int]@);
        i = i + 1;
    }
    if i < ps.len() {
        assert(v[i as int] == ps@[i as int]@);
    }
    i
}

fn first_warning_connection(cs: &Vec<ConnectionInsight>) -> (r: usize)
    ensures
        r as int == first_index(
            cs@.map_values(|c: ConnectionInsight| c@),
            |c: ConnectionInsightView| at_least_warning(c.severity),
            0,
        ),
{
    let ghost v = cs@.map_values(|c: ConnectionInsight| c@);
    let ghost pred = |c: ConnectionInsightView| at_least_warning(c.severity);
    let mut i: usize = 0;
    while i < cs.len() && cs[i].severity.rank() < Severity::Warning.rank()
        invariant
            i <= cs@.len(),
            v == cs@.map_values(|c: ConnectionInsight| c@),
            pred == (|c: ConnectionInsightView| at_least_warning(c.severity)),
            first_index(v, pred, 0) == first_index(v, pred, i as int),
        decreases cs.len() - i,
    {
        assert(v[i as int] == cs@[i as int]@);
        i = i + 1;
    }
    if i < cs.len() {
        assert(v[i as int] == cs@[i as int]@);
    }
    i
}

fn first_warning_temp(ts: &Vec<TempReading>) -> (r: usize)
    ensures
        r as int == first_index(
            ts@.map_values(|t: TempReading| t@),
            |t: TempReadingView| at_least_warning(t.severity),
            0,
        ),
{
    let ghost v = ts@.map_values(|t: TempReading| t@);
    let ghost pred = |t: TempReadingView| at_least_warning(t.severity);
    let mut i: usize = 0;
    while i < ts.len() && ts[i].severity.rank() < Severity::Warning.rank()
        invariant
            i <= ts@.len(),
            v == ts@.map_values(|t: TempReading| t@),
            pred == (|t: TempReadingView| at_least_warning(t.severity)),
            first_index(v, pred, 0) == first_index(v, pred, i as int),
        decreases ts.len() - i,
    {
        assert(v[i as int] == ts@[i as int]@);
        i = i + 1;
    }
    if i < ts.len() {
        assert(v[i as int] == ts@[i as int]@);
    }
    i
}

fn incident_kind_exec(s: &SnapshotFacts) -> (r: String)
    ensures
        r@ == incident_kind_spec(s@),
{
    if any_critical_process_exec(&s.processes) {
        owned("process-pressure")
    } else if any_warning_connection_exec(&s.connections) {
        owned("network-anomaly")
    } else if any_warning_temp_exec(&s.temp_entries) {
        owned("temp-growth")
    } else if s.trace_analysis.is_some() {
        owned("trace-correlation")
    } else {
        owned("system-degradation")
    }
}

fn incident_title_exec(s: &SnapshotFacts) -> (r: String)
    ensures
        r@ == incident_title_spec(s@),
{
    if s.alerts.len() > 0 {
        s.alerts[0].title.clone()
    } else {
        s.primary_reason.clone()
    }
}

fn push_evidence(v: &mut Vec<IncidentEvidence>, e: IncidentEvidence)
    ensures
        evidence_view(final(v)@) == evidence_view(old(v)@).push(e@),
{
    let ghost before = evidence_view(v@);
    let ghost ev = e@;
    v.push(e);
    assert(evidence_view(v@) =~= before.push(ev));
}

fn incident_evidence_exec(s: &SnapshotFacts) -> (r: Vec<IncidentEvidence>)
    ensures
        evidence_view(r@) == incident_evidence_spec(s@),
{
    let ghost sv = s@;
    let mut out: Vec<IncidentEvidence> = Vec::new();
    proof {
        reveal_with_fuel(concat_all, 10);
    }
    if s.processes.len() > 0 {
        let p = &s.processes[0];
        let pid = int_text_exec(p.pid as i128);
        let label = crate::text::concat2("Proceso dominante ", pid.as_str());
        let value = join_all(
            &[
                p.name.as_str(),
                " | CPU ",
                p.cpu_text.as_str(),
                "% | RAM ",
                p.memory_text.as_str(),
                " MB | I/O W ",
                p.io_write_text.as_str(),
                " MB",
            ],
        );
        push_evidence(&mut out, IncidentEvidence::new("process", label.as_str(), value));
        assert(sv.processes[0] == p@);
    }
    let ghost e1 = evidence_view(out@);
    let ci = first_warning_connection(&s.connections);
    proof {
        lemma_first_index(sv.connections, |c: ConnectionInsightView| at_least_warning(c.severity), 0);
    }
    if ci < s.connections.len() {
        let c = &s.connections[ci];
        let pid = int_text_exec(c.pid as i128);
        let label = crate::text::concat2("Red ", pid.as_str());
        let value = join_all(
            &[c.process_name.as_str(), " -> ", c.remote_address.as_str(), " (", c.reason.as_str(), ")"],
        );
        push_evidence(&mut out, IncidentEvidence::new("connection", label.as_str(), value));
        assert(sv.connections[ci as int] == c@);
    }
    let ghost e2 = evidence_view(out@);
    if s.temp_entries.len() > 0 {
        let t = &s.temp_entries[0];
        let count = int_text_exec(t.file_count as i128);
        let value = join_all(&[t.path.as_str(), " | ", t.size_text.as_str(), " MB | ", count.as_str(), " archivos"]);
        push_evidence(&mut out, IncidentEvidence::new("temp", "Temporal destacado", value));
        assert(sv.temp_entries[0] == t@);
    }
    let ghost e3 = evidence_view(out@);
    match &s.trace_analysis {
        Some(t) => {
            let value = join_all(&[t.headline.as_str(), " | ", t.etl_path.as_str()]);
            push_evidence(&mut out, IncidentEvidence::new("trace", "Resumen ETL", value));
        },
        None => {},
    }
    proof {
        reveal_strlit("process");
        reveal_strlit("connection");
        reveal_strlit("temp");
        reveal_strlit("trace");
        assert(evidence_view(out@) =~= incident_evidence_spec(sv));
    }
    out
}


fn push_string(v: &mut Vec<String>, t: String)
    ensures
        strings_view(final(v)@) == strings_view(old(v)@).push(t@),
{
    let ghost before = strings_view(v@);
    let ghost tv = t@;
    v.push(t);
    assert(strings_view(v@) =~= before.push(tv));
}

fn probable_causes_exec(s: &SnapshotFacts) -> (r: Vec<String>)
    ensures
        strings_view(r@) == probable_causes_spec(s@),
{
    let ghost sv = s@;
    let mut causes: Vec<String> = Vec::new();
    let pi = first_warning_process(&s.processes);
    proof {
        lemma_first_index(sv.processes, |p: ProcessReadingView| at_least_warning(p.severity), 0);
    }
    if pi < s.processes.len() {
        let p = &s.processes[pi];
        assert(sv.processes[pi as int] == p@);
        let n: usize = if p.reasons.len() < 3 {
            p.reasons.len()
        } else {
            3
        };
        let mut k: usize = 0;
        while k < n
            invariant
                k <= n <= p.reasons@.len(),
                causes@.len() == k,
                forall|m: int| 0 <= m < k ==> (#[trigger] causes@[m])@ == p.reasons@[m]@,
            decreases n - k,
        {
            causes.push(p.reasons[k].clone());
            k = k + 1;
        }
        assert(strings_view(causes@) =~= take(p@.reasons, 3));
    } else {
        assert(strings_view(causes@) =~= Seq::<Seq<char>>::empty());
    }
    let ghost c1 = strings_view(causes@);
    let ci = first_warning_connection(&s.connections);
    proof {
        lemma_first_index(sv.connections, |c: ConnectionInsightView| at_least_warning(c.severity), 0);
    }
    if ci < s.connections.len() {
        assert(sv.connections[ci as int] == s.connections@[ci as int]@);
        push_string(&mut causes, s.connections[ci].reason.clone());
    }
    let ti = first_warning_temp(&s.temp_entries);
    proof {
        lemma_first_index(sv.temp_entries, |t: TempReadingView| at_least_warning(t.severity), 0);
    }
    if ti < s.temp_entries.len() {
        assert(sv.temp_entries[ti as int] == s.temp_entries@[ti as int]@);
        push_string(&mut causes, s.temp_entries[ti].note.clone());
    }
    match &s.trace_analysis {
        Some(t) => {
            push_string(&mut causes, t.headline.clone());
        },
        None => {},
    }
    if causes.len() == 0 {
        push_string(&mut causes, s.primary_reason.clone());
    }
    proof {
        let raw = (match first_where(sv.processes, |p: ProcessReadingView| at_least_warning(p.severity)) {
            Some(p) => take(p.reasons, 3),
            None => Seq::empty(),
        }) + (match first_where(sv.connections, |c: ConnectionInsightView| at_least_warning(c.severity)) {
            Some(c) => seq![c.reason],
            None => Seq::empty(),
        }) + (match first_where(sv.temp_entries, |t: TempReadingView| at_least_warning(t.severity)) {
            Some(t) => seq![t.note],
            None => Seq::empty(),
        }) + (match sv.trace_analysis {
            Some(t) => seq![t.headline],
            None => Seq::empty(),
        });
        let want = if raw.len() == 0 {
            seq![sv.primary_reason]
        } else {
            raw
        };
        assert(strings_view(causes@) =~= want);
    }
    dedupe(causes)
}

fn recommended_actions_exec(s: &SnapshotFacts) -> (r: Vec<String>)
    ensures
        strings_view(r@) == recommended_actions_spec(s@),
{
    let ghost sv = s@;
    let mut actions: Vec<String> = Vec::new();
    push_string(&mut actions, owned("Exportar snapshot JSON para preservar evidencia"));
    push_string(&mut actions, owned("Correlacionar el hallazgo con historial reciente y cambios del sistema"));
    if s.primary_severity.rank() >= Severity::Warning.rank() {
        push_string(&mut actions, owned("Capturar ETW/WPR si la degradación sigue activa"));
    }
    if any_warning_connection_exec(&s.connections) {
        push_string(&mut actions, owned("Validar la IP remota y bloquearla solo si confirmas que no corresponde"));
    }
    if any_critical_process_exec(&s.processes) {
        push_string(&mut actions, owned("Revisar command line y ruta del proceso antes de finalizarlo manualmente"));
    }
    if s.trace_analysis.is_none() {
        push_string(&mut actions, owned("Si no basta la observación liviana, subir a modo de precisión ETW"));
    }
    proof {
        let want = seq![
            "Exportar snapshot JSON para preservar evidencia"@,
            "Correlacionar el hallazgo con historial reciente y cambios del sistema"@,
        ] + (if at_least_warning(sv.primary_severity) {
            seq!["Capturar ETW/WPR si la degradación sigue activa"@]
        } else {
            Seq::empty()
        }) + (if any_warning_connection(sv.connections) {
            seq!["Validar la IP remota y bloquearla solo si confirmas que no corresponde"@]
        } else {
            Seq::empty()
        }) + (if any_critical_process(sv.processes) {
            seq!["Revisar command line y ruta del proceso antes de finalizarlo manualmente"@]
        } else {
            Seq::empty()
        }) + (if sv.trace_analysis is None {
            seq!["Si no basta la observación liviana, subir a modo de precisión ETW"@]
        } else {
            Seq::empty()
        });
        assert(strings_view(actions@) =~= want);
    }
    dedupe(actions)
}

fn headline_incident_exec(s: &SnapshotFacts) -> (r: IncidentSummary)
    ensures
        r@ == headline_incident(s@),
{
    let kind = incident_kind_exec(s);
    let title = incident_title_exec(s);
    let raw = join_all(&[s.primary_severity.debug_name(), "|", kind.as_str(), "|", title.as_str()]);
    proof {
        reveal_with_fuel(concat_all, 6);
    }
    let fingerprint = to_lower(raw.as_str());
    let r = IncidentSummary {
        incident_id: incident_id(s.collected_at),
        fingerprint,
        collected_at: s.collected_at,
        severity: s.primary_severity,
        kind,
        title,
        summary: s.primary_reason.clone(),
        root_cause_hypothesis: s.primary_reason.clone(),
        probable_causes: probable_causes_exec(s),
        recommended_actions: recommended_actions_exec(s),
        evidence: incident_evidence_exec(s),
        risk_level: None,
        risk_score: 0,
        anomaly_count: 0,
        anomaly_types: Vec::new(),
        anomaly_events: Vec::new(),
        ai_advice: None,
    };
    proof {
        let want = headline_incident(s@);
        assert(r@.anomaly_types =~= want.anomaly_types);
        assert(r@.anomaly_events =~= want.anomaly_events);
        assert(r@.fingerprint =~= want.fingerprint);
    }
    r
}

/// Derives the incident of a snapshot (see [`incident_spec`]).
pub fn derive_incident(snapshot: &SnapshotFacts) -> (r: Option<IncidentSummary>)
    ensures
        match r {
            Some(i) => incident_spec(snapshot@) == Some(i@),
            None => incident_spec(snapshot@) is None,
        },
{
    if snapshot.anomalies.len() > 0 {
        return Some(anomaly_incident_exec(snapshot));
    }
    if snapshot.primary_severity == Severity::Healthy && snapshot.trace_analysis.is_none() {
        return None;
    }
    Some(headline_incident_exec(snapshot))
}


// ---------------------------------------------------------------------------
// Laws
// ---------------------------------------------------------------------------

/// A snapshot never ends with more than `max_alerts` alerts, and with at
/// least one when `max_alerts` allows it.
pub proof fn lemma_alert_count(i: AlertInputsView, h: HeadlineView, max_alerts: usize)
    ensures
        alerts_spec(i, h, max_alerts).0.len() <= max_alerts,
        max_alerts > 0 ==> alerts_spec(i, h, max_alerts).0.len() > 0,
{
}

/// The causes, actions and kinds an incident lists never repeat.
pub proof fn lemma_incident_lists_without_repetitions(s: SnapshotFactsView)
    ensures
        (incident_spec(s) matches Some(inc) ==> inc.probable_causes.no_duplicates()
            && inc.recommended_actions.no_duplicates() && inc.anomaly_types.no_duplicates()),
{
    let five = take(s.anomalies, 5);
    lemma_dedupe_keeps_each_item_once(five.map_values(|e: AnomalyEventView| e.root_cause_hypothesis));
    lemma_dedupe_keeps_each_item_once(five.map_values(|e: AnomalyEventView| e.recommended_action) + anomaly_followups());
    lemma_dedupe_keeps_each_item_once(s.anomalies.map_values(|e: AnomalyEventView| e.kind));
    let causes = (match first_where(s.processes, |p: ProcessReadingView| at_least_warning(p.severity)) {
        Some(p) => take(p.reasons, 3),
        None => Seq::empty(),
    }) + (match first_where(s.connections, |c: ConnectionInsightView| at_least_warning(c.severity)) {
        Some(c) => seq![c.reason],
        None => Seq::empty(),
    }) + (match first_where(s.temp_entries, |t: TempReadingView| at_least_warning(t.severity)) {
        Some(t) => seq![t.note],
        None => Seq::empty(),
    }) + (match s.trace_analysis {
        Some(t) => seq![t.headline],
        None => Seq::empty(),
    });
    lemma_dedupe_keeps_each_item_once(
        if causes.len() == 0 {
            seq![s.primary_reason]
        } else {
            causes
        },
    );
    lemma_dedupe_keeps_each_item_once(
        seq![
            "Exportar snapshot JSON para preservar evidencia"@,
            "Correlacionar el hallazgo con historial reciente y cambios del sistema"@,
        ] + (if at_least_warning(s.primary_severity) {
            seq!["Capturar ETW/WPR si la degradación sigue activa"@]
        } else {
            Seq::empty()
        }) + (if any_warning_connection(s.connections) {
            seq!["Validar la IP remota y bloquearla solo si confirmas que no corresponde"@]
        } else {
            Seq::empty()
        }) + (if any_critical_process(s.processes) {
            seq!["Revisar command line y ruta del proceso antes de finalizarlo manualmente"@]
        } else {
            Seq::empty()
        }) + (if s.trace_analysis is None {
            seq!["Si no basta la observación liviana, subir a modo de precisión ETW"@]
        } else {
            Seq::empty()
        }),
    );
    assert(Seq::<Seq<char>>::empty().no_duplicates());
}

/// A healthy snapshot without anomalies and without a trace analysis gives
/// no incident; any other gives one, led by the first anomaly when there is
/// one.
pub proof fn lemma_incident_presence(s: SnapshotFactsView)
    ensures
        (incident_spec(s) is None) <==> (s.anomalies.len() == 0 && s.primary_severity == Severity::Healthy
            && s.trace_analysis is None),
        s.anomalies.len() > 0 ==> (incident_spec(s) matches Some(inc) && inc.kind == s.anomalies[0].kind
            && inc.risk_score == s.anomalies[0].score && inc.risk_level == Some(s.anomalies[0].severity)),
{
}

} // verus!
