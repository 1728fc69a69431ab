//! Forensic activity report in Markdown.
//!
//! A report turns one capture into a readable, archivable document: health
//! verdict, incident and anomalies (security indications), alerts, baseline
//! changes (persistence), riskiest processes, public outbound connections and
//! temporary folders. Findings are indications with evidence, not verdicts.
//!
//! Dates, versions and measurements arrive rendered as text; the report
//! decides what is shown, in which order and how much of it.

use crate::etl::take;
use crate::interface::{sev_word, sev_word_spec};
use crate::models::{
    change_label, risk_label, strings_view, AgentStatus, Alert, AlertView, AnomalyEvent, AnomalyEventView,
    ConnectionInsight, ConnectionInsightView, IncidentSummary, IncidentSummaryView, PersistenceChange,
    PersistenceEntry, PersistenceEntryView, Severity,
};
use crate::order::{
    insert_pos, lemma_stable_sort_sorted, lemma_stable_sort_step, sorted_by, stable_insert, stable_sort, strict_order,
};
use crate::rules::{TempReading, TempReadingView};
use crate::text::{concat_all, int_text, int_text_exec, join_all, join_strings, join_with, owned};
use vstd::prelude::*;

verus! {

/// A process as the report lists it, its measurements rendered (CPU with one
/// decimal, memory without decimals, writes with one decimal).
pub struct ReportProcess {
    pub name: String,
    pub pid: u32,
    pub score: u8,
    pub cpu_text: String,
    pub memory_text: String,
    pub io_write_text: String,
}

pub struct ReportProcessView {
    pub name: Seq<char>,
    pub pid: u32,
    pub score: u8,
    pub cpu_text: Seq<char>,
    pub memory_text: Seq<char>,
    pub io_write_text: Seq<char>,
}

impl View for ReportProcess {
    type V = ReportProcessView;

    open spec fn view(&self) -> ReportProcessView {
        ReportProcessView {
            name: self.name@,
            pid: self.pid,
            score: self.score,
            cpu_text: self.cpu_text@,
            memory_text: self.memory_text@,
            io_write_text: self.io_write_text@,
        }
    }
}

/// What a report is made of. Dates come in local time as `%Y-%m-%d %H:%M:%S`;
/// the measurements come rendered (CPU, RAM and the rest with one decimal,
/// the RAM percentage and the watched temporary total without decimals).
pub struct ReportFacts {
    pub generated_at: String,
    pub captured_at: String,
    pub version: String,
    pub host_name: String,
    pub os_name: String,
    pub os_version: String,
    pub cpu_brand: String,
    pub cpu_cores: usize,
    pub total_ram_text: String,
    pub primary_severity: Severity,
    pub primary_reason: String,
    pub cpu_text: String,
    pub memory_used_text: String,
    pub memory_total_text: String,
    pub ram_percent_text: String,
    pub io_write_text: String,
    pub io_read_text: String,
    pub network_rx_text: String,
    pub network_tx_text: String,
    pub temp_total_text: String,
    pub incident: Option<IncidentSummary>,
    pub anomalies: Vec<AnomalyEvent>,
    pub alerts: Vec<Alert>,
    pub persistence_entries: Vec<PersistenceEntry>,
    pub processes: Vec<ReportProcess>,
    pub connections: Vec<ConnectionInsight>,
    pub temp_entries: Vec<TempReading>,
    pub agent_status: AgentStatus,
    pub agent_summary: String,
}

pub struct ReportFactsView {
    pub generated_at: Seq<char>,
    pub captured_at: Seq<char>,
    pub version: Seq<char>,
    pub host_name: Seq<char>,
    pub os_name: Seq<char>,
    pub os_version: Seq<char>,
    pub cpu_brand: Seq<char>,
    pub cpu_cores: usize,
    pub total_ram_text: Seq<char>,
    pub primary_severity: Severity,
    pub primary_reason: Seq<char>,
    pub cpu_text: Seq<char>,
    pub memory_used_text: Seq<char>,
    pub memory_total_text: Seq<char>,
    pub ram_percent_text: Seq<char>,
    pub io_write_text: Seq<char>,
    pub io_read_text: Seq<char>,
    pub network_rx_text: Seq<char>,
    pub network_tx_text: Seq<char>,
    pub temp_total_text: Seq<char>,
    pub incident: Option<IncidentSummaryView>,
    pub anomalies: Seq<AnomalyEventView>,
    pub alerts: Seq<AlertView>,
    pub persistence_entries: Seq<PersistenceEntryView>,
    pub processes: Seq<ReportProcessView>,
    pub connections: Seq<ConnectionInsightView>,
    pub temp_entries: Seq<TempReadingView>,
    pub agent_status: AgentStatus,
    pub agent_summary: Seq<char>,
}

impl View for ReportFacts {
    type V = ReportFactsView;

    open spec fn view(&self) -> ReportFactsView {
        ReportFactsView {
            generated_at: self.generated_at@,
            captured_at: self.captured_at@,
            version: self.version@,
            host_name: self.host_name@,
            os_name: self.os_name@,
            os_version: self.os_version@,
            cpu_brand: self.cpu_brand@,
            cpu_cores: self.cpu_cores,
            total_ram_text: self.total_ram_text@,
            primary_severity: self.primary_severity,
            primary_reason: self.primary_reason@,
            cpu_text: self.cpu_text@,
            memory_used_text: self.memory_used_text@,
            memory_total_text: self.memory_total_text@,
            ram_percent_text: self.ram_percent_text@,
            io_write_text: self.io_write_text@,
            io_read_text: self.io_read_text@,
            network_rx_text: self.network_rx_text@,
            network_tx_text: self.network_tx_text@,
            temp_total_text: self.temp_total_text@,
            incident: match self.incident {
                Some(i) => Some(i@),
                None => None,
            },
            anomalies: self.anomalies@.map_values(|e: AnomalyEvent| e@),
            alerts: self.alerts@.map_values(|a: Alert| a@),
            persistence_entries: self.persistence_entries@.map_values(|e: PersistenceEntry| e@),
            processes: self.processes@.map_values(|p: ReportProcess| p@),
            connections: self.connections@.map_values(|c: ConnectionInsight| c@),
            temp_entries: self.temp_entries@.map_values(|t: TempReading| t@),
            agent_status: self.agent_status,
            agent_summary: self.agent_summary@,
        }
    }
}

// ---------------------------------------------------------------------------
// The document
// ---------------------------------------------------------------------------

/// The text of a list of lines, each ended by a line break.
pub open spec fn lines_text(lines: Seq<Seq<char>>) -> Seq<char>
    decreases lines.len(),
{
    if lines.len() == 0 {
        Seq::empty()
    } else {
        lines_text(lines.drop_last()) + lines.last() + "\n"@
    }
}

/// How many alerts have this severity.
pub open spec fn count_severity(alerts: Seq<AlertView>, sev: Severity) -> nat
    decreases alerts.len(),
{
    if alerts.len() == 0 {
        0
    } else {
        count_severity(alerts.drop_last(), sev) + if alerts.last().severity == sev {
            1nat
        } else {
            0nat
        }
    }
}

pub open spec fn agent_status_label(s: AgentStatus) -> Seq<char> {
    match s {
        AgentStatus::Healthy => "Saludable"@,
        AgentStatus::Degraded => "Degradado"@,
        AgentStatus::Recovered => "Recuperado"@,
    }
}

/// Title, dates, version, the machine when known, and the notice.
pub open spec fn header_lines(f: ReportFactsView) -> Seq<Seq<char>> {
    seq![
        "# Reporte forense — RootCause Windows Inspector"@,
        ""@,
        "- **Generado:** "@ + f.generated_at,
        "- **Captura analizada:** "@ + f.captured_at,
        "- **Versión:** RootCause v"@ + f.version,
    ] + (if f.host_name.len() > 0 {
        seq![
            "- **Equipo:** "@ + f.host_name + " · "@ + f.os_name + " "@ + f.os_version + " · "@ + f.cpu_brand + " · "@
                + int_text(f.cpu_cores as int) + " núcleos · "@ + f.total_ram_text + " GB RAM"@,
        ]
    } else {
        Seq::empty()
    }) + seq![
        ""@,
        "> Reporte de **indicios** con evidencia (no veredictos). RootCause es un software forense de ciberseguridad; complementa a tu antivirus/EDR, no lo reemplaza."@,
        ""@,
    ]
}

/// The health section: overall state, dominant reason when there is one, and how
/// many critical and warning alerts.
pub open spec fn verdict_lines(f: ReportFactsView) -> Seq<Seq<char>> {
    seq!["## Veredicto"@, "- **Estado general:** "@ + sev_word_spec(f.primary_severity)] + (if f.primary_reason.len()
        > 0 {
        seq!["- **Motivo dominante:** "@ + f.primary_reason]
    } else {
        Seq::empty()
    }) + seq![
        "- **Alertas:** "@ + int_text(count_severity(f.alerts, Severity::Critical) as int) + " crítica(s) · "@
            + int_text(count_severity(f.alerts, Severity::Warning) as int) + " aviso(s)"@,
        ""@,
    ]
}

/// The table of measurements.
pub open spec fn metric_lines(f: ReportFactsView) -> Seq<Seq<char>> {
    seq![
        "## Métricas en la captura"@,
        "| Recurso | Valor |"@,
        "|---|---|"@,
        "| CPU | "@ + f.cpu_text + "% |"@,
        "| RAM | "@ + f.memory_used_text + " / "@ + f.memory_total_text + " GB ("@ + f.ram_percent_text + "%) |"@,
        "| Disco I/O | escritura "@ + f.io_write_text + " MB · lectura "@ + f.io_read_text + " MB |"@,
        "| Red | Rx "@ + f.network_rx_text + " MB · Tx "@ + f.network_tx_text + " MB |"@,
        "| Temporales vigilados | "@ + f.temp_total_text + " MB |"@,
        ""@,
    ]
}

/// Title, risk, hypothesis and signals of an incident.
pub open spec fn incident_head_lines(i: IncidentSummaryView) -> Seq<Seq<char>> {
    seq!["## Incidente / causa raíz"@, "- **"@ + i.title + "**"@] + (match i.risk_level {
        Some(r) => seq!["- Riesgo: "@ + risk_label(r) + " (score "@ + int_text(i.risk_score as int) + ")"@],
        None => Seq::empty(),
    }) + (if i.root_cause_hypothesis.len() > 0 {
        seq!["- Hipótesis: "@ + i.root_cause_hypothesis]
    } else {
        Seq::empty()
    }) + (if i.anomaly_types.len() > 0 {
        seq!["- Señales: "@ + join_with(i.anomaly_types, ", "@)]
    } else {
        Seq::empty()
    })
}

/// The line of a suggested action.
pub open spec fn action_line(a: Seq<char>) -> Seq<char> {
    "  - Acción sugerida: "@ + a
}

/// The incident, when there is one: title, risk, hypothesis, signals and up
/// to four suggested actions.
pub open spec fn incident_lines(inc: Option<IncidentSummaryView>) -> Seq<Seq<char>> {
    match inc {
        None => Seq::empty(),
        Some(i) => incident_head_lines(i) + take(i.recommended_actions, 4).map_values(|a: Seq<char>| action_line(a))
            + seq![""@],
    }
}

/// The line of an anomaly.
pub open spec fn anomaly_line(a: AnomalyEventView) -> Seq<char> {
    "- **"@ + a.title + "** `"@ + a.kind + "` · "@ + (match a.process_name {
        Some(n) => n,
        None => "—"@,
    }) + " (score "@ + int_text(a.score as int) + ") — "@ + a.summary
}

/// Up to fifteen anomalies, when there are any.
pub open spec fn anomaly_lines(es: Seq<AnomalyEventView>) -> Seq<Seq<char>> {
    if es.len() == 0 {
        Seq::empty()
    } else {
        seq!["## Indicios de comportamiento (anomalías)"@] + take(
            es.map_values(|a: AnomalyEventView| anomaly_line(a)),
            15,
        ) + seq![""@]
    }
}

/// The lines of an alert: the alert, then its path when it has one.
pub open spec fn alert_item_lines(a: AlertView) -> Seq<Seq<char>> {
    seq![
        "- ["@ + sev_word_spec(a.severity) + "] **"@ + a.title + "**"@ + (match a.pid {
            Some(p) => " (PID "@ + int_text(p as int) + ")"@,
            None => Seq::empty(),
        }) + " — "@ + a.detail,
    ] + match a.path {
        Some(p) => seq!["  - `"@ + p + "`"@],
        None => Seq::empty(),
    }
}

/// The lines of several alerts, one after the other.
pub open spec fn alerts_item_lines(alerts: Seq<AlertView>) -> Seq<Seq<char>>
    decreases alerts.len(),
{
    if alerts.len() == 0 {
        Seq::empty()
    } else {
        alerts_item_lines(alerts.drop_last()) + alert_item_lines(alerts.last())
    }
}

/// Up to ten alerts, when there are any.
pub open spec fn alert_lines(alerts: Seq<AlertView>) -> Seq<Seq<char>> {
    if alerts.len() == 0 {
        Seq::empty()
    } else {
        seq!["## Dónde mirar primero"@] + alerts_item_lines(take(alerts, 10)) + seq![""@]
    }
}

/// The autostart entries that changed, in order.
pub open spec fn changed_entries(es: Seq<PersistenceEntryView>) -> Seq<PersistenceEntryView> {
    crate::tracker::keep(es, |e: PersistenceEntryView| e.change_status != PersistenceChange::Unchanged)
}

/// The line of a changed autostart entry.
pub open spec fn change_line(e: PersistenceEntryView) -> Seq<char> {
    "- **"@ + change_label(e.change_status) + "** · "@ + e.entry_kind + " — "@ + e.name + " `"@ + e.command + "`"@
}

/// Up to twenty changed autostart entries, when there are any.
pub open spec fn change_lines(es: Seq<PersistenceEntryView>) -> Seq<Seq<char>> {
    let changed = changed_entries(es);
    if changed.len() == 0 {
        Seq::empty()
    } else {
        seq!["## Cambios de autoarranque vs línea base (persistencia)"@] + take(
            changed.map_values(|e: PersistenceEntryView| change_line(e)),
            20,
        ) + seq![""@]
    }
}

/// Processes by decreasing score, ties in their order.
pub open spec fn by_score(ps: Seq<ReportProcessView>) -> Seq<ReportProcessView> {
    stable_sort(ps, |a: ReportProcessView, b: ReportProcessView| a.score > b.score)
}

/// The row of a process.
pub open spec fn process_line(p: ReportProcessView) -> Seq<char> {
    "| "@ + p.name + " | "@ + int_text(p.pid as int) + " | "@ + p.cpu_text + "% | "@ + p.memory_text + " MB | "@
        + p.io_write_text + " MB | "@ + int_text(p.score as int) + " |"@
}

/// The ten riskiest processes, when there are any.
pub open spec fn process_lines(ps: Seq<ReportProcessView>) -> Seq<Seq<char>> {
    if ps.len() == 0 {
        Seq::empty()
    } else {
        seq![
            "## Procesos de mayor riesgo"@,
            "| Proceso | PID | CPU | RAM | Escr. disco | Riesgo |"@,
            "|---|---:|---:|---:|---:|---:|"@,
        ] + take(by_score(ps).map_values(|p: ReportProcessView| process_line(p)), 10) + seq![""@]
    }
}

/// The connections to a public address, in order.
pub open spec fn public_connections(cs: Seq<ConnectionInsightView>) -> Seq<ConnectionInsightView> {
    crate::tracker::keep(cs, |c: ConnectionInsightView| c.is_public_remote)
}

/// The row of a connection.
pub open spec fn connection_line(c: ConnectionInsightView) -> Seq<char> {
    "| "@ + c.process_name + " | "@ + int_text(c.pid as int) + " | "@ + c.remote_address + " | "@ + c.state + " |"@
}

/// Up to fifteen connections to public addresses, when there are any.
pub open spec fn connection_lines(cs: Seq<ConnectionInsightView>) -> Seq<Seq<char>> {
    let public = public_connections(cs);
    if public.len() == 0 {
        Seq::empty()
    } else {
        seq![
            "## Conexiones salientes a IP pública"@,
            "| Proceso | PID | Destino | Estado |"@,
            "|---|---:|---|---|"@,
        ] + take(public.map_values(|c: ConnectionInsightView| connection_line(c)), 15) + seq![""@]
    }
}

/// The line of a temporary folder.
pub open spec fn temp_line(t: TempReadingView) -> Seq<char> {
    "- "@ + t.size_text + " MB — `"@ + t.path + "`"@
}

/// Up to eight temporary folders, when there are any.
pub open spec fn temp_lines(ts: Seq<TempReadingView>) -> Seq<Seq<char>> {
    if ts.len() == 0 {
        Seq::empty()
    } else {
        seq!["## Temporales de mayor tamaño"@] + take(ts.map_values(|t: TempReadingView| temp_line(t)), 8) + seq![
            ""@,
        ]
    }
}

/// The agent's state, its summary when there is one, and the closing note.
pub open spec fn closing_lines(f: ReportFactsView) -> Seq<Seq<char>> {
    seq!["## Salud del agente RootCause"@, "- Estado: "@ + agent_status_label(f.agent_status)] + (if f.agent_summary.len()
        > 0 {
        seq!["- "@ + f.agent_summary]
    } else {
        Seq::empty()
    }) + seq![
        ""@,
        "---\n_Generado por RootCause v"@ + f.version
            + ". Los hallazgos son indicios para investigar, no confirmaciones de amenaza._"@,
    ]
}

/// The lines of the report, section by section.
pub open spec fn report_lines(f: ReportFactsView) -> Seq<Seq<char>> {
    header_lines(f) + verdict_lines(f) + metric_lines(f) + incident_lines(f.incident) + anomaly_lines(f.anomalies)
        + alert_lines(f.alerts) + change_lines(f.persistence_entries) + process_lines(f.processes)
        + connection_lines(f.connections) + temp_lines(f.temp_entries) + closing_lines(f)
}


// ---------------------------------------------------------------------------
// Building it
// ---------------------------------------------------------------------------

fn push_line(v: &mut Vec<String>, l: String)
    ensures
        strings_view(final(v)@) == strings_view(old(v)@).push(l@),
{
    let ghost before = strings_view(v@);
    let ghost lv = l@;
    v.push(l);
    assert(strings_view(v@) =~= before.push(lv));
}

fn push_joined(v: &mut Vec<String>, parts: &[&str])
    ensures
        strings_view(final(v)@) == strings_view(old(v)@).push(concat_all(crate::text::strs_view(parts@))),
{
    push_line(v, join_all(parts));
}

fn header_section(f: &ReportFacts, v: &mut Vec<String>)
    ensures
        strings_view(final(v)@) == strings_view(old(v)@) + header_lines(f@),
{
    let ghost start = strings_view(v@);
    proof {
        reveal_with_fuel(concat_all, 17);
    }
    push_line(v, owned("# Reporte forense — RootCause Windows Inspector"));
    push_line(v, owned(""));
    push_joined(v, &["- **Generado:** ", f.generated_at.as_str()]);
    push_joined(v, &["- **Captura analizada:** ", f.captured_at.as_str()]);
    push_joined(v, &["- **Versión:** RootCause v", f.version.as_str()]);
    if f.host_name.unicode_len() > 0 {
        let cores = int_text_exec(f.cpu_cores as i128);
        push_joined(
            v,
            &[
                "- **Equipo:** ",
                f.host_name.as_str(),
                " · ",
                f.os_name.as_str(),
                " ",
                f.os_version.as_str(),
                " · ",
                f.cpu_brand.as_str(),
                " · ",
                cores.as_str(),
                " núcleos · ",
                f.total_ram_text.as_str(),
                " GB RAM",
            ],
        );
    }
    push_line(v, owned(""));
    push_line(
        v,
        owned(
            "> Reporte de **indicios** con evidencia (no veredictos). RootCause es un software forense de ciberseguridad; complementa a tu antivirus/EDR, no lo reemplaza.",
        ),
    );
    push_line(v, owned(""));
    assert(strings_view(v@) =~= start + header_lines(f@));
}

fn count_alerts(alerts: &Vec<Alert>, sev: Severity) -> (r: usize)
    ensures
        r as int == count_severity(alerts@.map_values(|a: Alert| a@), sev),
{
    let ghost av = alerts@.map_values(|a: Alert| a@);
    let mut n: usize = 0;
    let mut i: usize = 0;
    while i < alerts.len()
        invariant
            i <= alerts@.len(),
            av == alerts@.map_values(|a: Alert| a@),
            n as int == count_severity(av.subrange(0, i as int), sev),
            n <= i,
        decreases alerts.len() - i,
    {
        proof {
            let pre = av.subrange(0, i + 1);
            assert(pre.drop_last() =~= av.subrange(0, i as int));
            assert(pre.last() == alerts@[i as int]@);
        }
        if alerts[i].severity == sev {
            n = n + 1;
        }
        i = i + 1;
    }
    assert(av.subrange(0, av.len() as int) =~= av);
    n
}

fn verdict_section(f: &ReportFacts, v: &mut Vec<String>)
    ensures
        strings_view(final(v)@) == strings_view(old(v)@) + verdict_lines(f@),
{
    let ghost start = strings_view(v@);
    proof {
        reveal_with_fuel(concat_all, 6);
    }
    push_line(v, owned("## Veredicto"));
    push_joined(v, &["- **Estado general:** ", sev_word(f.primary_severity)]);
    if f.primary_reason.unicode_len() > 0 {
        push_joined(v, &["- **Motivo dominante:** ", f.primary_reason.as_str()]);
    }
    let crit = int_text_exec(count_alerts(&f.alerts, Severity::Critical) as i128);
    let warn = int_text_exec(count_alerts(&f.alerts, Severity::Warning) as i128);
    push_joined(v, &["- **Alertas:** ", crit.as_str(), " crítica(s) · ", warn.as_str(), " aviso(s)"]);
    push_line(v, owned(""));
    assert(strings_view(v@) =~= start + verdict_lines(f@));
}

fn metric_section(f: &ReportFacts, v: &mut Vec<String>)
    ensures
        strings_view(final(v)@) == strings_view(old(v)@) + metric_lines(f@),
{
    let ghost start = strings_view(v@);
    proof {
        reveal_with_fuel(concat_all, 8);
    }
    push_line(v, owned("## Métricas en la captura"));
    push_line(v, owned("| Recurso | Valor |"));
    push_line(v, owned("|---|---|"));
    push_joined(v, &["| CPU | ", f.cpu_text.as_str(), "% |"]);
    push_joined(
        v,
        &[
            "| RAM | ",
            f.memory_used_text.as_str(),
            " / ",
            f.memory_total_text.as_str(),
            " GB (",
            f.ram_percent_text.as_str(),
            "%) |",
        ],
    );
    push_joined(
        v,
        &["| Disco I/O | escritura ", f.io_write_text.as_str(), " MB · lectura ", f.io_read_text.as_str(), " MB |"],
    );
    push_joined(v, &["| Red | Rx ", f.network_rx_text.as_str(), " MB · Tx ", f.network_tx_text.as_str(), " MB |"]);
    push_joined(v, &["| Temporales vigilados | ", f.temp_total_text.as_str(), " MB |"]);
    push_line(v, owned(""));
    assert(strings_view(v@) =~= start + metric_lines(f@));
}

fn incident_head(i: &IncidentSummary, v: &mut Vec<String>)
    ensures
        strings_view(final(v)@) == strings_view(old(v)@) + incident_head_lines(i@),
{
    let ghost start = strings_view(v@);
    proof {
        reveal_with_fuel(concat_all, 6);
    }
    push_line(v, owned("## Incidente / causa raíz"));
    push_joined(v, &["- **", i.title.as_str(), "**"]);
    match i.risk_level {
        Some(r) => {
            let score = int_text_exec(i.risk_score as i128);
            push_joined(v, &["- Riesgo: ", r.label(), " (score ", score.as_str(), ")"]);
        },
        None => {},
    }
    if i.root_cause_hypothesis.unicode_len() > 0 {
        push_joined(v, &["- Hipótesis: ", i.root_cause_hypothesis.as_str()]);
    }
    if i.anomaly_types.len() > 0 {
        let signals = join_strings(&i.anomaly_types, ", ");
        proof {
            assert(i.anomaly_types@.map_values(|p: String| p@) =~= strings_view(i.anomaly_types@));
        }
        push_joined(v, &["- Señales: ", signals.as_str()]);
    }
    assert(strings_view(v@) =~= start + incident_head_lines(i@));
}

fn action_section(actions: &Vec<String>, v: &mut Vec<String>)
    ensures
        strings_view(final(v)@) == strings_view(old(v)@) + take(strings_view(actions@), 4).map_values(
            |a: Seq<char>| action_line(a),
        ),
{
    let ghost start = strings_view(v@);
    let ghost n0 = start.len();
    let n: usize = if actions.len() < 4 {
        actions.len()
    } else {
        4
    };
    let mut k: usize = 0;
    while k < n
        invariant
            k <= n <= actions@.len(),
            n0 == start.len(),
            strings_view(v@).len() == n0 + k,
            forall|m: int| 0 <= m < n0 ==> #[trigger] strings_view(v@)[m] == start[m],
            forall|m: int| 0 <= m < k ==> #[trigger] strings_view(v@)[n0 + m] == action_line(actions@[m]@),
        decreases n - k,
    {
        proof {
            reveal_with_fuel(concat_all, 3);
        }
        push_joined(v, &["  - Acción sugerida: ", actions[k].as_str()]);
        k = k + 1;
    }
    let ghost want = start + take(strings_view(actions@), 4).map_values(|a: Seq<char>| action_line(a));
    assert(take(strings_view(actions@), 4).len() == n);
    assert forall|m: int| 0 <= m < want.len() implies #[trigger] strings_view(v@)[m] == want[m] by {
        if m >= n0 {
            assert(strings_view(v@)[n0 + (m - n0)] == action_line(actions@[m - n0]@));
        }
    }
    assert(strings_view(v@) =~= want);
}

fn incident_section(incident: &Option<IncidentSummary>, v: &mut Vec<String>)
    ensures
        strings_view(final(v)@) == strings_view(old(v)@) + incident_lines(
            match incident {
                Some(i) => Some(i@),
                None => None,
            },
        ),
{
    let ghost start = strings_view(v@);
    match incident {
        None => {
            assert(strings_view(v@) =~= start + Seq::<Seq<char>>::empty());
        },
        Some(i) => {
            incident_head(i, v);
            action_section(&i.recommended_actions, v);
            push_line(v, owned(""));
            assert(strings_view(v@) =~= start + incident_lines(Some(i@)));
        },
    }
}

fn push_first(v: &mut Vec<String>, lines: &Vec<String>, n: usize)
    ensures
        strings_view(final(v)@) == strings_view(old(v)@) + take(strings_view(lines@), n as int),
{
    let ghost start = strings_view(v@);
    let ghost n0 = start.len();
    let m: usize = if lines.len() < n {
        lines.len()
    } else {
        n
    };
    let mut k: usize = 0;
    while k < m
        invariant
            k <= m <= lines@.len(),
            m <= n,
            n0 == start.len(),
            strings_view(v@).len() == n0 + k,
            forall|j: int| 0 <= j < n0 ==> #[trigger] strings_view(v@)[j] == start[j],
            forall|j: int| 0 <= j < k ==> #[trigger] strings_view(v@)[n0 + j] == lines@[j]@,
        decreases m - k,
    {
        push_line(v, lines[k].clone());
        k = k + 1;
    }
    let ghost want = start + take(strings_view(lines@), n as int);
    assert(take(strings_view(lines@), n as int).len() == m);
    assert forall|j: int| 0 <= j < want.len() implies #[trigger] strings_view(v@)[j] == want[j] by {
        if j >= n0 {
            assert(strings_view(v@)[n0 + (j - n0)] == lines@[j - n0]@);
        }
    }
    assert(strings_view(v@) =~= want);
}

fn anomaly_line_exec(a: &AnomalyEvent) -> (r: String)
    ensures
        r@ == anomaly_line(a@),
{
    let who: &str = match &a.process_name {
        Some(n) => n.as_str(),
        None => "—",
    };
    let score = int_text_exec(a.score as i128);
    let r = join_all(
        &["- **", a.title.as_str(), "** `", a.kind.as_str(), "` · ", who, " (score ", score.as_str(), ") — ", a.summary.as_str()],
    );
    proof {
        reveal_with_fuel(concat_all, 11);
    }
    r
}

fn anomaly_section(es: &Vec<AnomalyEvent>, v: &mut Vec<String>)
    ensures
        strings_view(final(v)@) == strings_view(old(v)@) + anomaly_lines(es@.map_values(|e: AnomalyEvent| e@)),
{
    let ghost ev = es@.map_values(|e: AnomalyEvent| e@);
    let ghost start = strings_view(v@);
    if es.len() == 0 {
        assert(strings_view(v@) =~= start + anomaly_lines(ev));
        return;
    }
    let mut lines: Vec<String> = Vec::new();
    let mut k: usize = 0;
    while k < es.len()
        invariant
            k <= es@.len(),
            lines@.len() == k,
            forall|j: int| 0 <= j < k ==> (#[trigger] lines@[j])@ == anomaly_line(es@[j]@),
        decreases es.len() - k,
    {
        lines.push(anomaly_line_exec(&es[k]));
        k = k + 1;
    }
    assert(strings_view(lines@) =~= ev.map_values(|a: AnomalyEventView| anomaly_line(a)));
    push_line(v, owned("## Indicios de comportamiento (anomalías)"));
    push_first(v, &lines, 15);
    push_line(v, owned(""));
    assert(strings_view(v@) =~= start + anomaly_lines(ev));
}

fn alert_item_exec(a: &Alert, v: &mut Vec<String>)
    ensures
        strings_view(final(v)@) == strings_view(old(v)@) + alert_item_lines(a@),
{
    let ghost start = strings_view(v@);
    let pid = match a.pid {
        Some(p) => {
            let t = int_text_exec(p as i128);
            let r = join_all(&[" (PID ", t.as_str(), ")"]);
            proof {
                reveal_with_fuel(concat_all, 4);
            }
            r
        },
        None => {
            let r = String::new();
            r
        },
    };
    assert(pid@ == (match a.pid {
        Some(p) => " (PID "@ + int_text(p as int) + ")"@,
        None => Seq::<char>::empty(),
    }));
    proof {
        reveal_with_fuel(concat_all, 9);
    }
    push_joined(v, &["- [", sev_word(a.severity), "] **", a.title.as_str(), "**", pid.as_str(), " — ", a.detail.as_str()]);
    match &a.path {
        Some(p) => {
            push_joined(v, &["  - `", p.as_str(), "`"]);
        },
        None => {},
    }
    assert(strings_view(v@) =~= start + alert_item_lines(a@));
}

fn alert_section(alerts: &Vec<Alert>, v: &mut Vec<String>)
    ensures
        strings_view(final(v)@) == strings_view(old(v)@) + alert_lines(alerts@.map_values(|a: Alert| a@)),
{
    let ghost av = alerts@.map_values(|a: Alert| a@);
    let ghost start = strings_view(v@);
    if alerts.len() == 0 {
        assert(strings_view(v@) =~= start + alert_lines(av));
        return;
    }
    push_line(v, owned("## Dónde mirar primero"));
    let ghost head = strings_view(v@);
    let n: usize = if alerts.len() < 10 {
        alerts.len()
    } else {
        10
    };
    let mut k: usize = 0;
    while k < n
        invariant
            k <= n <= alerts@.len(),
            av == alerts@.map_values(|a: Alert| a@),
            strings_view(v@) == head + alerts_item_lines(av.subrange(0, k as int)),
        decreases n - k,
    {
        let ghost before = strings_view(v@);
        alert_item_exec(&alerts[k], v);
        proof {
            let pre = av.subrange(0, k + 1);
            assert(pre.drop_last() =~= av.subrange(0, k as int));
            assert(pre.last() == alerts@[k as int]@);
            assert(strings_view(v@) =~= head + alerts_item_lines(av.subrange(0, k + 1)));
        }
        k = k + 1;
    }
    push_line(v, owned(""));
    assert(take(av, 10) =~= av.subrange(0, n as int));
    assert(strings_view(v@) =~= start + alert_lines(av));
}


fn change_line_exec(e: &PersistenceEntry) -> (r: String)
    ensures
        r@ == change_line(e@),
{
    let r = join_all(
        &["- **", e.change_status.label(), "** · ", e.entry_kind.as_str(), " — ", e.name.as_str(), " `", e.command.as_str(), "`"],
    );
    proof {
        reveal_with_fuel(concat_all, 10);
    }
    r
}

fn change_section(es: &Vec<PersistenceEntry>, v: &mut Vec<String>)
    ensures
        strings_view(final(v)@) == strings_view(old(v)@) + change_lines(es@.map_values(|e: PersistenceEntry| e@)),
{
    let ghost ev = es@.map_values(|e: PersistenceEntry| e@);
    let ghost pred = |e: PersistenceEntryView| e.change_status != PersistenceChange::Unchanged;
    let ghost start = strings_view(v@);
    let mut lines: Vec<String> = Vec::new();
    let mut k: usize = 0;
    while k < es.len()
        invariant
            k <= es@.len(),
            ev == es@.map_values(|e: PersistenceEntry| e@),
            pred == (|e: PersistenceEntryView| e.change_status != PersistenceChange::Unchanged),
            strings_view(lines@) == crate::tracker::keep(ev.subrange(0, k as int), pred).map_values(
                |e: PersistenceEntryView| change_line(e),
            ),
        decreases es.len() - k,
    {
        let ghost before = strings_view(lines@);
        proof {
            let pre = ev.subrange(0, k + 1);
            assert(pre.drop_last() =~= ev.subrange(0, k as int));
            assert(pre.last() == es@[k as int]@);
        }
        if es[k].change_status.is_change() {
            let l = change_line_exec(&es[k]);
            let ghost lv = l@;
            lines.push(l);
            assert(strings_view(lines@) =~= before.push(lv));
        }
        assert(strings_view(lines@) =~= crate::tracker::keep(ev.subrange(0, k + 1), pred).map_values(
            |e: PersistenceEntryView| change_line(e),
        ));
        k = k + 1;
    }
    assert(ev.subrange(0, ev.len() as int) =~= ev);
    if lines.len() == 0 {
        assert(strings_view(v@) =~= start + change_lines(ev));
        return;
    }
    push_line(v, owned("## Cambios de autoarranque vs línea base (persistencia)"));
    push_first(v, &lines, 20);
    push_line(v, owned(""));
    assert(strings_view(v@) =~= start + change_lines(ev));
}

fn connection_line_exec(c: &ConnectionInsight) -> (r: String)
    ensures
        r@ == connection_line(c@),
{
    let pid = int_text_exec(c.pid as i128);
    let r = join_all(
        &["| ", c.process_name.as_str(), " | ", pid.as_str(), " | ", c.remote_address.as_str(), " | ", c.state.as_str(), " |"],
    );
    proof {
        reveal_with_fuel(concat_all, 10);
    }
    r
}

fn connection_section(cs: &Vec<ConnectionInsight>, v: &mut Vec<String>)
    ensures
        strings_view(final(v)@) == strings_view(old(v)@) + connection_lines(
            cs@.map_values(|c: ConnectionInsight| c@),
        ),
{
    let ghost cv = cs@.map_values(|c: ConnectionInsight| c@);
    let ghost pred = |c: ConnectionInsightView| c.is_public_remote;
    let ghost start = strings_view(v@);
    let mut lines: Vec<String> = Vec::new();
    let mut k: usize = 0;
    while k < cs.len()
        invariant
            k <= cs@.len(),
            cv == cs@.map_values(|c: ConnectionInsight| c@),
            pred == (|c: ConnectionInsightView| c.is_public_remote),
            strings_view(lines@) == crate::tracker::keep(cv.subrange(0, k as int), pred).map_values(
                |c: ConnectionInsightView| connection_line(c),
            ),
        decreases cs.len() - k,
    {
        let ghost before = strings_view(lines@);
        proof {
            let pre = cv.subrange(0, k + 1);
            assert(pre.drop_last() =~= cv.subrange(0, k as int));
            assert(pre.last() == cs@[k as int]@);
        }
        if cs[k].is_public_remote {
            let l = connection_line_exec(&cs[k]);
            let ghost lv = l@;
            lines.push(l);
            assert(strings_view(lines@) =~= before.push(lv));
        }
        assert(strings_view(lines@) =~= crate::tracker::keep(cv.subrange(0, k + 1), pred).map_values(
            |c: ConnectionInsightView| connection_line(c),
        ));
        k = k + 1;
    }
    assert(cv.subrange(0, cv.len() as int) =~= cv);
    if lines.len() == 0 {
        assert(strings_view(v@) =~= start + connection_lines(cv));
        return;
    }
    push_line(v, owned("## Conexiones salientes a IP pública"));
    push_line(v, owned("| Proceso | PID | Destino | Estado |"));
    push_line(v, owned("|---|---:|---|---|"));
    push_first(v, &lines, 15);
    push_line(v, owned(""));
    assert(strings_view(v@) =~= start + connection_lines(cv));
}

fn temp_section(ts: &Vec<TempReading>, v: &mut Vec<String>)
    ensures
        strings_view(final(v)@) == strings_view(old(v)@) + temp_lines(ts@.map_values(|t: TempReading| t@)),
{
    let ghost tv = ts@.map_values(|t: TempReading| t@);
    let ghost start = strings_view(v@);
    if ts.len() == 0 {
        assert(strings_view(v@) =~= start + temp_lines(tv));
        return;
    }
    let mut lines: Vec<String> = Vec::new();
    let mut k: usize = 0;
    while k < ts.len()
        invariant
            k <= ts@.len(),
            lines@.len() == k,
            forall|j: int| 0 <= j < k ==> (#[trigger] lines@[j])@ == temp_line(ts@[j]@),
        decreases ts.len() - k,
    {
        let l = join_all(&["- ", ts[k].size_text.as_str(), " MB — `", ts[k].path.as_str(), "`"]);
        proof {
            reveal_with_fuel(concat_all, 6);
        }
        lines.push(l);
        k = k + 1;
    }
    assert(strings_view(lines@) =~= tv.map_values(|t: TempReadingView| temp_line(t)));
    push_line(v, owned("## Temporales de mayor tamaño"));
    push_first(v, &lines, 8);
    push_line(v, owned(""));
    assert(strings_view(v@) =~= start + temp_lines(tv));
}

fn closing_section(f: &ReportFacts, v: &mut Vec<String>)
    ensures
        strings_view(final(v)@) == strings_view(old(v)@) + closing_lines(f@),
{
    let ghost start = strings_view(v@);
    proof {
        reveal_with_fuel(concat_all, 4);
    }
    push_line(v, owned("## Salud del agente RootCause"));
    push_joined(v, &["- Estado: ", f.agent_status.label()]);
    if f.agent_summary.unicode_len() > 0 {
        push_joined(v, &["- ", f.agent_summary.as_str()]);
    }
    push_line(v, owned(""));
    push_joined(
        v,
        &[
            "---\n_Generado por RootCause v",
            f.version.as_str(),
            ". Los hallazgos son indicios para investigar, no confirmaciones de amenaza._",
        ],
    );
    assert(strings_view(v@) =~= start + closing_lines(f@));
}


fn copy_process(p: &ReportProcess) -> (r: ReportProcess)
    ensures
        r@ == p@,
{
    ReportProcess {
        name: p.name.clone(),
        pid: p.pid,
        score: p.score,
        cpu_text: p.cpu_text.clone(),
        memory_text: p.memory_text.clone(),
        io_write_text: p.io_write_text.clone(),
    }
}

pub open spec fn processes_view(v: Seq<ReportProcess>) -> Seq<ReportProcessView> {
    v.map_values(|p: ReportProcess| p@)
}

fn insert_by_score(out: &mut Vec<ReportProcess>, x: ReportProcess)
    ensures
        processes_view(final(out)@) == stable_insert(
            processes_view(old(out)@),
            x@,
            |a: ReportProcessView, b: ReportProcessView| a.score > b.score,
        ),
{
    let ghost less = |a: ReportProcessView, b: ReportProcessView| a.score > b.score;
    let ghost s = processes_view(out@);
    let mut p: usize = 0;
    while p < out.len() && !(x.score > out[p].score)
        invariant
            p <= out.len(),
            less == (|a: ReportProcessView, b: ReportProcessView| a.score > b.score),
            s == processes_view(out@),
            s.len() == out@.len(),
            insert_pos(s, x@, less, 0) == insert_pos(s, x@, less, p as int),
        decreases out.len() - p,
    {
        assert(s[p as int] == out@[p as int]@);
        p = p + 1;
    }
    proof {
        if p < out.len() {
            assert(s[p as int] == out@[p as int]@);
        }
        assert(insert_pos(s, x@, less, p as int) == p as int);
    }
    let ghost xv = x@;
    out.insert(p, x);
    assert(processes_view(out@) =~= s.insert(p as int, xv));
}

fn sorted_by_score(ps: &Vec<ReportProcess>) -> (r: Vec<ReportProcess>)
    ensures
        processes_view(r@) == by_score(processes_view(ps@)),
{
    let ghost less = |a: ReportProcessView, b: ReportProcessView| a.score > b.score;
    let ghost all = processes_view(ps@);
    let mut out: Vec<ReportProcess> = Vec::new();
    let mut k: usize = 0;
    while k < ps.len()
        invariant
            k <= ps@.len(),
            all == processes_view(ps@),
            less == (|a: ReportProcessView, b: ReportProcessView| a.score > b.score),
            processes_view(out@) == stable_sort(all.subrange(0, k as int), less),
        decreases ps.len() - k,
    {
        proof {
            lemma_stable_sort_step(all, k as int, less);
            assert(all[k as int] == ps@[k as int]@);
        }
        insert_by_score(&mut out, copy_process(&ps[k]));
        k = k + 1;
    }
    assert(all.subrange(0, all.len() as int) =~= all);
    out
}

fn process_line_exec(p: &ReportProcess) -> (r: String)
    ensures
        r@ == process_line(p@),
{
    let pid = int_text_exec(p.pid as i128);
    let score = int_text_exec(p.score as i128);
    let r = join_all(
        &[
            "| ",
            p.name.as_str(),
            " | ",
            pid.as_str(),
            " | ",
            p.cpu_text.as_str(),
            "% | ",
            p.memory_text.as_str(),
            " MB | ",
            p.io_write_text.as_str(),
            " MB | ",
            score.as_str(),
            " |",
        ],
    );
    proof {
        reveal_with_fuel(concat_all, 14);
    }
    r
}

fn process_section(ps: &Vec<ReportProcess>, v: &mut Vec<String>)
    ensures
        strings_view(final(v)@) == strings_view(old(v)@) + process_lines(processes_view(ps@)),
{
    let ghost start = strings_view(v@);
    if ps.len() == 0 {
        assert(strings_view(v@) =~= start + process_lines(processes_view(ps@)));
        return;
    }
    let sorted = sorted_by_score(ps);
    let mut lines: Vec<String> = Vec::new();
    let mut k: usize = 0;
    while k < sorted.len()
        invariant
            k <= sorted@.len(),
            lines@.len() == k,
            forall|j: int| 0 <= j < k ==> (#[trigger] lines@[j])@ == process_line(sorted@[j]@),
        decreases sorted.len() - k,
    {
        lines.push(process_line_exec(&sorted[k]));
        k = k + 1;
    }
    assert(strings_view(lines@) =~= processes_view(sorted@).map_values(|p: ReportProcessView| process_line(p)));
    push_line(v, owned("## Procesos de mayor riesgo"));
    push_line(v, owned("| Proceso | PID | CPU | RAM | Escr. disco | Riesgo |"));
    push_line(v, owned("|---|---:|---:|---:|---:|---:|"));
    push_first(v, &lines, 10);
    push_line(v, owned(""));
    assert(strings_view(v@) =~= start + process_lines(processes_view(ps@)));
}

fn render_lines(lines: &Vec<String>) -> (r: String)
    ensures
        r@ == lines_text(strings_view(lines@)),
{
    let ghost lv = strings_view(lines@);
    let mut out = String::new();
    let mut k: usize = 0;
    while k < lines.len()
        invariant
            k <= lines@.len(),
            lv == strings_view(lines@),
            out@ == lines_text(lv.subrange(0, k as int)),
        decreases lines.len() - k,
    {
        proof {
            let pre = lv.subrange(0, k + 1);
            assert(pre.drop_last() =~= lv.subrange(0, k as int));
            assert(pre.last() == lines@[k as int]@);
            reveal_with_fuel(concat_all, 4);
        }
        out = join_all(&[out.as_str(), lines[k].as_str(), "\n"]);
        k = k + 1;
    }
    assert(lv.subrange(0, lv.len() as int) =~= lv);
    out
}

/// Builds the forensic report of a capture (see [`report_lines`]): every line
/// ended by a line break.
pub fn build_report(facts: &ReportFacts) -> (r: String)
    ensures
        r@ == lines_text(report_lines(facts@)),
{
    let ghost f = facts@;
    let mut lines: Vec<String> = Vec::new();
    header_section(facts, &mut lines);
    verdict_section(facts, &mut lines);
    metric_section(facts, &mut lines);
    incident_section(&facts.incident, &mut lines);
    anomaly_section(&facts.anomalies, &mut lines);
    alert_section(&facts.alerts, &mut lines);
    change_section(&facts.persistence_entries, &mut lines);
    process_section(&facts.processes, &mut lines);
    connection_section(&facts.connections, &mut lines);
    temp_section(&facts.temp_entries, &mut lines);
    closing_section(facts, &mut lines);
    assert(strings_view(lines@) =~= report_lines(f));
    render_lines(&lines)
}


// ---------------------------------------------------------------------------
// Laws
// ---------------------------------------------------------------------------

/// The processes of a report come by decreasing score.
pub proof fn lemma_report_processes_by_score(ps: Seq<ReportProcessView>)
    ensures
        forall|i: int, j: int| 0 <= i < j < by_score(ps).len() ==> (#[trigger] by_score(ps)[i]).score >= (#[trigger] by_score(ps)[j]).score,
{
    let less = |a: ReportProcessView, b: ReportProcessView| a.score > b.score;
    assert(strict_order(less));
    lemma_stable_sort_sorted(ps, less);
}

/// The alerts counted as critical and as warnings never outnumber the alerts.
pub proof fn lemma_alert_counts_bounded(alerts: Seq<AlertView>)
    ensures
        count_severity(alerts, Severity::Critical) + count_severity(alerts, Severity::Warning) <= alerts.len(),
    decreases alerts.len(),
{
    if alerts.len() > 0 {
        lemma_alert_counts_bounded(alerts.drop_last());
    }
}

} // verus!
