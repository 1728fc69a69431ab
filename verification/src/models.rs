//! Domain model of the inspector: severities, alerts, evidence, persistence
//! entries, connections, services, trace summaries and agent health.
//!
//! Timestamps are carried as [`Timestamp`] (seconds since the Unix epoch plus
//! the sub-second nanoseconds), the same two numbers a UTC date-time holds.
//! Floating-point measurements are carried by their IEEE-754 bit pattern
//! (`f32::to_bits`) where the library only passes them along.

use vstd::prelude::*;

verus! {

/// Visual severity for the main traffic light and the detail tables.
#[derive(Debug, Clone, Copy, PartialEq, Eq, Structural, Default)]
pub enum Severity {
    #[default]
    Healthy,
    Warning,
    Critical,
}

/// Position of a severity in its order `Healthy < Warning < Critical`.
pub open spec fn severity_rank(s: Severity) -> int {
    match s {
        Severity::Healthy => 0,
        Severity::Warning => 1,
        Severity::Critical => 2,
    }
}

impl Severity {
    /// Human label for the interface.
    pub fn label(self) -> (r: &'static str)
        ensures
            r@ == match self {
                Severity::Healthy => "Verde"@,
                Severity::Warning => "Amarillo"@,
                Severity::Critical => "Rojo"@,
            },
    {
        match self {
            Severity::Healthy => "Verde",
            Severity::Warning => "Amarillo",
            Severity::Critical => "Rojo",
        }
    }

    /// Position in the order `Healthy < Warning < Critical`.
    pub fn rank(self) -> (r: u8)
        ensures
            r as int == severity_rank(self),
    {
        match self {
            Severity::Healthy => 0,
            Severity::Warning => 1,
            Severity::Critical => 2,
        }
    }

    /// The name `Debug` prints for the variant.
    pub fn debug_name(self) -> (r: &'static str)
        ensures
            r@ == severity_debug_name(self),
    {
        match self {
            Severity::Healthy => "Healthy",
            Severity::Warning => "Warning",
            Severity::Critical => "Critical",
        }
    }
}

/// The variant name of a severity, as `{:?}` writes it.
pub open spec fn severity_debug_name(s: Severity) -> Seq<char> {
    match s {
        Severity::Healthy => "Healthy"@,
        Severity::Warning => "Warning"@,
        Severity::Critical => "Critical"@,
    }
}

/// Severity of the anomaly and risk module.
#[derive(Debug, Clone, Copy, PartialEq, Eq, Structural, Default)]
pub enum RiskLevel {
    #[default]
    Low,
    Medium,
    High,
    Critical,
}

/// Position of a risk level in `Low < Medium < High < Critical`.
pub open spec fn risk_rank(r: RiskLevel) -> int {
    match r {
        RiskLevel::Low => 0,
        RiskLevel::Medium => 1,
        RiskLevel::High => 2,
        RiskLevel::Critical => 3,
    }
}

/// The traffic-light severity of a risk level.
pub open spec fn risk_to_severity(r: RiskLevel) -> Severity {
    match r {
        RiskLevel::Low => Severity::Healthy,
        RiskLevel::Medium => Severity::Warning,
        RiskLevel::High | RiskLevel::Critical => Severity::Critical,
    }
}

/// The label of a risk level.
pub open spec fn risk_label(r: RiskLevel) -> Seq<char> {
    match r {
        RiskLevel::Low => "Bajo"@,
        RiskLevel::Medium => "Medio"@,
        RiskLevel::High => "Alto"@,
        RiskLevel::Critical => "Critico"@,
    }
}

impl RiskLevel {
    pub fn label(self) -> (r: &'static str)
        ensures
            r@ == risk_label(self),
    {
        match self {
            RiskLevel::Low => "Bajo",
            RiskLevel::Medium => "Medio",
            RiskLevel::High => "Alto",
            RiskLevel::Critical => "Critico",
        }
    }

    pub fn to_severity(self) -> (r: Severity)
        ensures
            r == risk_to_severity(self),
    {
        match self {
            RiskLevel::Low => Severity::Healthy,
            RiskLevel::Medium => Severity::Warning,
            RiskLevel::High | RiskLevel::Critical => Severity::Critical,
        }
    }

    /// Position in `Low < Medium < High < Critical`.
    pub fn rank(self) -> (r: u8)
        ensures
            r as int == risk_rank(self),
    {
        match self {
            RiskLevel::Low => 0,
            RiskLevel::Medium => 1,
            RiskLevel::High => 2,
            RiskLevel::Critical => 3,
        }
    }
}

/// Operating state of the RootCause agent itself.
#[derive(Debug, Clone, Copy, PartialEq, Eq, Structural, Default)]
pub enum AgentStatus {
    #[default]
    Healthy,
    Degraded,
    Recovered,
}

impl AgentStatus {
    pub fn label(self) -> (r: &'static str)
        ensures
            r@ == match self {
                AgentStatus::Healthy => "Saludable"@,
                AgentStatus::Degraded => "Degradado"@,
                AgentStatus::Recovered => "Recuperado"@,
            },
    {
        match self {
            AgentStatus::Healthy => "Saludable",
            AgentStatus::Degraded => "Degradado",
            AgentStatus::Recovered => "Recuperado",
        }
    }
}

/// State of a watched entry with respect to the known baseline.
#[derive(Debug, Clone, Copy, PartialEq, Eq, Structural, Default)]
pub enum PersistenceChange {
    /// Same as in the baseline (or no baseline yet).
    #[default]
    Unchanged,
    /// New entry that was not in the baseline.
    Added,
    /// Entry that existed but changed its value.
    Modified,
    /// Entry that was in the baseline and no longer appears.
    Removed,
}

/// Short label of a change state.
pub open spec fn change_label(c: PersistenceChange) -> Seq<char> {
    match c {
        PersistenceChange::Unchanged => ""@,
        PersistenceChange::Added => "NUEVA"@,
        PersistenceChange::Modified => "MODIFICADA"@,
        PersistenceChange::Removed => "ELIMINADA"@,
    }
}

impl PersistenceChange {
    /// Short label for UI/CLI.
    pub fn label(self) -> (r: &'static str)
        ensures
            r@ == change_label(self),
    {
        match self {
            PersistenceChange::Unchanged => "",
            PersistenceChange::Added => "NUEVA",
            PersistenceChange::Modified => "MODIFICADA",
            PersistenceChange::Removed => "ELIMINADA",
        }
    }

    /// `true` when the state is a change with respect to the baseline.
    pub fn is_change(self) -> (r: bool)
        ensures
            r == (self != PersistenceChange::Unchanged),
    {
        !matches!(self, PersistenceChange::Unchanged)
    }
}

/// A point in time: whole seconds since the Unix epoch and the nanoseconds
/// past that second (above 999 999 999 only inside a leap second).
#[derive(Debug, Clone, Copy, PartialEq, Eq, Structural, Default)]
pub struct Timestamp {
    pub secs: i64,
    pub nanos: u32,
}

/// Milliseconds since the epoch of a timestamp (`DateTime::timestamp_millis`).
pub open spec fn millis(t: Timestamp) -> int {
    t.secs * 1000 + (t.nanos / 1_000_000) as int
}

impl Timestamp {
    /// Milliseconds since the epoch.
    pub fn millis(&self) -> (r: i128)
        ensures
            r as int == millis(*self),
    {
        (self.secs as i128) * 1000 + ((self.nanos / 1_000_000) as i128)
    }
}

/// Atomic evidence attached to an incident or anomaly.
#[derive(Debug, Clone, Default)]
pub struct IncidentEvidence {
    pub kind: String,
    pub label: String,
    pub value: String,
}

/// Summarised finding explaining why a process or condition deserves attention.
#[derive(Debug, Clone, Default)]
pub struct Alert {
    pub severity: Severity,
    pub title: String,
    pub detail: String,
    pub pid: Option<u32>,
    pub path: Option<String>,
    pub hint: String,
}

/// Observable persistence entry (Run keys, Startup folders).
#[derive(Debug, Clone, Default)]
pub struct PersistenceEntry {
    pub entry_kind: String,
    pub location: String,
    pub name: String,
    pub command: String,
    pub target_path: Option<String>,
    pub exists_on_disk: bool,
    pub severity: RiskLevel,
    pub note: String,
    pub change_status: PersistenceChange,
}

/// An item of a watched surface (services, tasks, network devices...).
#[derive(Debug, Clone, Default)]
pub struct WatchedItem {
    /// Stable identity of the item across samples.
    pub key: String,
    /// Value whose change marks the item as modified.
    pub value: String,
    /// Human label.
    pub label: String,
    /// Extra detail shown with the item.
    pub detail: String,
    pub change_status: PersistenceChange,
}

/// Connection observed through netstat.
#[derive(Debug, Clone, Default)]
pub struct ConnectionInsight {
    pub protocol: String,
    pub local_address: String,
    pub remote_address: String,
    pub state: String,
    pub pid: u32,
    pub process_name: String,
    pub exe_path: String,
    pub severity: Severity,
    pub reason: String,
    pub is_public_remote: bool,
}

/// Recent Windows event that may help correlate slowness or failures.
#[derive(Debug, Clone, Default)]
pub struct EventRecord {
    pub timestamp: String,
    pub provider: String,
    pub id: u32,
    pub level: String,
    pub message: String,
}

/// State of a service relevant to updates and background activity.
#[derive(Debug, Clone, Default)]
pub struct ServiceState {
    pub name: String,
    pub display_name: String,
    pub status: String,
    pub start_type: String,
}

/// Finding derived from the analysis of an ETL trace.
#[derive(Debug, Clone, Default)]
pub struct TraceFinding {
    pub severity: Severity,
    pub title: String,
    pub detail: String,
    pub evidence: String,
}

/// Process or image repeated inside an analysed trace.
#[derive(Debug, Clone, Default)]
pub struct TraceProcessSummary {
    pub name: String,
    pub occurrences: u64,
    pub severity: Severity,
    pub reason: String,
}

/// Path or artefact repeated inside the trace.
#[derive(Debug, Clone, Default)]
pub struct TracePathSummary {
    pub path: String,
    pub category: String,
    pub occurrences: u64,
    pub severity: Severity,
}

/// Readable summary of an ETL trace processed by the system tools.
#[derive(Debug, Clone, Default)]
pub struct TraceAnalysisSummary {
    pub engine: String,
    pub analyzed_at: String,
    pub etl_path: String,
    pub output_directory: String,
    pub raw_xml_path: Option<String>,
    pub raw_summary_path: Option<String>,
    pub total_events: u64,
    pub headline: String,
    pub confidence: String,
    pub findings: Vec<TraceFinding>,
    pub hot_processes: Vec<TraceProcessSummary>,
    pub hot_paths: Vec<TracePathSummary>,
    pub public_ips: Vec<String>,
    pub providers: Vec<(String, u64)>,
    pub indicators: Vec<String>,
    pub limitations: Vec<String>,
}

/// State of the precision mode (WPR/WPA + ETL analysis).
#[derive(Debug, Clone, Default)]
pub struct PrecisionStatus {
    pub wpr_available: bool,
    pub wpa_available: bool,
    pub tracerpt_available: bool,
    pub is_recording: bool,
    pub recommended_profile: String,
    pub traces_directory: String,
    pub last_trace_path: Option<String>,
    pub last_analysis_path: Option<String>,
    pub analyzer_label: String,
    pub status_detail: String,
    pub guidance: String,
}

/// Optional answer of an AI adapter, decoupled from the main engine.
#[derive(Debug, Clone, Default)]
pub struct AiIncidentAdvice {
    pub provider: String,
    pub model: String,
    pub summary: String,
    pub probable_causes: Vec<String>,
    pub suggested_actions: Vec<String>,
    pub confidence: String,
    pub warnings: Vec<String>,
    pub generated_at: String,
}

/// Record of an action executed from the app or the CLI.
#[derive(Debug, Clone, Default)]
pub struct AuditRecord {
    pub occurred_at: String,
    pub action: String,
    pub target: String,
    pub success: bool,
    pub detail: String,
}

/// Summarised resilience state of the agent.
#[derive(Debug, Clone, Default)]
pub struct AgentHealth {
    pub status: AgentStatus,
    pub summary: String,
    pub last_start_at: String,
    pub last_heartbeat_at: String,
    pub last_clean_shutdown_at: Option<String>,
    pub config_fingerprint: String,
    pub config_changed: bool,
    pub unexpected_shutdown_detected: bool,
    pub watchdog_backoff_active: bool,
    pub consecutive_unexpected_stops: u32,
    pub notes: Vec<String>,
}

/// Atomic event of the anomaly detection module.
#[derive(Debug, Clone, Default)]
pub struct AnomalyEvent {
    pub event_id: String,
    pub detected_at: Timestamp,
    pub severity: RiskLevel,
    pub score: u16,
    pub status: String,
    pub kind: String,
    pub title: String,
    pub process_name: Option<String>,
    pub pid: Option<u32>,
    pub parent_pid: Option<u32>,
    pub parent_name: Option<String>,
    pub user: Option<String>,
    pub exe_path: Option<String>,
    pub sha256: Option<String>,
    /// `f32::to_bits` of the CPU percentage.
    pub cpu_percent_bits: Option<u32>,
    /// `f32::to_bits` of the memory in MB.
    pub memory_mb_bits: Option<u32>,
    /// `f32::to_bits` of the MB written in the interval.
    pub io_write_mb_delta_bits: Option<u32>,
    pub unique_public_remotes: Option<usize>,
    pub unique_private_remotes: Option<usize>,
    pub summary: String,
    pub root_cause_hypothesis: String,
    pub recommended_action: String,
    pub evidence: Vec<IncidentEvidence>,
}

/// Device seen on the local network segment.
#[derive(Debug, Clone, Default)]
pub struct NetworkDevice {
    pub ip: String,
    pub mac: String,
    pub hostname: String,
    pub vendor: String,
    pub state: String,
    pub interface: String,
    pub is_self: bool,
    pub is_gateway: bool,
    pub change_status: PersistenceChange,
    pub severity: Severity,
    pub reason: String,
}

/// Result of exploring the local network.
#[derive(Debug, Clone, Default)]
pub struct NetworkScan {
    pub scanned_at: String,
    pub deep: bool,
    pub adapter_name: String,
    pub local_ip: String,
    pub local_mac: String,
    pub subnet_prefix: String,
    pub gateway_ip: String,
    pub devices: Vec<NetworkDevice>,
    pub total_devices: usize,
    pub new_devices: usize,
    pub limitations: Vec<String>,
}

/// The text of an optional string.
pub open spec fn opt_view(o: Option<String>) -> Option<Seq<char>> {
    match o {
        Some(s) => Some(s@),
        None => None,
    }
}

/// The texts of a vector of strings.
pub open spec fn strings_view(v: Seq<String>) -> Seq<Seq<char>> {
    v.map_values(|s: String| s@)
}

pub struct IncidentEvidenceView {
    pub kind: Seq<char>,
    pub label: Seq<char>,
    pub value: Seq<char>,
}

impl View for IncidentEvidence {
    type V = IncidentEvidenceView;

    open spec fn view(&self) -> IncidentEvidenceView {
        IncidentEvidenceView { kind: self.kind@, label: self.label@, value: self.value@ }
    }
}

/// The views of a vector of evidence items.
pub open spec fn evidence_view(v: Seq<IncidentEvidence>) -> Seq<IncidentEvidenceView> {
    v.map_values(|e: IncidentEvidence| e@)
}

pub struct AlertView {
    pub severity: Severity,
    pub title: Seq<char>,
    pub detail: Seq<char>,
    pub pid: Option<u32>,
    pub path: Option<Seq<char>>,
    pub hint: Seq<char>,
}

impl View for Alert {
    type V = AlertView;

    open spec fn view(&self) -> AlertView {
        AlertView {
            severity: self.severity,
            title: self.title@,
            detail: self.detail@,
            pid: self.pid,
            path: opt_view(self.path),
            hint: self.hint@,
        }
    }
}

pub struct PersistenceEntryView {
    pub entry_kind: Seq<char>,
    pub location: Seq<char>,
    pub name: Seq<char>,
    pub command: Seq<char>,
    pub target_path: Option<Seq<char>>,
    pub exists_on_disk: bool,
    pub severity: RiskLevel,
    pub note: Seq<char>,
    pub change_status: PersistenceChange,
}

impl View for PersistenceEntry {
    type V = PersistenceEntryView;

    open spec fn view(&self) -> PersistenceEntryView {
        PersistenceEntryView {
            entry_kind: self.entry_kind@,
            location: self.location@,
            name: self.name@,
            command: self.command@,
            target_path: opt_view(self.target_path),
            exists_on_disk: self.exists_on_disk,
            severity: self.severity,
            note: self.note@,
            change_status: self.change_status,
        }
    }
}

pub struct WatchedItemView {
    pub key: Seq<char>,
    pub value: Seq<char>,
    pub label: Seq<char>,
    pub detail: Seq<char>,
    pub change_status: PersistenceChange,
}

impl View for WatchedItem {
    type V = WatchedItemView;

    open spec fn view(&self) -> WatchedItemView {
        WatchedItemView {
            key: self.key@,
            value: self.value@,
            label: self.label@,
            detail: self.detail@,
            change_status: self.change_status,
        }
    }
}

pub struct ConnectionInsightView {
    pub protocol: Seq<char>,
    pub local_address: Seq<char>,
    pub remote_address: Seq<char>,
    pub state: Seq<char>,
    pub pid: u32,
    pub process_name: Seq<char>,
    pub exe_path: Seq<char>,
    pub severity: Severity,
    pub reason: Seq<char>,
    pub is_public_remote: bool,
}

impl View for ConnectionInsight {
    type V = ConnectionInsightView;

    open spec fn view(&self) -> ConnectionInsightView {
        ConnectionInsightView {
            protocol: self.protocol@,
            local_address: self.local_address@,
            remote_address: self.remote_address@,
            state: self.state@,
            pid: self.pid,
            process_name: self.process_name@,
            exe_path: self.exe_path@,
            severity: self.severity,
            reason: self.reason@,
            is_public_remote: self.is_public_remote,
        }
    }
}

pub struct ServiceStateView {
    pub name: Seq<char>,
    pub display_name: Seq<char>,
    pub status: Seq<char>,
    pub start_type: Seq<char>,
}

impl View for ServiceState {
    type V = ServiceStateView;

    open spec fn view(&self) -> ServiceStateView {
        ServiceStateView {
            name: self.name@,
            display_name: self.display_name@,
            status: self.status@,
            start_type: self.start_type@,
        }
    }
}

pub struct TraceFindingView {
    pub severity: Severity,
    pub title: Seq<char>,
    pub detail: Seq<char>,
    pub evidence: Seq<char>,
}

impl View for TraceFinding {
    type V = TraceFindingView;

    open spec fn view(&self) -> TraceFindingView {
        TraceFindingView {
            severity: self.severity,
            title: self.title@,
            detail: self.detail@,
            evidence: self.evidence@,
        }
    }
}

pub struct TraceProcessSummaryView {
    pub name: Seq<char>,
    pub occurrences: u64,
    pub severity: Severity,
    pub reason: Seq<char>,
}

impl View for TraceProcessSummary {
    type V = TraceProcessSummaryView;

    open spec fn view(&self) -> TraceProcessSummaryView {
        TraceProcessSummaryView {
            name: self.name@,
            occurrences: self.occurrences,
            severity: self.severity,
            reason: self.reason@,
        }
    }
}

pub struct TracePathSummaryView {
    pub path: Seq<char>,
    pub category: Seq<char>,
    pub occurrences: u64,
    pub severity: Severity,
}

impl View for TracePathSummary {
    type V = TracePathSummaryView;

    open spec fn view(&self) -> TracePathSummaryView {
        TracePathSummaryView {
            path: self.path@,
            category: self.category@,
            occurrences: self.occurrences,
            severity: self.severity,
        }
    }
}

pub struct TraceAnalysisSummaryView {
    pub engine: Seq<char>,
    pub analyzed_at: Seq<char>,
    pub etl_path: Seq<char>,
    pub output_directory: Seq<char>,
    pub raw_xml_path: Option<Seq<char>>,
    pub raw_summary_path: Option<Seq<char>>,
    pub total_events: u64,
    pub headline: Seq<char>,
    pub confidence: Seq<char>,
    pub findings: Seq<TraceFindingView>,
    pub hot_processes: Seq<TraceProcessSummaryView>,
    pub hot_paths: Seq<TracePathSummaryView>,
    pub public_ips: Seq<Seq<char>>,
    pub providers: Seq<(Seq<char>, u64)>,
    pub indicators: Seq<Seq<char>>,
    pub limitations: Seq<Seq<char>>,
}

impl View for TraceAnalysisSummary {
    type V = TraceAnalysisSummaryView;

    open spec fn view(&self) -> TraceAnalysisSummaryView {
        TraceAnalysisSummaryView {
            engine: self.engine@,
            analyzed_at: self.analyzed_at@,
            etl_path: self.etl_path@,
            output_directory: self.output_directory@,
            raw_xml_path: opt_view(self.raw_xml_path),
            raw_summary_path: opt_view(self.raw_summary_path),
            total_events: self.total_events,
            headline: self.headline@,
            confidence: self.confidence@,
            findings: self.findings@.map_values(|f: TraceFinding| f@),
            hot_processes: self.hot_processes@.map_values(|p: TraceProcessSummary| p@),
            hot_paths: self.hot_paths@.map_values(|p: TracePathSummary| p@),
            public_ips: strings_view(self.public_ips@),
            providers: self.providers@.map_values(|e: (String, u64)| (e.0@, e.1)),
            indicators: strings_view(self.indicators@),
            limitations: strings_view(self.limitations@),
        }
    }
}

pub struct AuditRecordView {
    pub occurred_at: Seq<char>,
    pub action: Seq<char>,
    pub target: Seq<char>,
    pub success: bool,
    pub detail: Seq<char>,
}

impl View for AuditRecord {
    type V = AuditRecordView;

    open spec fn view(&self) -> AuditRecordView {
        AuditRecordView {
            occurred_at: self.occurred_at@,
            action: self.action@,
            target: self.target@,
            success: self.success,
            detail: self.detail@,
        }
    }
}

pub struct AgentHealthView {
    pub status: AgentStatus,
    pub summary: Seq<char>,
    pub last_start_at: Seq<char>,
    pub last_heartbeat_at: Seq<char>,
    pub last_clean_shutdown_at: Option<Seq<char>>,
    pub config_fingerprint: Seq<char>,
    pub config_changed: bool,
    pub unexpected_shutdown_detected: bool,
    pub watchdog_backoff_active: bool,
    pub consecutive_unexpected_stops: u32,
    pub notes: Seq<Seq<char>>,
}

impl View for AgentHealth {
    type V = AgentHealthView;

    open spec fn view(&self) -> AgentHealthView {
        AgentHealthView {
            status: self.status,
            summary: self.summary@,
            last_start_at: self.last_start_at@,
            last_heartbeat_at: self.last_heartbeat_at@,
            last_clean_shutdown_at: opt_view(self.last_clean_shutdown_at),
            config_fingerprint: self.config_fingerprint@,
            config_changed: self.config_changed,
            unexpected_shutdown_detected: self.unexpected_shutdown_detected,
            watchdog_backoff_active: self.watchdog_backoff_active,
            consecutive_unexpected_stops: self.consecutive_unexpected_stops,
            notes: strings_view(self.notes@),
        }
    }
}

pub struct AnomalyEventView {
    pub event_id: Seq<char>,
    pub detected_at: Timestamp,
    pub severity: RiskLevel,
    pub score: u16,
    pub status: Seq<char>,
    pub kind: Seq<char>,
    pub title: Seq<char>,
    pub process_name: Option<Seq<char>>,
    pub pid: Option<u32>,
    pub parent_pid: Option<u32>,
    pub parent_name: Option<Seq<char>>,
    pub user: Option<Seq<char>>,
    pub exe_path: Option<Seq<char>>,
    pub sha256: Option<Seq<char>>,
    pub cpu_percent_bits: Option<u32>,
    pub memory_mb_bits: Option<u32>,
    pub io_write_mb_delta_bits: Option<u32>,
    pub unique_public_remotes: Option<usize>,
    pub unique_private_remotes: Option<usize>,
    pub summary: Seq<char>,
    pub root_cause_hypothesis: Seq<char>,
    pub recommended_action: Seq<char>,
    pub evidence: Seq<IncidentEvidenceView>,
}

impl View for AnomalyEvent {
    type V = AnomalyEventView;

    open spec fn view(&self) -> AnomalyEventView {
        AnomalyEventView {
            event_id: self.event_id@,
            detected_at: self.detected_at,
            severity: self.severity,
            score: self.score,
            status: self.status@,
            kind: self.kind@,
            title: self.title@,
            process_name: opt_view(self.process_name),
            pid: self.pid,
            parent_pid: self.parent_pid,
            parent_name: opt_view(self.parent_name),
            user: opt_view(self.user),
            exe_path: opt_view(self.exe_path),
            sha256: opt_view(self.sha256),
            cpu_percent_bits: self.cpu_percent_bits,
            memory_mb_bits: self.memory_mb_bits,
            io_write_mb_delta_bits: self.io_write_mb_delta_bits,
            unique_public_remotes: self.unique_public_remotes,
            unique_private_remotes: self.unique_private_remotes,
            summary: self.summary@,
            root_cause_hypothesis: self.root_cause_hypothesis@,
            recommended_action: self.recommended_action@,
            evidence: evidence_view(self.evidence@),
        }
    }
}

pub struct NetworkDeviceView {
    pub ip: Seq<char>,
    pub mac: Seq<char>,
    pub hostname: Seq<char>,
    pub vendor: Seq<char>,
    pub state: Seq<char>,
    pub interface: Seq<char>,
    pub is_self: bool,
    pub is_gateway: bool,
    pub change_status: PersistenceChange,
    pub severity: Severity,
    pub reason: Seq<char>,
}

impl View for NetworkDevice {
    type V = NetworkDeviceView;

    open spec fn view(&self) -> NetworkDeviceView {
        NetworkDeviceView {
            ip: self.ip@,
            mac: self.mac@,
            hostname: self.hostname@,
            vendor: self.vendor@,
            state: self.state@,
            interface: self.interface@,
            is_self: self.is_self,
            is_gateway: self.is_gateway,
            change_status: self.change_status,
            severity: self.severity,
            reason: self.reason@,
        }
    }
}

pub struct NetworkScanView {
    pub scanned_at: Seq<char>,
    pub deep: bool,
    pub adapter_name: Seq<char>,
    pub local_ip: Seq<char>,
    pub local_mac: Seq<char>,
    pub subnet_prefix: Seq<char>,
    pub gateway_ip: Seq<char>,
    pub devices: Seq<NetworkDeviceView>,
    pub total_devices: usize,
    pub new_devices: usize,
    pub limitations: Seq<Seq<char>>,
}

impl View for NetworkScan {
    type V = NetworkScanView;

    open spec fn view(&self) -> NetworkScanView {
        NetworkScanView {
            scanned_at: self.scanned_at@,
            deep: self.deep,
            adapter_name: self.adapter_name@,
            local_ip: self.local_ip@,
            local_mac: self.local_mac@,
            subnet_prefix: self.subnet_prefix@,
            gateway_ip: self.gateway_ip@,
            devices: self.devices@.map_values(|d: NetworkDevice| d@),
            total_devices: self.total_devices,
            new_devices: self.new_devices,
            limitations: strings_view(self.limitations@),
        }
    }
}

/// A copy of an optional string.
pub fn clone_opt(o: &Option<String>) -> (r: Option<String>)
    ensures
        opt_view(r) == opt_view(*o),
{
    match o {
        Some(s) => Some(s.clone()),
        None => None,
    }
}

impl IncidentEvidence {
    /// Evidence built from its three texts.
    pub fn new(kind: &str, label: &str, value: String) -> (r: Self)
        ensures
            r@ == (IncidentEvidenceView { kind: kind@, label: label@, value: value@ }),
    {
        IncidentEvidence { kind: kind.to_owned(), label: label.to_owned(), value }
    }

    /// A copy of this evidence.
    pub fn copy(&self) -> (r: Self)
        ensures
            r@ == self@,
    {
        IncidentEvidence {
            kind: self.kind.clone(),
            label: self.label.clone(),
            value: self.value.clone(),
        }
    }
}


/// A copy of a list of evidence items.
pub fn copy_evidence(v: &Vec<IncidentEvidence>) -> (r: Vec<IncidentEvidence>)
    ensures
        evidence_view(r@) == evidence_view(v@),
{
    let mut r: Vec<IncidentEvidence> = Vec::new();
    let mut i: usize = 0;
    while i < v.len()
        invariant
            i <= v@.len(),
            r@.len() == i,
            forall|k: int| 0 <= k < i ==> (#[trigger] r@[k])@ == v@[k]@,
        decreases v.len() - i,
    {
        r.push(v[i].copy());
        i = i + 1;
    }
    assert(evidence_view(r@) =~= evidence_view(v@));
    r
}

impl AnomalyEvent {
    /// A copy of this event.
    pub fn copy(&self) -> (r: Self)
        ensures
            r@ == self@,
    {
        AnomalyEvent {
            event_id: self.event_id.clone(),
            detected_at: self.detected_at,
            severity: self.severity,
            score: self.score,
            status: self.status.clone(),
            kind: self.kind.clone(),
            title: self.title.clone(),
            process_name: clone_opt(&self.process_name),
            pid: self.pid,
            parent_pid: self.parent_pid,
            parent_name: clone_opt(&self.parent_name),
            user: clone_opt(&self.user),
            exe_path: clone_opt(&self.exe_path),
            sha256: clone_opt(&self.sha256),
            cpu_percent_bits: self.cpu_percent_bits,
            memory_mb_bits: self.memory_mb_bits,
            io_write_mb_delta_bits: self.io_write_mb_delta_bits,
            unique_public_remotes: self.unique_public_remotes,
            unique_private_remotes: self.unique_private_remotes,
            summary: self.summary.clone(),
            root_cause_hypothesis: self.root_cause_hypothesis.clone(),
            recommended_action: self.recommended_action.clone(),
            evidence: copy_evidence(&self.evidence),
        }
    }
}

/// Incident derived from a snapshot: what happened, why it probably
/// happened and what to do about it.
#[derive(Debug, Clone, Default)]
pub struct IncidentSummary {
    pub incident_id: String,
    pub fingerprint: String,
    pub collected_at: Timestamp,
    pub severity: Severity,
    pub kind: String,
    pub title: String,
    pub summary: String,
    pub root_cause_hypothesis: String,
    pub probable_causes: Vec<String>,
    pub recommended_actions: Vec<String>,
    pub evidence: Vec<IncidentEvidence>,
    pub risk_level: Option<RiskLevel>,
    pub risk_score: u16,
    pub anomaly_count: usize,
    pub anomaly_types: Vec<String>,
    pub anomaly_events: Vec<AnomalyEvent>,
    pub ai_advice: Option<AiIncidentAdvice>,
}

pub struct IncidentSummaryView {
    pub incident_id: Seq<char>,
    pub fingerprint: Seq<char>,
    pub collected_at: Timestamp,
    pub severity: Severity,
    pub kind: Seq<char>,
    pub title: Seq<char>,
    pub summary: Seq<char>,
    pub root_cause_hypothesis: Seq<char>,
    pub probable_causes: Seq<Seq<char>>,
    pub recommended_actions: Seq<Seq<char>>,
    pub evidence: Seq<IncidentEvidenceView>,
    pub risk_level: Option<RiskLevel>,
    pub risk_score: u16,
    pub anomaly_count: usize,
    pub anomaly_types: Seq<Seq<char>>,
    pub anomaly_events: Seq<AnomalyEventView>,
    /// Whether an AI answer is attached.
    pub has_ai_advice: bool,
}

impl View for IncidentSummary {
    type V = IncidentSummaryView;

    open spec fn view(&self) -> IncidentSummaryView {
        IncidentSummaryView {
            incident_id: self.incident_id@,
            fingerprint: self.fingerprint@,
            collected_at: self.collected_at,
            severity: self.severity,
            kind: self.kind@,
            title: self.title@,
            summary: self.summary@,
            root_cause_hypothesis: self.root_cause_hypothesis@,
            probable_causes: strings_view(self.probable_causes@),
            recommended_actions: strings_view(self.recommended_actions@),
            evidence: evidence_view(self.evidence@),
            risk_level: self.risk_level,
            risk_score: self.risk_score,
            anomaly_count: self.anomaly_count,
            anomaly_types: strings_view(self.anomaly_types@),
            anomaly_events: self.anomaly_events@.map_values(|e: AnomalyEvent| e@),
            has_ai_advice: self.ai_advice is Some,
        }
    }
}

} // verus!
