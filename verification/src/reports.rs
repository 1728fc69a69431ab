//! What the Windows tools report as JSON (recent system events, the state of
//! the relevant services, the autostart entries) and the alert list kept with
//! each history row: the scripts that ask for them, and the reading of their
//! answers into the library's records.

use crate::commands::{extract_target_path, extract_target_path_spec};
use crate::models::{
    opt_view, EventRecord, PersistenceChange, PersistenceEntry, PersistenceEntryView, RiskLevel, ServiceState,
    ServiceStateView,
};
use crate::text::{chars_of, concat3, int_text, int_text_exec, owned, replace_char, replace_char_str, trim, trim_str};
use vstd::prelude::*;

verus! {

// ---------------------------------------------------------------------------
// The scripts
// ---------------------------------------------------------------------------

/// The script that lists the latest warnings and errors of the System log,
/// at most `limit` of them, as JSON.
pub open spec fn recent_events_script_spec(limit: usize) -> Seq<char> {
    "$items = Get-WinEvent -LogName System -MaxEvents 200 | Where-Object { $_.LevelDisplayName -in @('Warning','Error') } | Select-Object -First "@
        + int_text(limit as int)
        + " TimeCreated, ProviderName, Id, LevelDisplayName, Message; $items | ConvertTo-Json -Depth 4"@
}

/// Builds the script that lists the latest warnings and errors of the System log.
pub fn recent_events_script(limit: usize) -> (r: String)
    ensures
        r@ == recent_events_script_spec(limit),
{
    let n = int_text_exec(limit as i128);
    concat3(
        "$items = Get-WinEvent -LogName System -MaxEvents 200 | Where-Object { $_.LevelDisplayName -in @('Warning','Error') } | Select-Object -First ",
        n.as_str(),
        " TimeCreated, ProviderName, Id, LevelDisplayName, Message; $items | ConvertTo-Json -Depth 4",
    )
}

/// The script that reports the services behind updates, installs and
/// security, as JSON.
pub open spec fn services_script_spec() -> Seq<char> {
    "Get-Service -Name wuauserv,bits,DoSvc,TrustedInstaller,SysMain,WinDefend,WdNisSvc,MpsSvc,wscsvc,Sense -ErrorAction SilentlyContinue | Select-Object Name, DisplayName, Status, StartType | ConvertTo-Json -Depth 4"@
}

/// Builds the script that reports the relevant services.
pub fn services_script() -> (r: String)
    ensures
        r@ == services_script_spec(),
{
    owned(
        "Get-Service -Name wuauserv,bits,DoSvc,TrustedInstaller,SysMain,WinDefend,WdNisSvc,MpsSvc,wscsvc,Sense -ErrorAction SilentlyContinue | Select-Object Name, DisplayName, Status, StartType | ConvertTo-Json -Depth 4",
    )
}

/// The script that lists the Run and RunOnce values (current user and
/// machine) and the files of both Startup folders, as JSON.
pub open spec fn persistence_script_spec() -> Seq<char> {
    "$items = @(); $registryLocations = @(@{ Path = 'HKCU:\\Software\\Microsoft\\Windows\\CurrentVersion\\Run'; Kind = 'Registry Run (HKCU)' }, @{ Path = 'HKCU:\\Software\\Microsoft\\Windows\\CurrentVersion\\RunOnce'; Kind = 'Registry RunOnce (HKCU)' }, @{ Path = 'HKLM:\\Software\\Microsoft\\Windows\\CurrentVersion\\Run'; Kind = 'Registry Run (HKLM)' }, @{ Path = 'HKLM:\\Software\\Microsoft\\Windows\\CurrentVersion\\RunOnce'; Kind = 'Registry RunOnce (HKLM)' }); foreach ($entry in $registryLocations) { if (-not (Test-Path $entry.Path)) { continue }; $props = Get-ItemProperty -Path $entry.Path; foreach ($prop in $props.PSObject.Properties) { if ($prop.Name -in @('PSPath', 'PSParentPath', 'PSChildName', 'PSDrive', 'PSProvider')) { continue }; $items += [pscustomobject]@{ EntryKind = $entry.Kind; Location = $entry.Path; Name = $prop.Name; Command = [string]$prop.Value } } }; $startupFolders = @(@{ Path = [Environment]::GetFolderPath('Startup'); Kind = 'Startup Folder (Current User)' }, @{ Path = \"$env:ProgramData\\Microsoft\\Windows\\Start Menu\\Programs\\Startup\"; Kind = 'Startup Folder (All Users)' }); foreach ($entry in $startupFolders) { if (-not $entry.Path -or -not (Test-Path $entry.Path)) { continue }; Get-ChildItem -Path $entry.Path -File -Force -ErrorAction SilentlyContinue | ForEach-Object { $items += [pscustomobject]@{ EntryKind = $entry.Kind; Location = $entry.Path; Name = $_.Name; Command = $_.FullName } } }; $items | ConvertTo-Json -Depth 4"@
}

/// Builds the script that lists the autostart entries.
pub fn persistence_script() -> (r: String)
    ensures
        r@ == persistence_script_spec(),
{
    owned(
        "$items = @(); $registryLocations = @(@{ Path = 'HKCU:\\Software\\Microsoft\\Windows\\CurrentVersion\\Run'; Kind = 'Registry Run (HKCU)' }, @{ Path = 'HKCU:\\Software\\Microsoft\\Windows\\CurrentVersion\\RunOnce'; Kind = 'Registry RunOnce (HKCU)' }, @{ Path = 'HKLM:\\Software\\Microsoft\\Windows\\CurrentVersion\\Run'; Kind = 'Registry Run (HKLM)' }, @{ Path = 'HKLM:\\Software\\Microsoft\\Windows\\CurrentVersion\\RunOnce'; Kind = 'Registry RunOnce (HKLM)' }); foreach ($entry in $registryLocations) { if (-not (Test-Path $entry.Path)) { continue }; $props = Get-ItemProperty -Path $entry.Path; foreach ($prop in $props.PSObject.Properties) { if ($prop.Name -in @('PSPath', 'PSParentPath', 'PSChildName', 'PSDrive', 'PSProvider')) { continue }; $items += [pscustomobject]@{ EntryKind = $entry.Kind; Location = $entry.Path; Name = $prop.Name; Command = [string]$prop.Value } } }; $startupFolders = @(@{ Path = [Environment]::GetFolderPath('Startup'); Kind = 'Startup Folder (Current User)' }, @{ Path = \"$env:ProgramData\\Microsoft\\Windows\\Start Menu\\Programs\\Startup\"; Kind = 'Startup Folder (All Users)' }); foreach ($entry in $startupFolders) { if (-not $entry.Path -or -not (Test-Path $entry.Path)) { continue }; Get-ChildItem -Path $entry.Path -File -Force -ErrorAction SilentlyContinue | ForEach-Object { $items += [pscustomobject]@{ EntryKind = $entry.Kind; Location = $entry.Path; Name = $_.Name; Command = $_.FullName } } }; $items | ConvertTo-Json -Depth 4",
    )
}

// ---------------------------------------------------------------------------
// Services
// ---------------------------------------------------------------------------

/// The views of some services.
pub open spec fn services_view(v: Seq<ServiceState>) -> Seq<ServiceStateView> {
    v.map_values(|s: ServiceState| s@)
}

/// The services of a JSON answer, as `serde_json::from_str::<Value>` reads
/// it: `None` when the text is not JSON; an array gives one service per
/// item, any other value one service; each field (`Name`, `DisplayName`,
/// `Status`, `StartType`) is read with `get` and `as_str`, the empty text when
/// absent or not a string.
pub uninterp spec fn json_service_rows(raw: Seq<char>) -> Option<Seq<ServiceStateView>>;

/// Reads the services of a JSON answer with `serde_json`. The contract claims
/// only that the result is what the crate computes from the text (see
/// [`json_service_rows`]).
#[verifier::external_body]
fn read_service_rows(raw: &str) -> (r: Option<Vec<ServiceState>>)
    ensures
        match r {
            Some(v) => json_service_rows(raw@) == Some(services_view(v@)),
            None => json_service_rows(raw@) is None,
        },
{
    let value = serde_json::from_str::<serde_json::Value>(raw).ok()?;
    let items = match value {
        serde_json::Value::Array(items) => items,
        single => vec![single],
    };
    let text = |e: &serde_json::Value, k: &str| e.get(k).and_then(serde_json::Value::as_str).unwrap_or("").to_owned();
    Some(items.iter().map(|e| ServiceState { name: text(e, "Name"), display_name: text(e, "DisplayName"), status: text(e, "Status"), start_type: text(e, "StartType") }).collect())
}

/// The services a (possibly blank) answer reports: none for a blank answer,
/// `None` when it is not JSON.
pub open spec fn services_from_json_spec(raw: Seq<char>) -> Option<Seq<ServiceStateView>> {
    if trim(raw).len() == 0 {
        Some(Seq::empty())
    } else {
        json_service_rows(raw)
    }
}

/// Reads the services of the answer to [`services_script`].
pub fn services_from_json(raw: &str) -> (r: Option<Vec<ServiceState>>)
    ensures
        match r {
            Some(v) => services_from_json_spec(raw@) == Some(services_view(v@)),
            None => services_from_json_spec(raw@) is None,
        },
{
    if chars_of(trim_str(raw).as_str()).len() == 0 {
        let v: Vec<ServiceState> = Vec::new();
        assert(services_view(v@) =~= Seq::<ServiceStateView>::empty());
        return Some(v);
    }
    read_service_rows(raw)
}

// ---------------------------------------------------------------------------
// System events
// ---------------------------------------------------------------------------

/// An event as the answer reports it, before it becomes a record.
#[derive(Debug, Clone)]
pub struct EventRow {
    pub time_created: String,
    pub provider: String,
    /// `Id` when it is an unsigned integer.
    pub id: Option<u64>,
    pub level: String,
    pub message: String,
}

pub struct EventRowView {
    pub time_created: Seq<char>,
    pub provider: Seq<char>,
    pub id: Option<u64>,
    pub level: Seq<char>,
    pub message: Seq<char>,
}

impl View for EventRow {
    type V = EventRowView;

    open spec fn view(&self) -> EventRowView {
        EventRowView {
            time_created: self.time_created@,
            provider: self.provider@,
            id: self.id,
            level: self.level@,
            message: self.message@,
        }
    }
}

pub struct EventRecordView {
    pub timestamp: Seq<char>,
    pub provider: Seq<char>,
    pub id: u32,
    pub level: Seq<char>,
    pub message: Seq<char>,
}

/// The view of an event record.
pub open spec fn event_view(e: EventRecord) -> EventRecordView {
    EventRecordView { timestamp: e.timestamp@, provider: e.provider@, id: e.id, level: e.level@, message: e.message@ }
}

/// The views of some event records.
pub open spec fn events_view(v: Seq<EventRecord>) -> Seq<EventRecordView> {
    v.map_values(|e: EventRecord| event_view(e))
}

/// The events of a JSON answer, as `serde_json::from_str::<Value>` reads it:
/// `None` when the text is not JSON; an array gives one event per item, any
/// other value one event; `TimeCreated`, `ProviderName`, `LevelDisplayName`
/// and `Message` are read with `get` and `as_str` (the empty text when absent
/// or not a string), `Id` with `get` and `as_u64`.
pub uninterp spec fn json_event_rows(raw: Seq<char>) -> Option<Seq<EventRowView>>;

/// Reads the events of a JSON answer with `serde_json`. The contract claims
/// only that the result is what the crate computes from the text (see
/// [`json_event_rows`]).
#[verifier::external_body]
fn read_event_rows(raw: &str) -> (r: Option<Vec<EventRow>>)
    ensures
        match r {
            Some(v) => json_event_rows(raw@) == Some(v@.map_values(|e: EventRow| e@)),
            None => json_event_rows(raw@) is None,
        },
{
    let value = serde_json::from_str::<serde_json::Value>(raw).ok()?;
    let items = match value {
        serde_json::Value::Array(items) => items,
        single => vec![single],
    };
    let text = |e: &serde_json::Value, k: &str| e.get(k).and_then(serde_json::Value::as_str).unwrap_or("").to_owned();
    Some(items.iter().map(|e| EventRow { time_created: text(e, "TimeCreated"), provider: text(e, "ProviderName"), id: e.get("Id").and_then(serde_json::Value::as_u64), level: text(e, "LevelDisplayName"), message: text(e, "Message") }).collect())
}

/// The record of an event: its id, read as 0 when absent, cut to 32 bits, and
/// its message on one line (line feeds and carriage returns become spaces).
pub open spec fn event_record_spec(r: EventRowView) -> EventRecordView {
    EventRecordView {
        timestamp: r.time_created,
        provider: r.provider,
        id: (match r.id {
            Some(x) => x,
            None => 0u64,
        }) as u32,
        level: r.level,
        message: replace_char(replace_char(r.message, '\n', ' '), '\r', ' '),
    }
}

/// The events a (possibly blank) answer reports: none for a blank answer,
/// `None` when it is not JSON.
pub open spec fn events_from_json_spec(raw: Seq<char>) -> Option<Seq<EventRecordView>> {
    if trim(raw).len() == 0 {
        Some(Seq::empty())
    } else {
        match json_event_rows(raw) {
            Some(rows) => Some(rows.map_values(|r: EventRowView| event_record_spec(r))),
            None => None,
        }
    }
}

fn event_record(row: &EventRow) -> (r: EventRecord)
    ensures
        event_view(r) == event_record_spec(row@),
{
    let id: u64 = match row.id {
        Some(x) => x,
        None => 0,
    };
    let one_line = replace_char_str(row.message.as_str(), '\n', ' ');
    EventRecord {
        timestamp: owned(row.time_created.as_str()),
        provider: owned(row.provider.as_str()),
        id: id as u32,
        level: owned(row.level.as_str()),
        message: replace_char_str(one_line.as_str(), '\r', ' '),
    }
}

/// Reads the events of the answer to [`recent_events_script`].
pub fn events_from_json(raw: &str) -> (r: Option<Vec<EventRecord>>)
    ensures
        match r {
            Some(v) => events_from_json_spec(raw@) == Some(events_view(v@)),
            None => events_from_json_spec(raw@) is None,
        },
{
    if chars_of(trim_str(raw).as_str()).len() == 0 {
        let v: Vec<EventRecord> = Vec::new();
        assert(events_view(v@) =~= Seq::<EventRecordView>::empty());
        return Some(v);
    }
    let rows = match read_event_rows(raw) {
        Some(rows) => rows,
        None => return None,
    };
    let ghost rv = rows@.map_values(|e: EventRow| e@);
    let mut out: Vec<EventRecord> = Vec::new();
    let mut i: usize = 0;
    while i < rows.len()
        invariant
            i <= rows@.len(),
            rv == rows@.map_values(|e: EventRow| e@),
            out@.len() == i,
            forall|k: int| 0 <= k < i ==> event_view(#[trigger] out@[k]) == event_record_spec(rv[k]),
        decreases rows.len() - i,
    {
        out.push(event_record(&rows[i]));
        i = i + 1;
    }
    assert(events_view(out@) =~= rv.map_values(|r: EventRowView| event_record_spec(r)));
    Some(out)
}

// ---------------------------------------------------------------------------
// Autostart entries
// ---------------------------------------------------------------------------

/// An autostart entry as the answer reports it.
#[derive(Debug, Clone)]
pub struct PersistenceRow {
    pub entry_kind: String,
    pub location: String,
    pub name: String,
    pub command: String,
}

pub struct PersistenceRowView {
    pub entry_kind: Seq<char>,
    pub location: Seq<char>,
    pub name: Seq<char>,
    pub command: Seq<char>,
}

impl View for PersistenceRow {
    type V = PersistenceRowView;

    open spec fn view(&self) -> PersistenceRowView {
        PersistenceRowView {
            entry_kind: self.entry_kind@,
            location: self.location@,
            name: self.name@,
            command: self.command@,
        }
    }
}

/// The autostart entries of a JSON answer, as `serde_json::from_str::<Value>`
/// reads it: `None` when the text is not JSON; an array gives one entry per
/// item, any other value one entry; `EntryKind`, `Location`, `Name` and
/// `Command` are read with `get` and `as_str`, the empty text when absent or
/// not a string.
pub uninterp spec fn json_persistence_rows(raw: Seq<char>) -> Option<Seq<PersistenceRowView>>;

/// Reads the autostart entries of a JSON answer with `serde_json`. The
/// contract claims only that the result is what the crate computes from the
/// text (see [`json_persistence_rows`]).
#[verifier::external_body]
fn read_persistence_rows(raw: &str) -> (r: Option<Vec<PersistenceRow>>)
    ensures
        match r {
            Some(v) => json_persistence_rows(raw@) == Some(v@.map_values(|e: PersistenceRow| e@)),
            None => json_persistence_rows(raw@) is None,
        },
{
    let value = serde_json::from_str::<serde_json::Value>(raw).ok()?;
    let items = match value {
        serde_json::Value::Array(items) => items,
        single => vec![single],
    };
    let text = |e: &serde_json::Value, k: &str| e.get(k).and_then(serde_json::Value::as_str).unwrap_or("").to_owned();
    Some(items.iter().map(|e| PersistenceRow { entry_kind: text(e, "EntryKind"), location: text(e, "Location"), name: text(e, "Name"), command: text(e, "Command") }).collect())
}

/// The note every autostart entry carries.
pub open spec fn persistence_note() -> Seq<char> {
    "Persistencia observable desde Run/RunOnce o carpeta Startup"@
}

/// The entry of a reported row: its command trimmed, the program that command
/// runs, the fixed note, low risk and no change yet. Whether the program
/// exists on disk is not known here (`false`): the caller checks the disk.
pub open spec fn persistence_entry_spec(r: PersistenceRowView) -> PersistenceEntryView {
    PersistenceEntryView {
        entry_kind: r.entry_kind,
        location: r.location,
        name: r.name,
        command: trim(r.command),
        target_path: extract_target_path_spec(trim(r.command)),
        exists_on_disk: false,
        severity: RiskLevel::Low,
        note: persistence_note(),
        change_status: PersistenceChange::Unchanged,
    }
}

/// The entries a (possibly blank) answer reports: none for a blank answer,
/// `None` when it is not JSON.
pub open spec fn persistence_entries_from_json_spec(raw: Seq<char>) -> Option<Seq<PersistenceEntryView>> {
    if trim(raw).len() == 0 {
        Some(Seq::empty())
    } else {
        match json_persistence_rows(raw) {
            Some(rows) => Some(rows.map_values(|r: PersistenceRowView| persistence_entry_spec(r))),
            None => None,
        }
    }
}

fn persistence_entry(row: &PersistenceRow) -> (r: PersistenceEntry)
    ensures
        r@ == persistence_entry_spec(row@),
{
    let command = trim_str(row.command.as_str());
    let target_path = extract_target_path(command.as_str());
    let r = PersistenceEntry {
        entry_kind: owned(row.entry_kind.as_str()),
        location: owned(row.location.as_str()),
        name: owned(row.name.as_str()),
        command,
        target_path,
        exists_on_disk: false,
        severity: RiskLevel::Low,
        note: owned("Persistencia observable desde Run/RunOnce o carpeta Startup"),
        change_status: PersistenceChange::Unchanged,
    };
    assert(opt_view(r.target_path) == extract_target_path_spec(trim(row.command@)));
    r
}

/// Reads the autostart entries of the answer to [`persistence_script`].
pub fn persistence_entries_from_json(raw: &str) -> (r: Option<Vec<PersistenceEntry>>)
    ensures
        match r {
            Some(v) => persistence_entries_from_json_spec(raw@) == Some(
                v@.map_values(|e: PersistenceEntry| e@),
            ),
            None => persistence_entries_from_json_spec(raw@) is None,
        },
{
    if chars_of(trim_str(raw).as_str()).len() == 0 {
        let v: Vec<PersistenceEntry> = Vec::new();
        assert(v@.map_values(|e: PersistenceEntry| e@) =~= Seq::<PersistenceEntryView>::empty());
        return Some(v);
    }
    let rows = match read_persistence_rows(raw) {
        Some(rows) => rows,
        None => return None,
    };
    let ghost rv = rows@.map_values(|e: PersistenceRow| e@);
    let mut out: Vec<PersistenceEntry> = Vec::new();
    let mut i: usize = 0;
    while i < rows.len()
        invariant
            i <= rows@.len(),
            rv == rows@.map_values(|e: PersistenceRow| e@),
            out@.len() == i,
            forall|k: int| 0 <= k < i ==> (#[trigger] out@[k])@ == persistence_entry_spec(rv[k]),
        decreases rows.len() - i,
    {
        out.push(persistence_entry(&rows[i]));
        i = i + 1;
    }
    assert(out@.map_values(|e: PersistenceEntry| e@) =~= rv.map_values(
        |r: PersistenceRowView| persistence_entry_spec(r),
    ));
    Some(out)
}

// ---------------------------------------------------------------------------
// Alerts kept with a history row
// ---------------------------------------------------------------------------

/// The alert list kept with a history row, as `serde_json::from_str::<Value>`
/// reads it: `None` when the text is not JSON or not an array; otherwise the
/// `severity` of each item (`get` and `as_str`), `None` where there is no
/// such string.
pub uninterp spec fn json_alert_severities(raw: Seq<char>) -> Option<Seq<Option<Seq<char>>>>;

/// Reads the severities of a stored alert list with `serde_json`. The
/// contract claims only that the result is what the crate computes from the
/// text (see [`json_alert_severities`]).
#[verifier::external_body]
fn read_alert_severities(raw: &str) -> (r: Option<Vec<Option<String>>>)
    ensures
        match r {
            Some(v) => json_alert_severities(raw@) == Some(v@.map_values(|s: Option<String>| opt_view(s))),
            None => json_alert_severities(raw@) is None,
        },
{
    let value = serde_json::from_str::<serde_json::Value>(raw).ok()?;
    let items = value.as_array()?;
    Some(items.iter().map(|e| e.get("severity").and_then(serde_json::Value::as_str).map(str::to_owned)).collect())
}

/// How many alerts a stored list holds and whether one of them is critical;
/// `(0, false)` when the text is not a JSON array.
pub open spec fn alert_digest_spec(raw: Seq<char>) -> (int, bool) {
    match json_alert_severities(raw) {
        None => (0, false),
        Some(s) => (s.len() as int, exists|i: int| 0 <= i < s.len() && s[i] == Some("Critical"@)),
    }
}

/// Counts the alerts of a stored list and tells whether one is critical.
pub fn alert_digest(alerts_json: &str) -> (r: (usize, bool))
    ensures
        r.0 as int == alert_digest_spec(alerts_json@).0,
        r.1 == alert_digest_spec(alerts_json@).1,
{
    let severities = match read_alert_severities(alerts_json) {
        Some(s) => s,
        None => return (0, false),
    };
    let ghost sv = severities@.map_values(|s: Option<String>| opt_view(s));
    let mut critical = false;
    let mut i: usize = 0;
    while i < severities.len()
        invariant
            i <= severities@.len(),
            sv == severities@.map_values(|s: Option<String>| opt_view(s)),
            critical == exists|k: int| 0 <= k < i && sv[k] == Some("Critical"@),
        decreases severities.len() - i,
    {
        let hit = match &severities[i] {
            Some(s) => crate::text::str_eq(s.as_str(), "Critical"),
            None => false,
        };
        assert(sv[i as int] == opt_view(severities@[i as int]));
        if hit {
            critical = true;
        } else {
            assert forall|k: int| 0 <= k < i + 1 && sv[k] == Some("Critical"@) implies k < i by {
                if k == i {
                    match severities@[i as int] {
                        Some(s) => assert(s@ != "Critical"@),
                        None => {},
                    }
                }
            }
        }
        i = i + 1;
    }
    (severities.len(), critical)
}

} // verus!
