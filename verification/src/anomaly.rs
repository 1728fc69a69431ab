//! Light engine for detecting anomalous behaviour: local heuristics, basic
//! correlation, auditable evidence, no mass signatures and no destructive
//! automatic response.
//!
//! Measurements that are floating-point numbers (CPU percentage, memory,
//! bytes written) reach this module already compared against their thresholds
//! and already rendered as text: a [`ProcessObservation`] carries the outcome
//! of each comparison as a flag, the rendered figures and the raw bit patterns.

use crate::models::{
    change_label, evidence_view, opt_view, risk_label, risk_rank, strings_view, AnomalyEvent,
    AnomalyEventView, ConnectionInsight, ConnectionInsightView, IncidentEvidence,
    IncidentEvidenceView, PersistenceChange, PersistenceEntry, PersistenceEntryView, RiskLevel,
    ServiceState, ServiceStateView, Timestamp, clone_opt, millis,
};
use crate::network::{extract_ip, extract_ip_spec};
use crate::text::{
    join_strings, join_with, chars_of, concat_all, contains, contains_str, contains_vec, eq_ic, eq_ignore_case, int_text,
    int_text_exec, join_all, lower, lower_vec, starts_with, str_eq, to_lower, trim, trim_str,
    owned, vec_has, vec_starts,
};
use vstd::prelude::*;

verus! {

// ---------------------------------------------------------------------------
// Configuration
// ---------------------------------------------------------------------------

/// Settings of the anomaly engine that the rules read as plain values. The
/// floating-point thresholds (CPU percentage, memory growth, write volume) are
/// applied where the measurements are taken.
#[derive(Debug, Clone)]
pub struct AnomalyConfig {
    pub enabled: bool,
    pub cpu_sustained_samples: u8,
    pub memory_growth_samples: u8,
    pub aggressive_write_samples: u8,
    pub public_destination_count: usize,
    pub local_scan_destination_count: usize,
    pub respawn_window_secs: u64,
    pub respawn_count: u8,
    pub repetitive_script_count: u8,
    pub watch_persistence: bool,
    pub watch_network_devices: bool,
    pub watch_service_changes: bool,
    pub security_service_names: Vec<String>,
    pub suspicious_path_keywords: Vec<String>,
    pub trusted_process_names: Vec<String>,
    pub trusted_path_prefixes: Vec<String>,
    pub suspicious_parent_names: Vec<String>,
}

fn text_list(items: &[&str]) -> (r: Vec<String>)
    ensures
        strings_view(r@) == items@.map_values(|s: &str| s@),
{
    let mut out: Vec<String> = Vec::new();
    let mut i: usize = 0;
    while i < items.len()
        invariant
            i <= items@.len(),
            out@.len() == i,
            strings_view(out@) == items@.subrange(0, i as int).map_values(|s: &str| s@),
        decreases items.len() - i,
    {
        let ghost before = strings_view(out@);
        out.push(owned(items[i]));
        proof {
            let want = items@.subrange(0, i + 1).map_values(|s: &str| s@);
            assert forall|m: int| 0 <= m < i + 1 implies #[trigger] strings_view(out@)[m] == want[m] by {
                if m < i {
                    assert(before[m] == items@.subrange(0, i as int).map_values(|s: &str| s@)[m]);
                }
            }
            assert(strings_view(out@) =~= want);
        }
        i = i + 1;
    }
    assert(items@.subrange(0, items@.len() as int) =~= items@);
    out
}

impl Default for AnomalyConfig {
    /// Detection on, three consecutive samples for the measurement rules,
    /// 8 public or 20 private destinations, a 120-second respawn window,
    /// three respawns or four script repetitions, and every watcher on.
    fn default() -> (r: AnomalyConfig)
        ensures
            r.enabled,
            r.cpu_sustained_samples == 3,
            r.memory_growth_samples == 3,
            r.aggressive_write_samples == 3,
            r.public_destination_count == 8,
            r.local_scan_destination_count == 20,
            r.respawn_window_secs == 120,
            r.respawn_count == 3,
            r.repetitive_script_count == 4,
            r.watch_persistence,
            r.watch_network_devices,
            r.watch_service_changes,
            strings_view(r.security_service_names@) == seq!["WinDefend"@, "MpsSvc"@, "wscsvc"@, "Sense"@],
            strings_view(r.suspicious_path_keywords@) == seq![
                "\\appdata\\local\\temp\\"@,
                "\\temp\\"@,
                "\\downloads\\"@,
                "\\users\\public\\"@,
                "\\programdata\\"@,
            ],
            strings_view(r.trusted_process_names@) == seq![
                "system"@,
                "registry"@,
                "explorer.exe"@,
                "svchost.exe"@,
                "msmpeng.exe"@,
                "rootcause.exe"@,
            ],
            strings_view(r.trusted_path_prefixes@) == seq![
                "c:\\windows\\"@,
                "c:\\program files\\"@,
                "c:\\program files (x86)\\"@,
            ],
            strings_view(r.suspicious_parent_names@) == seq![
                "powershell.exe"@,
                "cmd.exe"@,
                "wscript.exe"@,
                "cscript.exe"@,
                "mshta.exe"@,
            ],
    {
        let services = text_list(&["WinDefend", "MpsSvc", "wscsvc", "Sense"]);
        let keywords = text_list(
            &["\\appdata\\local\\temp\\", "\\temp\\", "\\downloads\\", "\\users\\public\\", "\\programdata\\"],
        );
        let names = text_list(
            &["system", "registry", "explorer.exe", "svchost.exe", "msmpeng.exe", "rootcause.exe"],
        );
        let prefixes = text_list(&["c:\\windows\\", "c:\\program files\\", "c:\\program files (x86)\\"]);
        let parents = text_list(&["powershell.exe", "cmd.exe", "wscript.exe", "cscript.exe", "mshta.exe"]);
        AnomalyConfig {
            enabled: true,
            cpu_sustained_samples: 3,
            memory_growth_samples: 3,
            aggressive_write_samples: 3,
            public_destination_count: 8,
            local_scan_destination_count: 20,
            respawn_window_secs: 120,
            respawn_count: 3,
            repetitive_script_count: 4,
            watch_persistence: true,
            watch_network_devices: true,
            watch_service_changes: true,
            security_service_names: services,
            suspicious_path_keywords: keywords,
            trusted_process_names: names,
            trusted_path_prefixes: prefixes,
            suspicious_parent_names: parents,
        }
    }
}

// ---------------------------------------------------------------------------
// Rule specifications
// ---------------------------------------------------------------------------

/// Risk level of a score: 0-24 low, 25-49 medium, 50-79 high, 80+ critical.
pub open spec fn risk_from_score_spec(score: u16) -> RiskLevel {
    if score <= 24 {
        RiskLevel::Low
    } else if score <= 49 {
        RiskLevel::Medium
    } else if score <= 79 {
        RiskLevel::High
    } else {
        RiskLevel::Critical
    }
}

/// Some keyword, lower-cased, occurs in `text`.
pub open spec fn keyword_in(text: Seq<char>, keywords: Seq<Seq<char>>) -> bool {
    exists|i: int| 0 <= i < keywords.len() && contains(text, lower(#[trigger] keywords[i]))
}

/// A (lower-cased) path or its command line contains a suspicious keyword.
pub open spec fn path_is_suspicious_spec(
    path: Seq<char>,
    command_line: Option<Seq<char>>,
    keywords: Seq<Seq<char>>,
) -> bool {
    keyword_in(path, keywords) || match command_line {
        Some(c) => keyword_in(lower(c), keywords),
        None => false,
    }
}

/// A (lower-cased) path starts with a trusted prefix, lower-cased.
pub open spec fn trusted_path_spec(path: Seq<char>, prefixes: Seq<Seq<char>>) -> bool {
    exists|i: int| 0 <= i < prefixes.len() && starts_with(path, lower(#[trigger] prefixes[i]))
}

/// The name is a trusted process name (ignoring ASCII case) or the path is trusted.
pub open spec fn trusted_process_spec(
    name: Seq<char>,
    path: Seq<char>,
    names: Seq<Seq<char>>,
    prefixes: Seq<Seq<char>>,
) -> bool {
    (exists|i: int| 0 <= i < names.len() && eq_ignore_case(#[trigger] names[i], name))
        || trusted_path_spec(path, prefixes)
}

/// Script engines and launchers the rules watch.
pub open spec fn script_engine_needles() -> Seq<Seq<char>> {
    seq!["powershell"@, "cmd.exe"@, "wscript"@, "cscript"@, "mshta"@, "python"@]
}

/// The name or the command line mentions a script engine.
pub open spec fn script_engine_spec(name: Seq<char>, command_line: Option<Seq<char>>) -> bool {
    let ln = lower(name);
    let lc = match command_line {
        Some(c) => lower(c),
        None => Seq::empty(),
    };
    exists|i: int|
        0 <= i < script_engine_needles().len() && (contains(
            ln,
            #[trigger] script_engine_needles()[i],
        ) || contains(lc, script_engine_needles()[i]))
}

/// Script extensions and engines that make a command look like a script.
pub open spec fn script_command_needles() -> Seq<Seq<char>> {
    seq![
        ".ps1"@,
        ".bat"@,
        ".cmd"@,
        ".vbs"@,
        ".js"@,
        "powershell"@,
        "wscript"@,
        "cscript"@,
        "mshta"@,
    ]
}

/// The (lower-cased) command looks like a script invocation.
pub open spec fn script_command_spec(command: Seq<char>) -> bool {
    exists|i: int|
        0 <= i < script_command_needles().len() && contains(
            command,
            #[trigger] script_command_needles()[i],
        )
}

/// Signature of a script invocation: lower-cased name and trimmed command line.
pub open spec fn script_signature_spec(name: Seq<char>, command_line: Option<Seq<char>>) -> Option<
    Seq<char>,
> {
    match command_line {
        None => None,
        Some(c) => if trim(c).len() == 0 {
            None
        } else {
            Some(lower(name) + "|"@ + lower(trim(c)))
        },
    }
}

/// Score of a command that alters local security controls.
pub open spec fn security_control_spec(command_line: Option<Seq<char>>) -> Option<u16> {
    match command_line {
        None => None,
        Some(c) => if contains(lower(c), "set-mppreference"@) || contains(
            lower(c),
            "netsh advfirewall"@,
        ) {
            Some(84)
        } else {
            None
        },
    }
}

/// Interpreters and living-off-the-land binaries a child process may be.
pub open spec fn lolbin_needles() -> Seq<Seq<char>> {
    seq!["powershell.exe"@, "cmd.exe"@, "wscript.exe"@, "cscript.exe"@, "mshta.exe"@]
}

/// Office programs and browsers that should not launch interpreters.
pub open spec fn document_parent(parent_name: Seq<char>) -> bool {
    contains(parent_name, "winword"@) || contains(parent_name, "excel"@) || contains(
        parent_name,
        "outlook"@,
    ) || contains(parent_name, "chrome"@) || contains(parent_name, "msedge"@)
}

/// A parent/child pair that looks like chained execution.
pub open spec fn suspicious_parent_child_spec(
    parent_name: Seq<char>,
    child_name: Seq<char>,
    child_command_line: Option<Seq<char>>,
    suspicious_parents: Seq<Seq<char>>,
) -> bool {
    let p = lower(parent_name);
    let c = lower(child_name);
    let parent_is_interpreter = exists|i: int|
        0 <= i < suspicious_parents.len() && eq_ignore_case(#[trigger] suspicious_parents[i], p);
    let child_is_interpreter = script_engine_spec(c, child_command_line);
    let child_is_lolbin = exists|i: int|
        0 <= i < lolbin_needles().len() && contains(c, #[trigger] lolbin_needles()[i]);
    (parent_is_interpreter && (child_is_interpreter || child_is_lolbin)) || (document_parent(p)
        && (child_is_interpreter || child_is_lolbin))
}

/// The items of `s` without repetitions, each at its first position.
pub open spec fn dedupe_spec(s: Seq<Seq<char>>) -> Seq<Seq<char>>
    decreases s.len(),
{
    if s.len() == 0 {
        s
    } else {
        let d = dedupe_spec(s.drop_last());
        if d.contains(s.last()) {
            d
        } else {
            d.push(s.last())
        }
    }
}

/// Readable name of an anomaly kind, used when correlating signals.
pub open spec fn human_kind_spec(kind: Seq<char>) -> Seq<char> {
    if kind == "sustained-high-cpu"@ {
        "CPU sostenida"@
    } else if kind == "memory-growth"@ {
        "crecimiento de memoria"@
    } else if kind == "aggressive-disk-write"@ {
        "escritura agresiva"@
    } else if kind == "multi-destination-outbound"@ {
        "trafico saliente"@
    } else if kind == "suspicious-execution-path"@ {
        "ruta de ejecucion sospechosa"@
    } else if kind == "outside-trusted-baseline"@ {
        "fuera de linea base"@
    } else if kind == "suspicious-persistence"@ {
        "persistencia"@
    } else if kind == "rapid-respawn"@ {
        "reaparicion automatica"@
    } else if kind == "suspicious-parent-child"@ {
        "relacion padre-hijo sospechosa"@
    } else if kind == "repetitive-script-execution"@ {
        "scripts repetitivos"@
    } else if kind == "security-control-alteration"@ {
        "alteracion de seguridad"@
    } else if kind == "local-network-scan"@ {
        "escaneo de red local"@
    } else {
        "senales correlacionadas"@
    }
}

// ---------------------------------------------------------------------------
// Rules
// ---------------------------------------------------------------------------

/// Risk level of a score.
pub fn risk_from_score(score: u16) -> (r: RiskLevel)
    ensures
        r == risk_from_score_spec(score),
        score <= 24 ==> r == RiskLevel::Low,
        25 <= score <= 49 ==> r == RiskLevel::Medium,
        50 <= score <= 79 ==> r == RiskLevel::High,
        80 <= score ==> r == RiskLevel::Critical,
{
    if score <= 24 {
        RiskLevel::Low
    } else if score <= 49 {
        RiskLevel::Medium
    } else if score <= 79 {
        RiskLevel::High
    } else {
        RiskLevel::Critical
    }
}

/// Evidence built from a kind, a label and a value.
pub fn metric_evidence(kind: &str, label: &str, value: String) -> (r: IncidentEvidence)
    ensures
        r@ == (IncidentEvidenceView { kind: kind@, label: label@, value: value@ }),
{
    IncidentEvidence::new(kind, label, value)
}

fn keyword_in_exec(text: &Vec<char>, keywords: &Vec<String>) -> (r: bool)
    ensures
        r == keyword_in(text@, strings_view(keywords@)),
{
    let mut i: usize = 0;
    while i < keywords.len()
        invariant
            i <= keywords@.len(),
            forall|k: int|
                0 <= k < i ==> !contains(text@, lower(#[trigger] strings_view(keywords@)[k])),
        decreases keywords.len() - i,
    {
        let needle = lower_vec(&chars_of(keywords[i].as_str()));
        if contains_vec(text, &needle) {
            assert(strings_view(keywords@)[i as int] == keywords@[i as int]@);
            return true;
        }
        assert(strings_view(keywords@)[i as int] == keywords@[i as int]@);
        i = i + 1;
    }
    false
}

/// The (lower-cased) path or its command line contains a suspicious keyword.
pub fn path_is_suspicious(path: &str, command_line: &Option<String>, config: &AnomalyConfig) -> (r: bool)
    ensures
        r == path_is_suspicious_spec(
            path@,
            opt_view(*command_line),
            strings_view(config.suspicious_path_keywords@),
        ),
{
    let p = chars_of(path);
    if keyword_in_exec(&p, &config.suspicious_path_keywords) {
        return true;
    }
    match command_line {
        Some(cmd) => {
            let l = lower_vec(&chars_of(cmd.as_str()));
            keyword_in_exec(&l, &config.suspicious_path_keywords)
        },
        None => false,
    }
}

/// The (lower-cased) path starts with a trusted prefix.
pub fn is_trusted_path_only(path: &str, config: &AnomalyConfig) -> (r: bool)
    ensures
        r == trusted_path_spec(path@, strings_view(config.trusted_path_prefixes@)),
{
    let p = chars_of(path);
    let prefixes = &config.trusted_path_prefixes;
    let mut i: usize = 0;
    while i < prefixes.len()
        invariant
            p@ == path@,
            prefixes == &config.trusted_path_prefixes,
            i <= prefixes@.len(),
            forall|k: int|
                0 <= k < i ==> !starts_with(path@, lower(#[trigger] strings_view(prefixes@)[k])),
        decreases prefixes.len() - i,
    {
        let l = lower_vec(&chars_of(prefixes[i].as_str()));
        assert(strings_view(prefixes@)[i as int] == prefixes@[i as int]@);
        if crate::text::occurs_at_exec(&p, &l, 0) {
            return true;
        }
        i = i + 1;
    }
    false
}

/// The process is trusted by name or by path.
pub fn is_trusted_process(name: &str, path: &str, config: &AnomalyConfig) -> (r: bool)
    ensures
        r == trusted_process_spec(
            name@,
            path@,
            strings_view(config.trusted_process_names@),
            strings_view(config.trusted_path_prefixes@),
        ),
{
    let names = &config.trusted_process_names;
    let mut i: usize = 0;
    while i < names.len()
        invariant
            names == &config.trusted_process_names,
            i <= names@.len(),
            forall|k: int|
                0 <= k < i ==> !eq_ignore_case(#[trigger] strings_view(names@)[k], name@),
        decreases names.len() - i,
    {
        assert(strings_view(names@)[i as int] == names@[i as int]@);
        if eq_ic(names[i].as_str(), name) {
            return true;
        }
        i = i + 1;
    }
    is_trusted_path_only(path, config)
}

/// The name or the command line mentions a script engine.
pub fn looks_like_script_engine(name: &str, command_line: Option<&str>) -> (r: bool)
    ensures
        r == script_engine_spec(
            name@,
            match command_line {
                Some(c) => Some(c@),
                None => None,
            },
        ),
{
    let ln = lower_vec(&chars_of(name));
    let lc = match command_line {
        Some(c) => lower_vec(&chars_of(c)),
        None => Vec::new(),
    };
    let needles = ["powershell", "cmd.exe", "wscript", "cscript", "mshta", "python"];
    let ghost ns = script_engine_needles();
    let mut i: usize = 0;
    while i < 6
        invariant
            i <= 6,
            ln@ == lower(name@),
            lc@ == (match command_line {
                Some(c) => lower(c@),
                None => Seq::<char>::empty(),
            }),
            ns == script_engine_needles(),
            needles@.len() == 6,
            forall|k: int| 0 <= k < 6 ==> (#[trigger] needles@[k])@ == ns[k],
            forall|k: int| 0 <= k < i ==> !(contains(ln@, #[trigger] ns[k]) || contains(lc@, ns[k])),
        decreases 6 - i,
    {
        let n = chars_of(needles[i]);
        if contains_vec(&ln, &n) || contains_vec(&lc, &n) {
            proof {
                reveal_strlit("");
                assert(contains(ln@, ns[i as int]) || contains(lc@, ns[i as int]));
            }
            return true;
        }
        i = i + 1;
    }
    proof {
        reveal_strlit("");
    }
    false
}

/// The (lower-cased) command looks like a script invocation.
pub fn looks_like_script_command(command: &str) -> (r: bool)
    ensures
        r == script_command_spec(command@),
{
    let c = chars_of(command);
    let needles = [".ps1", ".bat", ".cmd", ".vbs", ".js", "powershell", "wscript", "cscript", "mshta"];
    let ghost ns = script_command_needles();
    let mut i: usize = 0;
    while i < 9
        invariant
            i <= 9,
            c@ == command@,
            ns == script_command_needles(),
            needles@.len() == 9,
            forall|k: int| 0 <= k < 9 ==> (#[trigger] needles@[k])@ == ns[k],
            forall|k: int| 0 <= k < i ==> !contains(command@, #[trigger] ns[k]),
        decreases 9 - i,
    {
        let n = chars_of(needles[i]);
        if contains_vec(&c, &n) {
            return true;
        }
        i = i + 1;
    }
    false
}

/// Signature of a script invocation, `None` without a non-blank command line.
pub fn normalize_script_signature(name: &str, command_line: &Option<String>) -> (r: Option<String>)
    ensures
        opt_view(r) == script_signature_spec(name@, opt_view(*command_line)),
{
    match command_line {
        None => None,
        Some(cmd) => {
            let t = trim_str(cmd.as_str());
            if t.unicode_len() == 0 {
                return None;
            }
            let ln = to_lower(name);
            let lt = to_lower(t.as_str());
            let r = join_all(&[ln.as_str(), "|", lt.as_str()]);
            proof {
                reveal_with_fuel(concat_all, 4);
            }
            Some(r)
        },
    }
}

/// Score of a command line that alters local security controls.
pub fn security_control_score(command_line: &Option<String>) -> (r: Option<u16>)
    ensures
        r == security_control_spec(opt_view(*command_line)),
{
    match command_line {
        None => None,
        Some(cmd) => {
            let l = lower_vec(&chars_of(cmd.as_str()));
            if vec_has(&l, "set-mppreference") || vec_has(&l, "netsh advfirewall") {
                Some(84)
            } else {
                None
            }
        },
    }
}

/// An Office program or a browser, by its (lower-cased) name.
pub open spec fn office_or_browser(lower_parent: Seq<char>) -> bool {
    ||| contains(lower_parent, "winword"@)
    ||| contains(lower_parent, "excel"@)
    ||| contains(lower_parent, "outlook"@)
    ||| contains(lower_parent, "chrome"@)
    ||| contains(lower_parent, "msedge"@)
}

/// A script engine or a living-off-the-land binary, by its (lower-cased) name.
pub open spec fn interpreter_name(lower_child: Seq<char>) -> bool {
    ||| contains(lower_child, "powershell"@)
    ||| contains(lower_child, "cmd.exe"@)
    ||| contains(lower_child, "wscript"@)
    ||| contains(lower_child, "cscript"@)
    ||| contains(lower_child, "mshta"@)
    ||| contains(lower_child, "python"@)
}

/// A parent/child pair that looks like chained execution.
pub fn suspicious_parent_child(
    parent_name: &str,
    child_name: &str,
    child_command_line: Option<&str>,
    config: &AnomalyConfig,
) -> (r: bool)
    ensures
        r == suspicious_parent_child_spec(
            parent_name@,
            child_name@,
            match child_command_line {
                Some(c) => Some(c@),
                None => None,
            },
            strings_view(config.suspicious_parent_names@),
        ),
        office_or_browser(lower(parent_name@)) && interpreter_name(lower(child_name@)) ==> r,
{
    proof {
        lemma_office_launching_interpreter(
            parent_name@,
            child_name@,
            match child_command_line {
                Some(c) => Some(c@),
                None => None,
            },
            strings_view(config.suspicious_parent_names@),
        );
    }
    let p = to_lower(parent_name);
    let c = to_lower(child_name);
    let parents = &config.suspicious_parent_names;
    let mut parent_is_interpreter = false;
    let mut i: usize = 0;
    while i < parents.len() && !parent_is_interpreter
        invariant
            parents == &config.suspicious_parent_names,
            i <= parents@.len(),
            parent_is_interpreter ==> exists|k: int|
                0 <= k < parents@.len() && eq_ignore_case(#[trigger] strings_view(parents@)[k], p@),
            !parent_is_interpreter ==> forall|k: int|
                0 <= k < i ==> !eq_ignore_case(#[trigger] strings_view(parents@)[k], p@),
        decreases parents.len() - i + (if parent_is_interpreter { 0int } else { 1int }),
    {
        assert(strings_view(parents@)[i as int] == parents@[i as int]@);
        if eq_ic(parents[i].as_str(), p.as_str()) {
            parent_is_interpreter = true;
        } else {
            i = i + 1;
        }
    }
    let child_is_interpreter = looks_like_script_engine(c.as_str(), child_command_line);
    let cv = chars_of(c.as_str());
    let lolbins = ["powershell.exe", "cmd.exe", "wscript.exe", "cscript.exe", "mshta.exe"];
    let ghost ls = lolbin_needles();
    let mut child_is_lolbin = false;
    let mut j: usize = 0;
    while j < 5 && !child_is_lolbin
        invariant
            j <= 5,
            cv@ == c@,
            ls == lolbin_needles(),
            lolbins@.len() == 5,
            forall|k: int| 0 <= k < 5 ==> (#[trigger] lolbins@[k])@ == ls[k],
            child_is_lolbin ==> exists|k: int| 0 <= k < 5 && contains(c@, #[trigger] ls[k]),
            !child_is_lolbin ==> forall|k: int| 0 <= k < j ==> !contains(c@, #[trigger] ls[k]),
        decreases 5 - j + (if child_is_lolbin { 0int } else { 1int }),
    {
        let n = chars_of(lolbins[j]);
        if contains_vec(&cv, &n) {
            child_is_lolbin = true;
            assert(contains(c@, ls[j as int]));
        } else {
            j = j + 1;
        }
    }
    let pv = chars_of(p.as_str());
    let document = vec_has(&pv, "winword") || vec_has(&pv, "excel") || vec_has(&pv, "outlook")
        || vec_has(&pv, "chrome") || vec_has(&pv, "msedge");
    proof {
        lemma_lower_idempotent(child_name@);
        assert(lower(c@) == c@);
    }
    (parent_is_interpreter && (child_is_interpreter || child_is_lolbin)) || (document && (
    child_is_interpreter || child_is_lolbin))
}

/// An Office program or a browser that launches a script engine or a
/// living-off-the-land binary is always a suspicious pair, whatever parents
/// the configuration lists as interpreters and whatever the command line.
pub proof fn lemma_office_launching_interpreter(
    parent_name: Seq<char>,
    child_name: Seq<char>,
    child_command_line: Option<Seq<char>>,
    suspicious_parents: Seq<Seq<char>>,
)
    ensures
        office_or_browser(lower(parent_name)) && interpreter_name(lower(child_name)) ==> suspicious_parent_child_spec(
            parent_name,
            child_name,
            child_command_line,
            suspicious_parents,
        ),
{
    if office_or_browser(lower(parent_name)) && interpreter_name(lower(child_name)) {
        let c = lower(child_name);
        lemma_lower_idempotent(child_name);
        assert(lower(c) == c);
        let ns = script_engine_needles();
        if contains(c, "powershell"@) {
            assert(ns[0] == "powershell"@);
        } else if contains(c, "cmd.exe"@) {
            assert(ns[1] == "cmd.exe"@);
        } else if contains(c, "wscript"@) {
            assert(ns[2] == "wscript"@);
        } else if contains(c, "cscript"@) {
            assert(ns[3] == "cscript"@);
        } else if contains(c, "mshta"@) {
            assert(ns[4] == "mshta"@);
        } else {
            assert(ns[5] == "python"@);
        }
        assert(script_engine_spec(c, child_command_line));
    }
}

/// Lower-casing twice is lower-casing once.
pub proof fn lemma_lower_idempotent(s: Seq<char>)
    ensures
        lower(lower(s)) == lower(s),
{
    assert(lower(lower(s)) =~= lower(s));
}

/// The strings of `items` without repetitions, each at its first position.
pub fn dedupe(items: Vec<String>) -> (r: Vec<String>)
    ensures
        strings_view(r@) == dedupe_spec(strings_view(items@)),
{
    let mut out: Vec<String> = Vec::new();
    let mut i: usize = 0;
    while i < items.len()
        invariant
            i <= items@.len(),
            strings_view(out@) == dedupe_spec(strings_view(items@.subrange(0, i as int))),
        decreases items.len() - i,
    {
        let item = &items[i];
        proof {
            let pre = strings_view(items@.subrange(0, i + 1));
            assert(pre.drop_last() =~= strings_view(items@.subrange(0, i as int)));
            assert(pre.last() == item@);
        }
        let mut found = false;
        let mut j: usize = 0;
        while j < out.len() && !found
            invariant
                j <= out@.len(),
                found ==> j < out@.len() && out@[j as int]@ == item@,
                !found ==> forall|k: int| 0 <= k < j ==> (#[trigger] out@[k])@ != item@,
            decreases out.len() - j + (if found { 0int } else { 1int }),
        {
            if str_eq(out[j].as_str(), item.as_str()) {
                found = true;
            } else {
                j = j + 1;
            }
        }
        let ghost before = strings_view(out@);
        if !found {
            proof {
                assert(!before.contains(item@)) by {
                    if before.contains(item@) {
                        let k = choose|k: int| 0 <= k < before.len() && before[k] == item@;
                        assert(before.len() == out@.len());
                        assert(out@[k]@ == before[k]);
                    }
                }
            }
            out.push(item.clone());
            assert(strings_view(out@) =~= before.push(item@));
        } else {
            proof {
                assert(before[j as int] == out@[j as int]@);
                assert(before.contains(item@));
            }
        }
        i = i + 1;
    }
    assert(items@.subrange(0, items@.len() as int) =~= items@);
    out
}

/// Readable name of an anomaly kind.
pub fn human_kind(kind: &str) -> (r: &'static str)
    ensures
        r@ == human_kind_spec(kind@),
{
    let k = chars_of(kind);
    if crate::text::vec_is(&k, "sustained-high-cpu") {
        "CPU sostenida"
    } else if crate::text::vec_is(&k, "memory-growth") {
        "crecimiento de memoria"
    } else if crate::text::vec_is(&k, "aggressive-disk-write") {
        "escritura agresiva"
    } else if crate::text::vec_is(&k, "multi-destination-outbound") {
        "trafico saliente"
    } else if crate::text::vec_is(&k, "suspicious-execution-path") {
        "ruta de ejecucion sospechosa"
    } else if crate::text::vec_is(&k, "outside-trusted-baseline") {
        "fuera de linea base"
    } else if crate::text::vec_is(&k, "suspicious-persistence") {
        "persistencia"
    } else if crate::text::vec_is(&k, "rapid-respawn") {
        "reaparicion automatica"
    } else if crate::text::vec_is(&k, "suspicious-parent-child") {
        "relacion padre-hijo sospechosa"
    } else if crate::text::vec_is(&k, "repetitive-script-execution") {
        "scripts repetitivos"
    } else if crate::text::vec_is(&k, "security-control-alteration") {
        "alteracion de seguridad"
    } else if crate::text::vec_is(&k, "local-network-scan") {
        "escaneo de red local"
    } else {
        "senales correlacionadas"
    }
}

// ---------------------------------------------------------------------------
// Events
// ---------------------------------------------------------------------------

/// A process as the anomaly rules read it. The floating-point measurements are
/// carried by their bit patterns, by their rendering as text and by the
/// outcome of the threshold comparisons made where they were measured.
#[derive(Debug, Clone, Default)]
pub struct ProcessObservation {
    pub pid: u32,
    pub name: String,
    pub exe_path: String,
    pub parent_pid: Option<u32>,
    pub command_line: Option<String>,
    /// `f32::to_bits` of the CPU percentage.
    pub cpu_percent_bits: u32,
    /// `f32::to_bits` of the memory in MB.
    pub memory_mb_bits: u32,
    /// `f32::to_bits` of the MB written in the interval.
    pub io_write_mb_delta_bits: u32,
    /// CPU percentage with one decimal (`{:.1}`).
    pub cpu_text: String,
    /// Memory in MB without decimals (`{:.0}`).
    pub memory_text: String,
    /// MB written in the interval with one decimal (`{:.1}`).
    pub io_write_text: String,
    /// Memory growth since the previous sample, never negative, with one decimal.
    pub memory_growth_text: String,
    /// CPU at or above the sustained-CPU threshold.
    pub cpu_high: bool,
    /// A previous sample exists and memory grew by at least the growth threshold.
    pub memory_grew: bool,
    /// Writes at or above the aggressive-write threshold.
    pub write_aggressive: bool,
    /// CPU at or above 30% or writes at or above 40 MB.
    pub busy: bool,
}

pub struct ProcessObservationView {
    pub pid: u32,
    pub name: Seq<char>,
    pub exe_path: Seq<char>,
    pub parent_pid: Option<u32>,
    pub command_line: Option<Seq<char>>,
    pub cpu_percent_bits: u32,
    pub memory_mb_bits: u32,
    pub io_write_mb_delta_bits: u32,
    pub cpu_text: Seq<char>,
    pub memory_text: Seq<char>,
    pub io_write_text: Seq<char>,
    pub memory_growth_text: Seq<char>,
    pub cpu_high: bool,
    pub memory_grew: bool,
    pub write_aggressive: bool,
    pub busy: bool,
}

impl View for ProcessObservation {
    type V = ProcessObservationView;

    open spec fn view(&self) -> ProcessObservationView {
        ProcessObservationView {
            pid: self.pid,
            name: self.name@,
            exe_path: self.exe_path@,
            parent_pid: self.parent_pid,
            command_line: opt_view(self.command_line),
            cpu_percent_bits: self.cpu_percent_bits,
            memory_mb_bits: self.memory_mb_bits,
            io_write_mb_delta_bits: self.io_write_mb_delta_bits,
            cpu_text: self.cpu_text@,
            memory_text: self.memory_text@,
            io_write_text: self.io_write_text@,
            memory_growth_text: self.memory_growth_text@,
            cpu_high: self.cpu_high,
            memory_grew: self.memory_grew,
            write_aggressive: self.write_aggressive,
            busy: self.busy,
        }
    }
}

/// Distinct public and private destinations of one process.
#[derive(Debug, Clone, Copy, Default, PartialEq, Eq, Structural)]
pub struct ProcessNetworkSummary {
    pub public_unique_destinations: usize,
    pub private_unique_destinations: usize,
}

/// What varies between the events raised for a process.
pub struct ProcessEventSpec<'a> {
    pub detected_at: Timestamp,
    pub kind: &'a str,
    pub title: &'a str,
    pub score: u16,
    pub parent: Option<&'a ProcessObservation>,
    pub summary: String,
    pub root_cause_hypothesis: String,
    pub recommended_action: &'a str,
    pub evidence: Vec<IncidentEvidence>,
    pub network: &'a ProcessNetworkSummary,
}

/// The evidence of a process event: the specific items, then the command line
/// and the destination counts when there are any.
pub open spec fn process_evidence_spec(
    base: Seq<IncidentEvidenceView>,
    p: ProcessObservationView,
    n: ProcessNetworkSummary,
) -> Seq<IncidentEvidenceView> {
    base + (match p.command_line {
        Some(c) => seq![IncidentEvidenceView { kind: "command-line"@, label: "Command line"@, value: c }],
        None => Seq::empty(),
    }) + (if n.public_unique_destinations > 0 {
        seq![
            IncidentEvidenceView {
                kind: "public-remotes"@,
                label: "Destinos publicos"@,
                value: int_text(n.public_unique_destinations as int),
            },
        ]
    } else {
        Seq::empty()
    }) + (if n.private_unique_destinations > 0 {
        seq![
            IncidentEvidenceView {
                kind: "private-remotes"@,
                label: "Destinos privados"@,
                value: int_text(n.private_unique_destinations as int),
            },
        ]
    } else {
        Seq::empty()
    })
}

/// The event raised for a process.
pub open spec fn process_event_spec(
    p: ProcessObservationView,
    at: Timestamp,
    kind: Seq<char>,
    title: Seq<char>,
    score: u16,
    parent_name: Option<Seq<char>>,
    summary: Seq<char>,
    hypothesis: Seq<char>,
    action: Seq<char>,
    evidence: Seq<IncidentEvidenceView>,
    n: ProcessNetworkSummary,
) -> AnomalyEventView {
    AnomalyEventView {
        event_id: "anom-"@ + int_text(millis(at)) + "-"@ + kind + "-"@ + int_text(p.pid as int),
        detected_at: at,
        severity: risk_from_score_spec(score),
        score,
        status: "open"@,
        kind,
        title,
        process_name: Some(p.name),
        pid: Some(p.pid),
        parent_pid: p.parent_pid,
        parent_name,
        user: None,
        exe_path: Some(p.exe_path),
        sha256: None,
        cpu_percent_bits: Some(p.cpu_percent_bits),
        memory_mb_bits: Some(p.memory_mb_bits),
        io_write_mb_delta_bits: Some(p.io_write_mb_delta_bits),
        unique_public_remotes: Some(n.public_unique_destinations),
        unique_private_remotes: Some(n.private_unique_destinations),
        summary,
        root_cause_hypothesis: hypothesis,
        recommended_action: action,
        evidence: process_evidence_spec(evidence, p, n),
    }
}

/// The name of an optional parent process.
pub open spec fn parent_name_of(parent: Option<&ProcessObservation>) -> Option<Seq<char>> {
    match parent {
        Some(q) => Some(q.name@),
        None => None,
    }
}

fn count_text(n: usize) -> (r: String)
    ensures
        r@ == int_text(n as int),
{
    int_text_exec(n as i128)
}

/// Builds the anomaly event of a process from what varies between rules.
pub fn build_process_event(process: &ProcessObservation, spec: ProcessEventSpec<'_>) -> (r: AnomalyEvent)
    ensures
        r@ == process_event_spec(
            process@,
            spec.detected_at,
            spec.kind@,
            spec.title@,
            spec.score,
            parent_name_of(spec.parent),
            spec.summary@,
            spec.root_cause_hypothesis@,
            spec.recommended_action@,
            evidence_view(spec.evidence@),
            *spec.network,
        ),
{
    let ProcessEventSpec {
        detected_at,
        kind,
        title,
        score,
        parent,
        summary,
        root_cause_hypothesis,
        recommended_action,
        mut evidence,
        network,
    } = spec;
    let ghost base = evidence_view(evidence@);
    match &process.command_line {
        Some(cmdline) => {
            let ghost b = evidence_view(evidence@);
            evidence.push(metric_evidence("command-line", "Command line", cmdline.clone()));
            assert(evidence_view(evidence@) =~= b + seq![
                IncidentEvidenceView { kind: "command-line"@, label: "Command line"@, value: cmdline@ },
            ]);
        },
        None => {},
    }
    let ghost after_cmd = evidence_view(evidence@);
    if network.public_unique_destinations > 0 {
        let ghost b = evidence_view(evidence@);
        evidence.push(
            metric_evidence(
                "public-remotes",
                "Destinos publicos",
                count_text(network.public_unique_destinations),
            ),
        );
        assert(evidence_view(evidence@) =~= b + seq![
            IncidentEvidenceView {
                kind: "public-remotes"@,
                label: "Destinos publicos"@,
                value: int_text(network.public_unique_destinations as int),
            },
        ]);
    }
    let ghost after_pub = evidence_view(evidence@);
    if network.private_unique_destinations > 0 {
        let ghost b = evidence_view(evidence@);
        evidence.push(
            metric_evidence(
                "private-remotes",
                "Destinos privados",
                count_text(network.private_unique_destinations),
            ),
        );
        assert(evidence_view(evidence@) =~= b + seq![
            IncidentEvidenceView {
                kind: "private-remotes"@,
                label: "Destinos privados"@,
                value: int_text(network.private_unique_destinations as int),
            },
        ]);
    }
    proof {
        let ext = process_evidence_spec(base, process@, *network);
        assert(evidence_view(evidence@) =~= ext);
    }
    let stamp = int_text_exec(detected_at.millis());
    let pid_text = int_text_exec(process.pid as i128);
    let event_id = join_all(&["anom-", stamp.as_str(), "-", kind, "-", pid_text.as_str()]);
    proof {
        reveal_with_fuel(concat_all, 7);
    }
    AnomalyEvent {
        event_id,
        detected_at,
        severity: risk_from_score(score),
        score,
        status: "open".to_owned(),
        kind: kind.to_owned(),
        title: title.to_owned(),
        process_name: Some(process.name.clone()),
        pid: Some(process.pid),
        parent_pid: process.parent_pid,
        parent_name: match parent {
            Some(q) => Some(q.name.clone()),
            None => None,
        },
        user: None,
        exe_path: Some(process.exe_path.clone()),
        sha256: None,
        cpu_percent_bits: Some(process.cpu_percent_bits),
        memory_mb_bits: Some(process.memory_mb_bits),
        io_write_mb_delta_bits: Some(process.io_write_mb_delta_bits),
        unique_public_remotes: Some(network.public_unique_destinations),
        unique_private_remotes: Some(network.private_unique_destinations),
        summary,
        root_cause_hypothesis,
        recommended_action: recommended_action.to_owned(),
        evidence,
    }
}

/// The event for a suspicious autostart entry (not for entries marked removed).
pub open spec fn persistence_event_spec(
    at: Timestamp,
    e: PersistenceEntryView,
    keywords: Seq<Seq<char>>,
    prefixes: Seq<Seq<char>>,
) -> Option<AnomalyEventView> {
    let command_lower = lower(e.command);
    let path_lower = lower(
        match e.target_path {
            Some(t) => t,
            None => e.command,
        },
    );
    let suspicious = path_is_suspicious_spec(path_lower, Some(e.command), keywords);
    let script_like = script_command_spec(command_lower);
    let untrusted = !trusted_path_spec(path_lower, prefixes);
    if e.change_status == PersistenceChange::Removed || (!suspicious && !script_like
        && !untrusted) {
        None
    } else {
        let score = (42 + (if suspicious {
            18int
        } else {
            0
        }) + (if script_like {
            12int
        } else {
            0
        }) + (if !e.exists_on_disk {
            10int
        } else {
            0
        })) as u16;
        Some(
            AnomalyEventView {
                event_id: "anom-"@ + int_text(millis(at)) + "-persistence-"@ + e.name,
                detected_at: at,
                severity: risk_from_score_spec(score),
                score,
                status: "open"@,
                kind: "suspicious-persistence"@,
                title: "Persistencia sospechosa"@,
                process_name: None,
                pid: None,
                parent_pid: None,
                parent_name: None,
                user: None,
                exe_path: e.target_path,
                sha256: None,
                cpu_percent_bits: None,
                memory_mb_bits: None,
                io_write_mb_delta_bits: None,
                unique_public_remotes: None,
                unique_private_remotes: None,
                summary: e.entry_kind + " registra '"@ + e.name + "' en "@ + e.location + "."@,
                root_cause_hypothesis: "degradacion compatible con actividad persistente no autorizada"@,
                recommended_action: "Revisar persistencia, validar origen del binario y escanear con antivirus/EDR si no corresponde."@,
                evidence: seq![
                    IncidentEvidenceView { kind: "location"@, label: "Ubicacion"@, value: e.location },
                    IncidentEvidenceView { kind: "command"@, label: "Comando"@, value: e.command },
                ],
            },
        )
    }
}

/// Raises an event for a suspicious autostart entry.
pub fn persistence_event(detected_at: Timestamp, entry: &PersistenceEntry, config: &AnomalyConfig) -> (r: Option<AnomalyEvent>)
    ensures
        match r {
            Some(ev) => persistence_event_spec(
                detected_at,
                entry@,
                strings_view(config.suspicious_path_keywords@),
                strings_view(config.trusted_path_prefixes@),
            ) == Some(ev@),
            None => persistence_event_spec(
                detected_at,
                entry@,
                strings_view(config.suspicious_path_keywords@),
                strings_view(config.trusted_path_prefixes@),
            ) is None,
        },
{
    if entry.change_status == PersistenceChange::Removed {
        return None;
    }
    let command_lower = to_lower(entry.command.as_str());
    let path_lower = match &entry.target_path {
        Some(t) => to_lower(t.as_str()),
        None => to_lower(entry.command.as_str()),
    };
    let cmd = Some(entry.command.clone());
    let suspicious_path = path_is_suspicious(path_lower.as_str(), &cmd, config);
    let script_like = looks_like_script_command(command_lower.as_str());
    let untrusted = !is_trusted_path_only(path_lower.as_str(), config);
    if !suspicious_path && !script_like && !untrusted {
        return None;
    }
    let mut score: u16 = 42;
    if suspicious_path {
        score = score + 18;
    }
    if script_like {
        score = score + 12;
    }
    if !entry.exists_on_disk {
        score = score + 10;
    }
    let stamp = int_text_exec(detected_at.millis());
    let event_id = join_all(&["anom-", stamp.as_str(), "-persistence-", entry.name.as_str()]);
    let summary = join_all(
        &[entry.entry_kind.as_str(), " registra '", entry.name.as_str(), "' en ", entry.location.as_str(), "."],
    );
    proof {
        reveal_with_fuel(concat_all, 7);
    }
    let evidence = vec![
        metric_evidence("location", "Ubicacion", entry.location.clone()),
        metric_evidence("command", "Comando", entry.command.clone()),
    ];
    let ev = AnomalyEvent {
        event_id,
        detected_at,
        severity: risk_from_score(score),
        score,
        status: "open".to_owned(),
        kind: "suspicious-persistence".to_owned(),
        title: "Persistencia sospechosa".to_owned(),
        process_name: None,
        pid: None,
        parent_pid: None,
        parent_name: None,
        user: None,
        exe_path: clone_opt(&entry.target_path),
        sha256: None,
        cpu_percent_bits: None,
        memory_mb_bits: None,
        io_write_mb_delta_bits: None,
        unique_public_remotes: None,
        unique_private_remotes: None,
        summary,
        root_cause_hypothesis: "degradacion compatible con actividad persistente no autorizada".to_owned(),
        recommended_action: "Revisar persistencia, validar origen del binario y escanear con antivirus/EDR si no corresponde.".to_owned(),
        evidence,
    };
    proof {
        assert(evidence_view(ev.evidence@) =~= persistence_event_spec(
            detected_at,
            entry@,
            strings_view(config.suspicious_path_keywords@),
            strings_view(config.trusted_path_prefixes@),
        )->0.evidence);
    }
    Some(ev)
}

/// The event reported when an autostart entry changed with respect to the
/// known baseline (new, modified or removed).
pub open spec fn persistence_change_event_spec(at: Timestamp, e: PersistenceEntryView) -> Option<
    AnomalyEventView,
> {
    if e.change_status == PersistenceChange::Unchanged {
        None
    } else {
        let (severity, score, title, verb) = match e.change_status {
            PersistenceChange::Added => (RiskLevel::High, 70u16, "Autoarranque nuevo"@, "apareció"@),
            PersistenceChange::Modified => (
                RiskLevel::High,
                68u16,
                "Autoarranque modificado"@,
                "cambió de comando"@,
            ),
            _ => (RiskLevel::Medium, 45u16, "Autoarranque eliminado"@, "desapareció"@),
        };
        Some(
            AnomalyEventView {
                event_id: "anom-"@ + int_text(millis(at)) + "-persistchg-"@ + change_label(
                    e.change_status,
                ) + "-"@ + e.name,
                detected_at: at,
                severity,
                score,
                status: "open"@,
                kind: "persistence-change"@,
                title,
                process_name: None,
                pid: None,
                parent_pid: None,
                parent_name: None,
                user: None,
                exe_path: e.target_path,
                sha256: None,
                cpu_percent_bits: None,
                memory_mb_bits: None,
                io_write_mb_delta_bits: None,
                unique_public_remotes: None,
                unique_private_remotes: None,
                summary: "La entrada '"@ + e.name + "' en "@ + e.location + " ("@ + e.entry_kind
                    + ") "@ + verb + " respecto a la baseline conocida."@,
                root_cause_hypothesis: "cambio en un punto de autoarranque respecto al estado bueno conocido"@,
                recommended_action: if e.change_status == PersistenceChange::Removed {
                    "Confirmar si corresponde a una desinstalación esperada; si no, investigar."@
                } else {
                    "Verificar el origen del binario/comando y aceptar como baseline solo si es legítimo."@
                },
                evidence: seq![
                    IncidentEvidenceView { kind: "location"@, label: "Ubicacion"@, value: e.location },
                    IncidentEvidenceView { kind: "command"@, label: "Comando"@, value: e.command },
                    IncidentEvidenceView {
                        kind: "change"@,
                        label: "Cambio"@,
                        value: change_label(e.change_status),
                    },
                ],
            },
        )
    }
}

/// Raises an event when an autostart entry changed with respect to the known
/// baseline. Unlike `persistence_event` it does not depend on suspicion: any
/// change is reported so that the user keeps explicit control.
pub fn persistence_change_event(detected_at: Timestamp, entry: &PersistenceEntry) -> (r: Option<AnomalyEvent>)
    ensures
        match r {
            Some(ev) => persistence_change_event_spec(detected_at, entry@) == Some(ev@),
            None => persistence_change_event_spec(detected_at, entry@) is None,
        },
{
    let (severity, score, title, verb): (RiskLevel, u16, &str, &str) = match entry.change_status {
        PersistenceChange::Added => (RiskLevel::High, 70, "Autoarranque nuevo", "apareció"),
        PersistenceChange::Modified => (RiskLevel::High, 68, "Autoarranque modificado", "cambió de comando"),
        PersistenceChange::Removed => (RiskLevel::Medium, 45, "Autoarranque eliminado", "desapareció"),
        PersistenceChange::Unchanged => {
            return None;
        },
    };
    let stamp = int_text_exec(detected_at.millis());
    let label = entry.change_status.label();
    let event_id = join_all(&["anom-", stamp.as_str(), "-persistchg-", label, "-", entry.name.as_str()]);
    let summary = join_all(
        &[
            "La entrada '",
            entry.name.as_str(),
            "' en ",
            entry.location.as_str(),
            " (",
            entry.entry_kind.as_str(),
            ") ",
            verb,
            " respecto a la baseline conocida.",
        ],
    );
    proof {
        reveal_with_fuel(concat_all, 10);
    }
    let evidence = vec![
        metric_evidence("location", "Ubicacion", entry.location.clone()),
        metric_evidence("command", "Comando", entry.command.clone()),
        metric_evidence("change", "Cambio", label.to_owned()),
    ];
    let ev = AnomalyEvent {
        event_id,
        detected_at,
        severity,
        score,
        status: "open".to_owned(),
        kind: "persistence-change".to_owned(),
        title: title.to_owned(),
        process_name: None,
        pid: None,
        parent_pid: None,
        parent_name: None,
        user: None,
        exe_path: clone_opt(&entry.target_path),
        sha256: None,
        cpu_percent_bits: None,
        memory_mb_bits: None,
        io_write_mb_delta_bits: None,
        unique_public_remotes: None,
        unique_private_remotes: None,
        summary,
        root_cause_hypothesis: "cambio en un punto de autoarranque respecto al estado bueno conocido".to_owned(),
        recommended_action: match entry.change_status {
            PersistenceChange::Removed => "Confirmar si corresponde a una desinstalación esperada; si no, investigar.".to_owned(),
            _ => "Verificar el origen del binario/comando y aceptar como baseline solo si es legítimo.".to_owned(),
        },
        evidence,
    };
    proof {
        assert(evidence_view(ev.evidence@) =~= persistence_change_event_spec(detected_at, entry@)->0.evidence);
    }
    Some(ev)
}

/// The event for a watched security service that is not running.
pub open spec fn security_service_event_spec(
    at: Timestamp,
    s: ServiceStateView,
    watched: Seq<Seq<char>>,
) -> Option<AnomalyEventView> {
    let listed = exists|i: int| 0 <= i < watched.len() && eq_ignore_case(#[trigger] watched[i], s.name);
    if !listed || eq_ignore_case(s.status, "Running"@) {
        None
    } else {
        let critical = eq_ignore_case(s.name, "WinDefend"@) || eq_ignore_case(s.name, "MpsSvc"@);
        let score: u16 = if critical {
            86
        } else {
            68
        };
        Some(
            AnomalyEventView {
                event_id: "anom-"@ + int_text(millis(at)) + "-service-"@ + s.name,
                detected_at: at,
                severity: risk_from_score_spec(score),
                score,
                status: "open"@,
                kind: "security-service-disabled"@,
                title: "Servicio de seguridad alterado"@,
                process_name: None,
                pid: None,
                parent_pid: None,
                parent_name: None,
                user: None,
                exe_path: None,
                sha256: None,
                cpu_percent_bits: None,
                memory_mb_bits: None,
                io_write_mb_delta_bits: None,
                unique_public_remotes: None,
                unique_private_remotes: None,
                summary: s.display_name + " ("@ + s.name + ") reporta estado "@ + s.status + "."@,
                root_cause_hypothesis: "alteracion compatible con desactivacion o degradacion de mecanismos de seguridad locales"@,
                recommended_action: "Revisar manualmente el estado del servicio, validar politica local y escalar a revision de seguridad."@,
                evidence: seq![
                    IncidentEvidenceView { kind: "service"@, label: "Servicio"@, value: s.name },
                    IncidentEvidenceView { kind: "status"@, label: "Estado"@, value: s.status },
                    IncidentEvidenceView { kind: "start-type"@, label: "Inicio"@, value: s.start_type },
                ],
            },
        )
    }
}

/// Raises an event when a watched security service is not running.
pub fn security_service_event(detected_at: Timestamp, service: &ServiceState, config: &AnomalyConfig) -> (r: Option<AnomalyEvent>)
    ensures
        match r {
            Some(ev) => security_service_event_spec(detected_at, service@, strings_view(config.security_service_names@)) == Some(ev@),
            None => security_service_event_spec(detected_at, service@, strings_view(config.security_service_names@)) is None,
        },
{
    let names = &config.security_service_names;
    let mut listed = false;
    let mut i: usize = 0;
    while i < names.len() && !listed
        invariant
            names == &config.security_service_names,
            i <= names@.len(),
            listed ==> exists|k: int| 0 <= k < names@.len() && eq_ignore_case(#[trigger] strings_view(names@)[k], service@.name),
            !listed ==> forall|k: int| 0 <= k < i ==> !eq_ignore_case(#[trigger] strings_view(names@)[k], service@.name),
        decreases names.len() - i + (if listed { 0int } else { 1int }),
    {
        assert(strings_view(names@)[i as int] == names@[i as int]@);
        if eq_ic(names[i].as_str(), service.name.as_str()) {
            listed = true;
        } else {
            i = i + 1;
        }
    }
    if !listed {
        return None;
    }
    if eq_ic(service.status.as_str(), "Running") {
        return None;
    }
    let critical = eq_ic(service.name.as_str(), "WinDefend") || eq_ic(service.name.as_str(), "MpsSvc");
    let score: u16 = if critical { 86 } else { 68 };
    let stamp = int_text_exec(detected_at.millis());
    let event_id = join_all(&["anom-", stamp.as_str(), "-service-", service.name.as_str()]);
    let summary = join_all(
        &[service.display_name.as_str(), " (", service.name.as_str(), ") reporta estado ", service.status.as_str(), "."],
    );
    proof {
        reveal_with_fuel(concat_all, 7);
    }
    let evidence = vec![
        metric_evidence("service", "Servicio", service.name.clone()),
        metric_evidence("status", "Estado", service.status.clone()),
        metric_evidence("start-type", "Inicio", service.start_type.clone()),
    ];
    let ev = AnomalyEvent {
        event_id,
        detected_at,
        severity: risk_from_score(score),
        score,
        status: "open".to_owned(),
        kind: "security-service-disabled".to_owned(),
        title: "Servicio de seguridad alterado".to_owned(),
        process_name: None,
        pid: None,
        parent_pid: None,
        parent_name: None,
        user: None,
        exe_path: None,
        sha256: None,
        cpu_percent_bits: None,
        memory_mb_bits: None,
        io_write_mb_delta_bits: None,
        unique_public_remotes: None,
        unique_private_remotes: None,
        summary,
        root_cause_hypothesis: "alteracion compatible con desactivacion o degradacion de mecanismos de seguridad locales".to_owned(),
        recommended_action: "Revisar manualmente el estado del servicio, validar politica local y escalar a revision de seguridad.".to_owned(),
        evidence,
    };
    proof {
        assert(evidence_view(ev.evidence@) =~= security_service_event_spec(detected_at, service@, strings_view(config.security_service_names@))->0.evidence);
    }
    Some(ev)
}

// ---------------------------------------------------------------------------
// Network summary per process
// ---------------------------------------------------------------------------

/// The remote IP of a connection, or its whole remote address when no IP can
/// be taken from it.
pub open spec fn remote_ip_of(c: ConnectionInsightView) -> Seq<char> {
    match extract_ip_spec(c.remote_address) {
        Some(ip) => ip,
        None => c.remote_address,
    }
}

/// A non-public remote IP that counts as a private destination.
pub open spec fn counts_as_private(ip: Seq<char>) -> bool {
    ip.len() > 0 && ip != "*"@ && !eq_ignore_case(ip, "0.0.0.0"@)
}

/// The public remote IPs contacted by `pid`, in order, with repetitions.
pub open spec fn public_ips(cs: Seq<ConnectionInsightView>, pid: u32) -> Seq<Seq<char>>
    decreases cs.len(),
{
    if cs.len() == 0 {
        Seq::empty()
    } else {
        let c = cs.last();
        public_ips(cs.drop_last(), pid) + if c.pid == pid && c.is_public_remote {
            seq![remote_ip_of(c)]
        } else {
            Seq::empty()
        }
    }
}

/// The private remote IPs contacted by `pid`, in order, with repetitions.
pub open spec fn private_ips(cs: Seq<ConnectionInsightView>, pid: u32) -> Seq<Seq<char>>
    decreases cs.len(),
{
    if cs.len() == 0 {
        Seq::empty()
    } else {
        let c = cs.last();
        private_ips(cs.drop_last(), pid) + if c.pid == pid && !c.is_public_remote
            && counts_as_private(remote_ip_of(c)) {
            seq![remote_ip_of(c)]
        } else {
            Seq::empty()
        }
    }
}

/// The distinct public and private destinations of every process with at least one.
pub open spec fn network_summary_spec(cs: Seq<ConnectionInsightView>) -> Map<u32, ProcessNetworkSummary> {
    Map::new(
        |pid: u32| public_ips(cs, pid).len() > 0 || private_ips(cs, pid).len() > 0,
        |pid: u32|
            ProcessNetworkSummary {
                public_unique_destinations: dedupe_spec(public_ips(cs, pid)).len() as usize,
                private_unique_destinations: dedupe_spec(private_ips(cs, pid)).len() as usize,
            },
    )
}

struct PidDestinations {
    pid: u32,
    public: Vec<String>,
    private: Vec<String>,
}

/// Adds `ip` to `set` unless it is already there.
fn add_distinct(set: &mut Vec<String>, ip: String)
    ensures
        strings_view(final(set)@) == (if strings_view(old(set)@).contains(ip@) {
            strings_view(old(set)@)
        } else {
            strings_view(old(set)@).push(ip@)
        }),
{
    let ghost before = strings_view(set@);
    let mut j: usize = 0;
    while j < set.len()
        invariant
            j <= set@.len(),
            before == strings_view(set@),
            before.len() == set@.len(),
            forall|k: int| 0 <= k < j ==> (#[trigger] set@[k])@ != ip@,
        decreases set.len() - j,
    {
        if str_eq(set[j].as_str(), ip.as_str()) {
            assert(before[j as int] == ip@);
            return;
        }
        j = j + 1;
    }
    assert(!before.contains(ip@)) by {
        if before.contains(ip@) {
            let k = choose|k: int| 0 <= k < before.len() && before[k] == ip@;
            assert(set@[k]@ == before[k]);
        }
    }
    set.push(ip);
    assert(strings_view(set@) =~= before.push(ip@));
}

proof fn lemma_dedupe_push(s: Seq<Seq<char>>, x: Seq<char>)
    ensures
        dedupe_spec(s.push(x)) == (if dedupe_spec(s).contains(x) {
            dedupe_spec(s)
        } else {
            dedupe_spec(s).push(x)
        }),
{
    assert(s.push(x).drop_last() =~= s);
}

/// Counts, per process, its distinct public and private remote destinations.
#[verifier::spinoff_prover]
#[verifier::rlimit(40)]
pub fn summarize_network(connections: &[ConnectionInsight]) -> (r: std::collections::HashMap<u32, ProcessNetworkSummary>)
    ensures
        r@ == network_summary_spec(connections@.map_values(|c: ConnectionInsight| c@)),
{
    let ghost cs = connections@.map_values(|c: ConnectionInsight| c@);
    let mut table: Vec<PidDestinations> = Vec::new();
    let mut i: usize = 0;
    while i < connections.len()
        invariant
            i <= connections@.len(),
            cs == connections@.map_values(|c: ConnectionInsight| c@),
            cs.len() == connections@.len(),
            forall|a: int, b: int| 0 <= a < b < table@.len() ==> table@[a].pid != table@[b].pid,
            forall|k: int| 0 <= k < table@.len() ==> {
                let t = #[trigger] table@[k];
                &&& strings_view(t.public@) == dedupe_spec(public_ips(cs.subrange(0, i as int), t.pid))
                &&& strings_view(t.private@) == dedupe_spec(private_ips(cs.subrange(0, i as int), t.pid))
                &&& (public_ips(cs.subrange(0, i as int), t.pid).len() > 0 || private_ips(cs.subrange(0, i as int), t.pid).len() > 0)
            },
            forall|pid: u32| (public_ips(cs.subrange(0, i as int), pid).len() > 0 || private_ips(cs.subrange(0, i as int), pid).len() > 0)
                ==> exists|k: int| 0 <= k < table@.len() && (#[trigger] table@[k]).pid == pid,
        decreases connections.len() - i,
    {
        let c = &connections[i];
        let ghost pre = cs.subrange(0, i as int);
        let ghost post = cs.subrange(0, i + 1);
        let ghost old_table = table@;
        proof {
            assert(cs[i as int] == c@);
            assert forall|pid: u32| #![auto] true implies
                public_ips(post, pid) == public_ips(pre, pid) + (if c@.pid == pid && c@.is_public_remote { seq![remote_ip_of(c@)] } else { Seq::<Seq<char>>::empty() })
                && private_ips(post, pid) == private_ips(pre, pid) + (if c@.pid == pid && !c@.is_public_remote && counts_as_private(remote_ip_of(c@)) { seq![remote_ip_of(c@)] } else { Seq::<Seq<char>>::empty() }) by {
                assert(post.drop_last() =~= pre);
                assert(post.last() == c@);
            }
        }
        let ip = match extract_ip(c.remote_address.as_str()) {
            Some(ip) => ip,
            None => c.remote_address.clone(),
        };
        let is_private = !c.is_public_remote && ip.unicode_len() > 0 && !str_eq(ip.as_str(), "*")
            && !eq_ic(ip.as_str(), "0.0.0.0");
        assert(ip@ == remote_ip_of(c@));
        assert(is_private == (!c@.is_public_remote && counts_as_private(remote_ip_of(c@))));
        if c.is_public_remote || is_private {
            let mut k: usize = 0;
            while k < table.len() && table[k].pid != c.pid
                invariant
                    k <= table@.len(),
                    forall|m: int| 0 <= m < k ==> table@[m].pid != c.pid,
                decreases table.len() - k,
            {
                k = k + 1;
            }
            if k == table.len() {
                proof {
                    assert(public_ips(pre, c.pid).len() == 0 && private_ips(pre, c.pid).len() == 0) by {
                        if public_ips(pre, c.pid).len() > 0 || private_ips(pre, c.pid).len() > 0 {
                            let m = choose|m: int| 0 <= m < table@.len() && (#[trigger] table@[m]).pid == c.pid;
                        }
                    }
                    assert(public_ips(pre, c.pid) =~= Seq::<Seq<char>>::empty());
                    assert(private_ips(pre, c.pid) =~= Seq::<Seq<char>>::empty());
                }
                table.push(PidDestinations { pid: c.pid, public: Vec::new(), private: Vec::new() });
                proof {
                    assert(strings_view(table@[k as int].public@) =~= dedupe_spec(public_ips(pre, c.pid)));
                    assert(strings_view(table@[k as int].private@) =~= dedupe_spec(private_ips(pre, c.pid)));
                }
            }
            let ghost mid = table@;
            proof {
                assert(mid[k as int].pid == c@.pid);
                assert(strings_view(mid[k as int].public@) == dedupe_spec(public_ips(pre, c@.pid)));
                assert(strings_view(mid[k as int].private@) == dedupe_spec(private_ips(pre, c@.pid)));
            }
            let mut row = table.remove(k);
            let ghost old_pub = public_ips(pre, c@.pid);
            let ghost old_priv = private_ips(pre, c@.pid);
            if c.is_public_remote {
                add_distinct(&mut row.public, ip);
                proof { lemma_dedupe_push(old_pub, remote_ip_of(c@)); }
            } else {
                add_distinct(&mut row.private, ip);
                proof { lemma_dedupe_push(old_priv, remote_ip_of(c@)); }
            }
            let ghost row1 = row;
            proof {
                if c@.is_public_remote {
                    assert(public_ips(post, c@.pid) =~= old_pub.push(remote_ip_of(c@)));
                    assert(private_ips(post, c@.pid) =~= old_priv);
                } else {
                    assert(private_ips(post, c@.pid) =~= old_priv.push(remote_ip_of(c@)));
                    assert(public_ips(post, c@.pid) =~= old_pub);
                }
                assert(strings_view(row1.public@) == dedupe_spec(public_ips(post, c@.pid)));
                assert(strings_view(row1.private@) == dedupe_spec(private_ips(post, c@.pid)));
                assert(public_ips(post, c@.pid).len() > 0 || private_ips(post, c@.pid).len() > 0);
            }
            table.insert(k, row);
            proof {
                assert(table@[k as int] == row1);
                assert(table@.len() == mid.len());
                assert forall|m: int| 0 <= m < table@.len() && m != k implies table@[m] == mid[m] by {}
                assert forall|m: int| 0 <= m < table@.len() implies {
                    let t = #[trigger] table@[m];
                    &&& strings_view(t.public@) == dedupe_spec(public_ips(post, t.pid))
                    &&& strings_view(t.private@) == dedupe_spec(private_ips(post, t.pid))
                    &&& (public_ips(post, t.pid).len() > 0 || private_ips(post, t.pid).len() > 0)
                } by {
                    let t = table@[m];
                    if m == k {
                        assert(t.pid == c@.pid);
                    } else {
                        assert(t == mid[m]);
                        if (m as int) < (old_table.len() as int) {
                            assert(mid[m] == old_table[m]);
                        }
                        assert(t.pid != c@.pid);
                    }
                }
                assert forall|pid: u32| (public_ips(post, pid).len() > 0 || private_ips(post, pid).len() > 0)
                    implies exists|m: int| 0 <= m < table@.len() && (#[trigger] table@[m]).pid == pid by {
                    if pid == c@.pid {
                        assert(table@[k as int].pid == pid);
                    } else {
                        let m = choose|m: int| 0 <= m < old_table.len() && (#[trigger] old_table[m]).pid == pid;
                        assert(mid[m] == old_table[m]);
                        assert(table@[m] == mid[m]);
                    }
                }
                assert forall|a: int, b: int| 0 <= a < b < table@.len() implies table@[a].pid != table@[b].pid by {
                    if a != k && b != k {
                        assert(table@[a] == mid[a]);
                        assert(table@[b] == mid[b]);
                    }
                }
            }
        } else {
            proof {
                assert forall|m: int| 0 <= m < table@.len() implies {
                    let t = #[trigger] table@[m];
                    &&& strings_view(t.public@) == dedupe_spec(public_ips(post, t.pid))
                    &&& strings_view(t.private@) == dedupe_spec(private_ips(post, t.pid))
                    &&& (public_ips(post, t.pid).len() > 0 || private_ips(post, t.pid).len() > 0)
                } by {
                    let t = table@[m];
                    assert(public_ips(post, t.pid) =~= public_ips(pre, t.pid));
                    assert(private_ips(post, t.pid) =~= private_ips(pre, t.pid));
                }
                assert forall|pid: u32| (public_ips(post, pid).len() > 0 || private_ips(post, pid).len() > 0)
                    implies exists|m: int| 0 <= m < table@.len() && (#[trigger] table@[m]).pid == pid by {
                    assert(public_ips(post, pid) =~= public_ips(pre, pid));
                    assert(private_ips(post, pid) =~= private_ips(pre, pid));
                }
            }
        }
        i = i + 1;
    }
    assert(cs.subrange(0, connections@.len() as int) =~= cs);
    let mut out: std::collections::HashMap<u32, ProcessNetworkSummary> = std::collections::HashMap::new();
    let mut t: usize = 0;
    while t < table.len()
        invariant
            t <= table@.len(),
            forall|a: int, b: int| 0 <= a < b < table@.len() ==> table@[a].pid != table@[b].pid,
            forall|k: int| 0 <= k < table@.len() ==> {
                let x = #[trigger] table@[k];
                &&& strings_view(x.public@) == dedupe_spec(public_ips(cs, x.pid))
                &&& strings_view(x.private@) == dedupe_spec(private_ips(cs, x.pid))
                &&& (public_ips(cs, x.pid).len() > 0 || private_ips(cs, x.pid).len() > 0)
            },
            forall|pid: u32| out@.contains_key(pid) <==> exists|k: int| 0 <= k < t && (#[trigger] table@[k]).pid == pid,
            forall|pid: u32| #[trigger] out@.contains_key(pid) ==> out@[pid] == network_summary_spec(cs)[pid],
        decreases table.len() - t,
    {
        let row = &table[t];
        let summary = ProcessNetworkSummary {
            public_unique_destinations: row.public.len(),
            private_unique_destinations: row.private.len(),
        };
        proof {
            assert(strings_view(row.public@).len() == row.public@.len());
            assert(strings_view(row.private@).len() == row.private@.len());
        }
        out.insert(row.pid, summary);
        t = t + 1;
    }
    proof {
        assert(out@ =~= network_summary_spec(cs)) by {
            assert forall|pid: u32| network_summary_spec(cs).contains_key(pid) implies out@.contains_key(pid) by {
                let k = choose|k: int| 0 <= k < table@.len() && (#[trigger] table@[k]).pid == pid;
            }
        }
    }
    out
}

// ---------------------------------------------------------------------------
// Correlation
// ---------------------------------------------------------------------------

/// The context an event belongs to: its PID, else its path, else its process name.
pub open spec fn corr_key(e: AnomalyEventView) -> Option<Seq<char>> {
    match e.pid {
        Some(p) => Some("pid:"@ + int_text(p as int)),
        None => match e.exe_path {
            Some(x) => Some("path:"@ + x),
            None => match e.process_name {
                Some(n) => Some("name:"@ + n),
                None => None,
            },
        },
    }
}

/// The contexts of the events, in order, with repetitions.
pub open spec fn corr_keys(es: Seq<AnomalyEventView>) -> Seq<Seq<char>>
    decreases es.len(),
{
    if es.len() == 0 {
        Seq::empty()
    } else {
        corr_keys(es.drop_last()) + match corr_key(es.last()) {
            Some(k) => seq![k],
            None => Seq::empty(),
        }
    }
}

/// The events of one context, in order.
pub open spec fn members(es: Seq<AnomalyEventView>, key: Seq<char>) -> Seq<AnomalyEventView>
    decreases es.len(),
{
    if es.len() == 0 {
        Seq::empty()
    } else {
        members(es.drop_last(), key) + if corr_key(es.last()) == Some(key) {
            seq![es.last()]
        } else {
            Seq::empty()
        }
    }
}

/// The readable kinds of a group of events.
pub open spec fn human_kinds(g: Seq<AnomalyEventView>) -> Seq<Seq<char>> {
    g.map_values(|e: AnomalyEventView| human_kind_spec(e.kind))
}

/// The sum of the first three scores of a group, capped at 100.
pub open spec fn group_score(g: Seq<AnomalyEventView>) -> u16 {
    let sum = g[0].score + g[1].score + (if g.len() > 2 {
        g[2].score as int
    } else {
        0
    });
    if sum > 100 {
        100
    } else {
        sum as u16
    }
}

/// The first (at most) four events of a group as evidence.
pub open spec fn group_evidence(g: Seq<AnomalyEventView>) -> Seq<IncidentEvidenceView> {
    let n = if g.len() > 4 {
        4
    } else {
        g.len() as int
    };
    g.subrange(0, n).map_values(
        |e: AnomalyEventView| IncidentEvidenceView { kind: e.kind, label: e.title, value: e.summary },
    )
}

/// The event that correlates a group of at least two events of one context.
pub open spec fn correlated_event_spec(at: Timestamp, g: Seq<AnomalyEventView>) -> AnomalyEventView {
    let top = g[0];
    let score = group_score(g);
    AnomalyEventView {
        event_id: "anom-"@ + int_text(millis(at)) + "-correlation-"@ + int_text(
            match top.pid {
                Some(p) => p as int,
                None => 0,
            },
        ),
        detected_at: at,
        severity: risk_from_score_spec(score),
        score,
        status: "open"@,
        kind: "correlated-anomaly"@,
        title: "Correlacion de señales anomalas"@,
        process_name: top.process_name,
        pid: top.pid,
        parent_pid: top.parent_pid,
        parent_name: top.parent_name,
        user: top.user,
        exe_path: top.exe_path,
        sha256: None,
        cpu_percent_bits: top.cpu_percent_bits,
        memory_mb_bits: top.memory_mb_bits,
        io_write_mb_delta_bits: top.io_write_mb_delta_bits,
        unique_public_remotes: top.unique_public_remotes,
        unique_private_remotes: top.unique_private_remotes,
        summary: "Se correlacionaron "@ + int_text(g.len() as int)
            + " señales en el mismo proceso/contexto."@,
        root_cause_hypothesis: "riesgo "@ + lower(risk_label(risk_from_score_spec(score)))
            + " por combinacion de "@ + join_with(dedupe_spec(human_kinds(g)), " + "@),
        recommended_action: "Priorizar revision manual, preservar evidencia y considerar aislamiento de red o escaneo con antivirus/EDR si no corresponde al contexto."@,
        evidence: group_evidence(g),
    }
}

/// The correlation events of the given contexts, in order.
pub open spec fn correlate_over(at: Timestamp, es: Seq<AnomalyEventView>, keys: Seq<Seq<char>>) -> Seq<
    AnomalyEventView,
>
    decreases keys.len(),
{
    if keys.len() == 0 {
        Seq::empty()
    } else {
        correlate_over(at, es, keys.drop_last()) + if members(es, keys.last()).len() >= 2 {
            seq![correlated_event_spec(at, members(es, keys.last()))]
        } else {
            Seq::empty()
        }
    }
}

/// One correlation event per context with at least two events, contexts taken
/// in the order in which they first appear.
pub open spec fn correlate_spec(at: Timestamp, es: Seq<AnomalyEventView>) -> Seq<AnomalyEventView> {
    correlate_over(at, es, dedupe_spec(corr_keys(es)))
}

/// The views of a vector of events.
pub open spec fn events_view(v: Seq<AnomalyEvent>) -> Seq<AnomalyEventView> {
    v.map_values(|e: AnomalyEvent| e@)
}

fn corr_key_exec(e: &AnomalyEvent) -> (r: Option<String>)
    ensures
        opt_view(r) == corr_key(e@),
{
    match e.pid {
        Some(p) => {
            let t = int_text_exec(p as i128);
            Some(crate::text::concat2("pid:", t.as_str()))
        },
        None => match &e.exe_path {
            Some(x) => Some(crate::text::concat2("path:", x.as_str())),
            None => match &e.process_name {
                Some(n) => Some(crate::text::concat2("name:", n.as_str())),
                None => None,
            },
        },
    }
}

fn correlated_event(detected_at: Timestamp, anomalies: &[AnomalyEvent], idx: &Vec<usize>) -> (r: AnomalyEvent)
    requires
        idx@.len() >= 2,
        forall|k: int| 0 <= k < idx@.len() ==> #[trigger] idx@[k] < anomalies@.len(),
    ensures
        r@ == correlated_event_spec(
            detected_at,
            idx@.map_values(|j: usize| anomalies@[j as int]@),
        ),
{
    let ghost g = idx@.map_values(|j: usize| anomalies@[j as int]@);
    let top = &anomalies[idx[0]];
    assert(top@ == g[0]);
    // score
    let mut sum: u32 = anomalies[idx[0]].score as u32 + anomalies[idx[1]].score as u32;
    if idx.len() > 2 {
        sum = sum + anomalies[idx[2]].score as u32;
    }
    let score: u16 = if sum > 100 { 100 } else { sum as u16 };
    assert(score == group_score(g));
    // kinds
    let mut kinds: Vec<String> = Vec::new();
    let mut k: usize = 0;
    while k < idx.len()
        invariant
            k <= idx@.len(),
            forall|m: int| 0 <= m < idx@.len() ==> #[trigger] idx@[m] < anomalies@.len(),
            g == idx@.map_values(|j: usize| anomalies@[j as int]@),
            g.len() == idx@.len(),
            kinds@.len() == k,
            strings_view(kinds@) == human_kinds(g.subrange(0, k as int)),
        decreases idx.len() - k,
    {
        let hk = human_kind(anomalies[idx[k]].kind.as_str());
        let ghost before = strings_view(kinds@);
        let hk_owned = owned(hk);
        kinds.push(hk_owned);
        proof {
            assert(g[k as int] == anomalies@[idx@[k as int] as int]@);
            let want = human_kinds(g.subrange(0, k + 1));
            assert(want.len() == k + 1);
            assert forall|m: int| 0 <= m < k + 1 implies #[trigger] strings_view(kinds@)[m] == want[m] by {
                if m < k {
                    assert(before[m] == human_kinds(g.subrange(0, k as int))[m]);
                    assert(g.subrange(0, k as int)[m] == g.subrange(0, k + 1)[m]);
                }
            }
            assert(strings_view(kinds@) =~= want);
        }
        k = k + 1;
    }
    assert(g.subrange(0, idx@.len() as int) =~= g);
    let kinds = dedupe(kinds);
    let joined = join_strings(&kinds, " + ");
    assert(kinds@.map_values(|p: String| p@) == strings_view(kinds@));
    let level = risk_from_score(score);
    let level_text = to_lower(level.label());
    let hypothesis = join_all(&["riesgo ", level_text.as_str(), " por combinacion de ", joined.as_str()]);
    let count = int_text_exec(idx.len() as i128);
    let summary = join_all(&["Se correlacionaron ", count.as_str(), " señales en el mismo proceso/contexto."]);
    let stamp = int_text_exec(detected_at.millis());
    let top_pid: u32 = match top.pid {
        Some(p) => p,
        None => 0,
    };
    let pid_text = int_text_exec(top_pid as i128);
    let event_id = join_all(&["anom-", stamp.as_str(), "-correlation-", pid_text.as_str()]);
    proof {
        reveal_with_fuel(concat_all, 5);
    }
    // evidence
    let n: usize = if idx.len() > 4 { 4 } else { idx.len() };
    let mut evidence: Vec<IncidentEvidence> = Vec::new();
    let mut e: usize = 0;
    while e < n
        invariant
            e <= n,
            n <= idx@.len(),
            n == (if idx@.len() > 4 { 4 } else { idx@.len() }),
            forall|m: int| 0 <= m < idx@.len() ==> #[trigger] idx@[m] < anomalies@.len(),
            g == idx@.map_values(|j: usize| anomalies@[j as int]@),
            g.len() == idx@.len(),
            evidence@.len() == e,
            evidence_view(evidence@) == g.subrange(0, e as int).map_values(
                |x: AnomalyEventView| IncidentEvidenceView { kind: x.kind, label: x.title, value: x.summary },
            ),
        decreases n - e,
    {
        let ev = &anomalies[idx[e]];
        let ghost before = evidence_view(evidence@);
        evidence.push(metric_evidence(ev.kind.as_str(), ev.title.as_str(), ev.summary.clone()));
        proof {
            assert(g[e as int] == ev@);
            let want = g.subrange(0, e + 1).map_values(
                |x: AnomalyEventView| IncidentEvidenceView { kind: x.kind, label: x.title, value: x.summary },
            );
            let prev = g.subrange(0, e as int).map_values(
                |x: AnomalyEventView| IncidentEvidenceView { kind: x.kind, label: x.title, value: x.summary },
            );
            assert(want.len() == e + 1);
            assert forall|m: int| 0 <= m < e + 1 implies #[trigger] evidence_view(evidence@)[m] == want[m] by {
                if m < e {
                    assert(before[m] == prev[m]);
                    assert(g.subrange(0, e as int)[m] == g.subrange(0, e + 1)[m]);
                }
            }
            assert(evidence_view(evidence@) =~= want);
        }
        e = e + 1;
    }
    let r = AnomalyEvent {
        event_id,
        detected_at,
        severity: level,
        score,
        status: "open".to_owned(),
        kind: "correlated-anomaly".to_owned(),
        title: "Correlacion de señales anomalas".to_owned(),
        process_name: clone_opt(&top.process_name),
        pid: top.pid,
        parent_pid: top.parent_pid,
        parent_name: clone_opt(&top.parent_name),
        user: clone_opt(&top.user),
        exe_path: clone_opt(&top.exe_path),
        sha256: None,
        cpu_percent_bits: top.cpu_percent_bits,
        memory_mb_bits: top.memory_mb_bits,
        io_write_mb_delta_bits: top.io_write_mb_delta_bits,
        unique_public_remotes: top.unique_public_remotes,
        unique_private_remotes: top.unique_private_remotes,
        summary,
        root_cause_hypothesis: hypothesis,
        recommended_action: "Priorizar revision manual, preservar evidencia y considerar aislamiento de red o escaneo con antivirus/EDR si no corresponde al contexto.".to_owned(),
        evidence,
    };
    proof {
        assert(r@.evidence =~= group_evidence(g));
        assert(r@ =~= correlated_event_spec(detected_at, g));
    }
    r
}

/// Correlates the events that share a process or context: one event per
/// context with at least two signals.
pub fn correlate_anomalies(detected_at: Timestamp, anomalies: &[AnomalyEvent]) -> (r: Vec<AnomalyEvent>)
    ensures
        events_view(r@) == correlate_spec(detected_at, events_view(anomalies@)),
{
    let ghost es = events_view(anomalies@);
    // context of every event
    let mut keys: Vec<Option<String>> = Vec::new();
    let mut all: Vec<String> = Vec::new();
    let mut i: usize = 0;
    while i < anomalies.len()
        invariant
            i <= anomalies@.len(),
            es == events_view(anomalies@),
            es.len() == anomalies@.len(),
            keys@.len() == i,
            forall|m: int| 0 <= m < i ==> opt_view(#[trigger] keys@[m]) == corr_key(es[m]),
            strings_view(all@) == corr_keys(es.subrange(0, i as int)),
        decreases anomalies.len() - i,
    {
        let k = corr_key_exec(&anomalies[i]);
        proof {
            let pre = es.subrange(0, i + 1);
            assert(pre.drop_last() =~= es.subrange(0, i as int));
            assert(pre.last() == anomalies@[i as int]@);
        }
        let ghost before = strings_view(all@);
        match &k {
            Some(s) => {
                all.push(s.clone());
                assert(strings_view(all@) =~= before + seq![s@]);
            },
            None => {
                assert(strings_view(all@) =~= before + Seq::<Seq<char>>::empty());
            },
        }
        keys.push(k);
        i = i + 1;
    }
    assert(es.subrange(0, anomalies@.len() as int) =~= es);
    let distinct = dedupe(all);
    let ghost dk = strings_view(distinct@);
    let mut out: Vec<AnomalyEvent> = Vec::new();
    let mut d: usize = 0;
    while d < distinct.len()
        invariant
            d <= distinct@.len(),
            es == events_view(anomalies@),
            es.len() == anomalies@.len(),
            keys@.len() == anomalies@.len(),
            forall|m: int| 0 <= m < keys@.len() ==> opt_view(#[trigger] keys@[m]) == corr_key(es[m]),
            dk == strings_view(distinct@),
            dk.len() == distinct@.len(),
            dk == dedupe_spec(corr_keys(es)),
            events_view(out@) == correlate_over(detected_at, es, dk.subrange(0, d as int)),
        decreases distinct.len() - d,
    {
        let key = &distinct[d];
        // members of this context
        let mut idx: Vec<usize> = Vec::new();
        let mut j: usize = 0;
        while j < anomalies.len()
            invariant
                j <= anomalies@.len(),
                es == events_view(anomalies@),
                es.len() == anomalies@.len(),
                keys@.len() == anomalies@.len(),
                forall|m: int| 0 <= m < keys@.len() ==> opt_view(#[trigger] keys@[m]) == corr_key(es[m]),
                forall|m: int| 0 <= m < idx@.len() ==> #[trigger] idx@[m] < j,
                idx@.map_values(|x: usize| anomalies@[x as int]@) == members(es.subrange(0, j as int), key@),
            decreases anomalies.len() - j,
        {
            let same = match &keys[j] {
                Some(s) => str_eq(s.as_str(), key.as_str()),
                None => false,
            };
            proof {
                let pre = es.subrange(0, j + 1);
                assert(pre.drop_last() =~= es.subrange(0, j as int));
                assert(pre.last() == es[j as int]);
                assert(same == (corr_key(es[j as int]) == Some(key@)));
            }
            let ghost before = idx@.map_values(|x: usize| anomalies@[x as int]@);
            if same {
                idx.push(j);
                assert(idx@.map_values(|x: usize| anomalies@[x as int]@) =~= before + seq![es[j as int]]);
            } else {
                assert(idx@.map_values(|x: usize| anomalies@[x as int]@) =~= before + Seq::<AnomalyEventView>::empty());
            }
            j = j + 1;
        }
        assert(es.subrange(0, anomalies@.len() as int) =~= es);
        proof {
            let pre = dk.subrange(0, d + 1);
            assert(pre.drop_last() =~= dk.subrange(0, d as int));
            assert(pre.last() == key@);
        }
        let ghost before = events_view(out@);
        if idx.len() >= 2 {
            let ev = correlated_event(detected_at, anomalies, &idx);
            out.push(ev);
            assert(events_view(out@) =~= before + seq![correlated_event_spec(detected_at, members(es, key@))]);
        } else {
            assert(events_view(out@) =~= before + Seq::<AnomalyEventView>::empty());
        }
        d = d + 1;
    }
    assert(dk.subrange(0, distinct@.len() as int) =~= dk);
    out
}


// ---------------------------------------------------------------------------
// Laws
// ---------------------------------------------------------------------------

/// Removing repetitions keeps every item exactly once: the result repeats
/// nothing and holds exactly the items of the input.
pub proof fn lemma_dedupe_keeps_each_item_once(s: Seq<Seq<char>>)
    ensures
        dedupe_spec(s).no_duplicates(),
        forall|x: Seq<char>| dedupe_spec(s).contains(x) <==> s.contains(x),
    decreases s.len(),
{
    if s.len() > 0 {
        let t = s.drop_last();
        let x = s.last();
        let d = dedupe_spec(t);
        lemma_dedupe_keeps_each_item_once(t);
        assert forall|y: Seq<char>| dedupe_spec(s).contains(y) <==> s.contains(y) by {
            if s.contains(y) {
                let i = choose|i: int| 0 <= i < s.len() && s[i] == y;
                if i < t.len() {
                    assert(t[i] == y);
                    assert(t.contains(y));
                }
            }
            if t.contains(y) {
                let i = choose|i: int| 0 <= i < t.len() && t[i] == y;
                assert(s[i] == y);
            }
            if !d.contains(x) {
                if d.push(x).contains(y) {
                    let i = choose|i: int| 0 <= i < d.push(x).len() && d.push(x)[i] == y;
                    if i < d.len() {
                        assert(d[i] == y);
                    }
                }
                if d.contains(y) {
                    let i = choose|i: int| 0 <= i < d.len() && d[i] == y;
                    assert(d.push(x)[i] == y);
                }
                assert(d.push(x)[d.len() as int] == x);
            }
            assert(s[s.len() - 1] == x);
        }
        if !d.contains(x) {
            let e = d.push(x);
            assert forall|i: int, j: int| 0 <= i < e.len() && 0 <= j < e.len() && i != j implies e[i] != e[j] by {
                if i < d.len() && j < d.len() {
                    assert(e[i] == d[i] && e[j] == d[j]);
                } else if i < d.len() {
                    assert(e[i] == d[i]);
                    assert(d.contains(d[i]));
                } else {
                    assert(e[j] == d[j]);
                    assert(d.contains(d[j]));
                }
            }
        }
    }
}

/// A higher score never gives a lower risk level.
pub proof fn lemma_risk_is_monotone(a: u16, b: u16)
    requires
        a <= b,
    ensures
        risk_rank(risk_from_score_spec(a)) <= risk_rank(risk_from_score_spec(b)),
{
}

} // verus!
