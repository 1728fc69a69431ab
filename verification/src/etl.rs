//! Assisted summary of ETL captures exported by `tracerpt`.
//!
//! The exported XML is read line by line: events are assembled from their
//! provider and data lines, and every completed event is tallied (providers,
//! processes, paths, public IPs, indicators, findings). The tally is then
//! turned into a ranked, readable summary.

use crate::models::{
    Severity, TraceAnalysisSummary, TraceAnalysisSummaryView, TraceFinding, TraceFindingView,
    TracePathSummary, TracePathSummaryView, TraceProcessSummary, TraceProcessSummaryView,
};
use crate::order::{
    insert_pos, lemma_stable_sort_sorted, lemma_stable_sort_step, stable_insert, stable_sort, strict_order,
};
use crate::models::strings_view;
use crate::network::private_172_octet;
use crate::tracker::{find_key, keep, key_index, keyed_view, lemma_key_index, lookup, upsert, upsert_key};
use crate::text::{
    chars_of, concat2, concat_all, join_all, join_strings, join_with, int_text, int_text_exec, lex_lt,
    lex_lt_vec, split_char, split_char_str, contains, contains_str, contains_vec, ends_with, find, find_char_from,
    find_char_vec, find_from_vec, lower, lower_vec, owned, parse_unsigned, replace_all,
    replace_all_vec, starts_with, str_eq, string_from_range, to_lower, trim, trim_bounds, vec_ends,
    vec_has, vec_is, vec_starts, parse_unsigned_vec,
};
use vstd::prelude::*;

verus! {

// ---------------------------------------------------------------------------
// Field extraction
// ---------------------------------------------------------------------------

/// XML entities decoded (`&lt;`, `&gt;`, `&amp;`, `&quot;`, in that order),
/// then surrounding whitespace removed.
pub open spec fn cleanup_value_spec(value: Seq<char>) -> Seq<char> {
    trim(
        replace_all(
            replace_all(replace_all(replace_all(value, "&lt;"@, "<"@), "&gt;"@, ">"@), "&amp;"@, "&"@),
            "&quot;"@,
            "\""@,
        ),
    )
}

/// The value of attribute `attr` on an XML line, cleaned up.
pub open spec fn extract_attr_spec(line: Seq<char>, attr: Seq<char>) -> Option<Seq<char>> {
    let pattern = attr + "=\""@;
    match find(line, pattern) {
        None => None,
        Some(i) => {
            let tail = line.subrange(i + pattern.len(), line.len() as int);
            match find_char_from(tail, '"', 0) {
                None => None,
                Some(e) => Some(cleanup_value_spec(tail.subrange(0, e))),
            }
        },
    }
}

/// The text between the first `>` and the next `<` of an XML line, cleaned up.
pub open spec fn extract_text_spec(line: Seq<char>) -> Seq<char> {
    match find_char_from(line, '>', 0) {
        None => Seq::empty(),
        Some(i) => {
            let tail = line.subrange(i + 1, line.len() as int);
            let end = match find_char_from(tail, '<', 0) {
                Some(e) => e,
                None => tail.len() as int,
            };
            cleanup_value_spec(tail.subrange(0, end))
        },
    }
}

/// A drive path (`X:\...`) or a UNC path (`\\...`).
pub open spec fn looks_like_windows_path_spec(value: Seq<char>) -> bool {
    let t = trim(value);
    contains(t, ":\\"@) || starts_with(t, "\\\\"@)
}

/// Position of the last `\` or `/` before `upto`, or -1.
pub open spec fn last_separator(s: Seq<char>, upto: int) -> int
    decreases upto,
{
    if upto <= 0 || upto > s.len() {
        -1
    } else if s[upto - 1] == '\\' || s[upto - 1] == '/' {
        upto - 1
    } else {
        last_separator(s, upto - 1)
    }
}

/// What follows the last `\` or `/` (the whole text when there is none).
pub open spec fn last_segment(s: Seq<char>) -> Seq<char> {
    s.subrange(last_separator(s, s.len() as int) + 1, s.len() as int)
}

/// The image name a data field names, lower-cased, when the field is about an
/// image, a process or a command and the value ends in `.exe`, `.dll` or `.sys`.
pub open spec fn detect_process_name_spec(field_name: Seq<char>, value: Seq<char>) -> Option<Seq<char>> {
    let lf = lower(field_name);
    let lv = lower(value);
    if contains(lf, "image"@) || contains(lf, "process"@) || contains(lf, "command"@) {
        let last = last_segment(lv);
        if ends_with(last, ".exe"@) || ends_with(last, ".dll"@) || ends_with(last, ".sys"@) {
            Some(last)
        } else if ends_with(lv, ".exe"@) {
            Some(lv)
        } else {
            None
        }
    } else {
        None
    }
}

/// Public addresses as the trace summary sees them: not private, loopback,
/// link-local, unspecified or empty.
pub open spec fn trace_ip_is_public(ip: Seq<char>) -> bool {
    let s = trim(ip);
    !(starts_with(s, "10."@) || starts_with(s, "127."@) || starts_with(s, "192.168."@) || starts_with(
        s,
        "169.254."@,
    ) || s == "0.0.0.0"@ || s.len() == 0 || (starts_with(s, "172."@) && private_172_octet(
        s.subrange(4, s.len() as int),
    )))
}

// ---------------------------------------------------------------------------
// Path and process classification
// ---------------------------------------------------------------------------

/// A path of Windows Update servicing.
pub open spec fn is_windows_update_path_spec(path: Seq<char>) -> bool {
    let l = lower(path);
    contains(l, "\\softwaredistribution\\"@) || contains(l, "catroot"@) || contains(l, "winsxs"@)
}

/// A path of Delivery Optimization.
pub open spec fn is_delivery_optimization_path_spec(path: Seq<char>) -> bool {
    contains(lower(path), "deliveryoptimization"@)
}

/// An executable, library or installer under a temporary folder.
pub open spec fn is_temp_executable_path_spec(path: Seq<char>) -> bool {
    let l = lower(path);
    (contains(l, "\\temp\\"@) || contains(l, "\\appdata\\local\\temp\\"@)) && (ends_with(l, ".exe"@)
        || ends_with(l, ".dll"@) || ends_with(l, ".msi"@))
}

/// Category of a path in the summary.
pub open spec fn categorize_path_spec(path: Seq<char>) -> Seq<char> {
    let l = lower(path);
    if is_windows_update_path_spec(path) {
        "windows-update"@
    } else if is_delivery_optimization_path_spec(path) {
        "delivery-optimization"@
    } else if contains(l, "\\temp\\"@) || contains(l, "\\appdata\\local\\temp\\"@) {
        "temporal"@
    } else if starts_with(l, "c:\\windows"@) {
        "sistema"@
    } else {
        "usuario"@
    }
}

/// Severity of a path in the summary.
pub open spec fn severity_for_path_spec(path: Seq<char>) -> Severity {
    if is_temp_executable_path_spec(path) {
        Severity::Critical
    } else if is_windows_update_path_spec(path) || is_delivery_optimization_path_spec(path) {
        Severity::Warning
    } else {
        Severity::Healthy
    }
}

/// Names of update and installer processes.
pub open spec fn update_process_needles() -> Seq<Seq<char>> {
    seq![
        "trustedinstaller"@,
        "tiworker"@,
        "msiexec"@,
        "setup"@,
        "dism"@,
        "mouso"@,
        "usoclient"@,
        "wuauclt"@,
    ]
}

/// The (lower-cased) name belongs to an update or installer process.
pub open spec fn looks_like_update_process_spec(name: Seq<char>) -> bool {
    exists|i: int| 0 <= i < update_process_needles().len() && contains(name, #[trigger] update_process_needles()[i])
}

/// Why a process appears in the summary.
pub open spec fn reason_for_process_spec(name: Seq<char>) -> Seq<char> {
    if looks_like_update_process_spec(name) {
        "Patrón de actualización/instalación repetido dentro de la traza"@
    } else if contains(name, "svchost"@) {
        "Proceso del sistema muy presente; correlaciónalo con servicios y rutas"@
    } else {
        "Imagen repetida dentro del ETL"@
    }
}

/// A Windows Update or installer process, by name.
pub open spec fn update_or_installer_name(name: Seq<char>) -> bool {
    ||| contains(name, "trustedinstaller"@)
    ||| contains(name, "tiworker"@)
    ||| contains(name, "msiexec"@)
    ||| contains(name, "setup"@)
    ||| contains(name, "dism"@)
    ||| contains(name, "mouso"@)
    ||| contains(name, "usoclient"@)
    ||| contains(name, "wuauclt"@)
}

/// Every update or installer process is shown as a warning in a trace
/// summary, whatever else its name holds.
pub proof fn lemma_update_process_is_warning(name: Seq<char>)
    ensures
        update_or_installer_name(name) ==> infer_process_severity_spec(name) == Severity::Warning,
{
    let ns = update_process_needles();
    assert(ns[0] == "trustedinstaller"@);
    assert(ns[1] == "tiworker"@);
    assert(ns[2] == "msiexec"@);
    assert(ns[3] == "setup"@);
    assert(ns[4] == "dism"@);
    assert(ns[5] == "mouso"@);
    assert(ns[6] == "usoclient"@);
    assert(ns[7] == "wuauclt"@);
}

/// Severity of a process in the summary.
pub open spec fn infer_process_severity_spec(name: Seq<char>) -> Severity {
    if looks_like_update_process_spec(name) {
        Severity::Warning
    } else if contains(name, "temp"@) {
        Severity::Critical
    } else {
        Severity::Healthy
    }
}

/// Decodes the XML entities of a value and trims it.
pub fn cleanup_value(value: &str) -> (r: String)
    ensures
        r@ == cleanup_value_spec(value@),
{
    let v = chars_of(value);
    let a = replace_all_vec(&v, &chars_of("&lt;"), &chars_of("<"));
    let b = replace_all_vec(&a, &chars_of("&gt;"), &chars_of(">"));
    let c = replace_all_vec(&b, &chars_of("&amp;"), &chars_of("&"));
    let d = replace_all_vec(&c, &chars_of("&quot;"), &chars_of("\""));
    let (s, e) = trim_bounds(&d);
    string_from_range(&d, s, e)
}

/// Reads attribute `attr` of an XML line.
pub fn extract_attr(line: &str, attr: &str) -> (r: Option<String>)
    ensures
        opt_text(r) == extract_attr_spec(line@, attr@),
{
    let pattern = concat2(attr, "=\"");
    let lv = chars_of(line);
    let pv = chars_of(pattern.as_str());
    let n = lv.len();
    match find_from_vec(&lv, &pv, 0) {
        None => None,
        Some(i) => {
            proof {
                crate::text::lemma_find_from(lv@, pv@, 0);
                assert(crate::text::occurs_at(lv@, pv@, i as int));
                assert(i + pv@.len() <= lv@.len());
            }
            let start = i + pv.len();
            let tail = string_from_range(&lv, start, lv.len());
            let tv = chars_of(tail.as_str());
            match find_char_vec(&tv, '"', 0) {
                None => None,
                Some(e) => {
                    let piece = string_from_range(&tv, 0, e);
                    Some(cleanup_value(piece.as_str()))
                },
            }
        },
    }
}

/// The view of an optional text.
pub open spec fn opt_text(o: Option<String>) -> Option<Seq<char>> {
    match o {
        Some(s) => Some(s@),
        None => None,
    }
}

/// Reads the text content of an XML line.
pub fn extract_text(line: &str) -> (r: String)
    ensures
        r@ == extract_text_spec(line@),
{
    let lv = chars_of(line);
    match find_char_vec(&lv, '>', 0) {
        None => String::new(),
        Some(i) => {
            let tail = string_from_range(&lv, i + 1, lv.len());
            let tv = chars_of(tail.as_str());
            let end = match find_char_vec(&tv, '<', 0) {
                Some(e) => e,
                None => tv.len(),
            };
            let piece = string_from_range(&tv, 0, end);
            cleanup_value(piece.as_str())
        },
    }
}

/// Whether a value looks like a Windows path.
pub fn looks_like_windows_path(value: &str) -> (r: bool)
    ensures
        r == looks_like_windows_path_spec(value@),
{
    let v = chars_of(value);
    let (s, e) = trim_bounds(&v);
    let t = string_from_range(&v, s, e);
    contains_str(t.as_str(), ":\\") || crate::text::starts_with_str(t.as_str(), "\\\\")
}

fn last_segment_exec(v: &Vec<char>) -> (r: Vec<char>)
    ensures
        r@ == last_segment(v@),
{
    let mut k: usize = v.len();
    while k > 0 && v[k - 1] != '\\' && v[k - 1] != '/'
        invariant
            k <= v@.len(),
            last_separator(v@, v@.len() as int) == last_separator(v@, k as int),
        decreases k,
    {
        k = k - 1;
    }
    let mut out: Vec<char> = Vec::new();
    let mut j: usize = k;
    while j < v.len()
        invariant
            k <= j <= v@.len(),
            last_separator(v@, v@.len() as int) + 1 == k,
            out@ == v@.subrange(k as int, j as int),
        decreases v.len() - j,
    {
        out.push(v[j]);
        assert(out@ =~= v@.subrange(k as int, j + 1));
        j = j + 1;
    }
    out
}

/// The image name a data field names, if any.
pub fn detect_process_name(field_name: &str, value: &str) -> (r: Option<String>)
    ensures
        opt_text(r) == detect_process_name_spec(field_name@, value@),
{
    let lf = to_lower(field_name);
    let lv = lower_vec(&chars_of(value));
    if contains_str(lf.as_str(), "image") || contains_str(lf.as_str(), "process") || contains_str(
        lf.as_str(),
        "command",
    ) {
        let last = last_segment_exec(&lv);
        if vec_ends(&last, ".exe") || vec_ends(&last, ".dll") || vec_ends(&last, ".sys") {
            return Some(crate::text::string_from_range(&last, 0, last.len()));
        }
        if vec_ends(&lv, ".exe") {
            return Some(crate::text::string_from_range(&lv, 0, lv.len()));
        }
    }
    None
}

/// Whether an address found in a trace is public.
pub fn trace_ip_public(ip: &str) -> (r: bool)
    ensures
        r == trace_ip_is_public(ip@),
{
    let v = chars_of(ip);
    let (a, b) = trim_bounds(&v);
    let s = chars_of(string_from_range(&v, a, b).as_str());
    if vec_starts(&s, "10.") || vec_starts(&s, "127.") || vec_starts(&s, "192.168.") || vec_starts(
        &s,
        "169.254.",
    ) || vec_is(&s, "0.0.0.0") || s.len() == 0 {
        return false;
    }
    if vec_starts(&s, "172.") {
        proof {
            reveal_strlit("172.");
        }
        let rest = string_from_range(&s, 4, s.len());
        let rv = chars_of(rest.as_str());
        let octet = match find_char_vec(&rv, '.', 0) {
            Some(i) => string_from_range(&rv, 0, i),
            None => rest,
        };
        let ov = chars_of(octet.as_str());
        match parse_unsigned_vec(&ov, 255) {
            Some(value) => {
                if 16 <= value && value <= 31 {
                    return false;
                }
            },
            None => {},
        }
    }
    true
}

/// A Windows Update servicing path.
pub fn is_windows_update_path(path: &str) -> (r: bool)
    ensures
        r == is_windows_update_path_spec(path@),
{
    let l = to_lower(path);
    contains_str(l.as_str(), "\\softwaredistribution\\") || contains_str(l.as_str(), "catroot")
        || contains_str(l.as_str(), "winsxs")
}

/// A Delivery Optimization path.
pub fn is_delivery_optimization_path(path: &str) -> (r: bool)
    ensures
        r == is_delivery_optimization_path_spec(path@),
{
    let l = to_lower(path);
    contains_str(l.as_str(), "deliveryoptimization")
}

/// An executable, library or installer under a temporary folder.
pub fn is_temp_executable_path(path: &str) -> (r: bool)
    ensures
        r == is_temp_executable_path_spec(path@),
{
    let l = chars_of(to_lower(path).as_str());
    (vec_has(&l, "\\temp\\") || vec_has(&l, "\\appdata\\local\\temp\\")) && (vec_ends(&l, ".exe")
        || vec_ends(&l, ".dll") || vec_ends(&l, ".msi"))
}

/// Category of a path.
pub fn categorize_path(path: &str) -> (r: String)
    ensures
        r@ == categorize_path_spec(path@),
{
    let l = to_lower(path);
    if is_windows_update_path(path) {
        owned("windows-update")
    } else if is_delivery_optimization_path(path) {
        owned("delivery-optimization")
    } else if contains_str(l.as_str(), "\\temp\\") || contains_str(l.as_str(), "\\appdata\\local\\temp\\") {
        owned("temporal")
    } else if crate::text::starts_with_str(l.as_str(), "c:\\windows") {
        owned("sistema")
    } else {
        owned("usuario")
    }
}

/// Severity of a path.
pub fn severity_for_path(path: &str) -> (r: Severity)
    ensures
        r == severity_for_path_spec(path@),
{
    if is_temp_executable_path(path) {
        Severity::Critical
    } else if is_windows_update_path(path) || is_delivery_optimization_path(path) {
        Severity::Warning
    } else {
        Severity::Healthy
    }
}

/// Whether a (lower-cased) process name belongs to an update or installer.
pub fn looks_like_update_process(name: &str) -> (r: bool)
    ensures
        r == looks_like_update_process_spec(name@),
{
    let needles = ["trustedinstaller", "tiworker", "msiexec", "setup", "dism", "mouso", "usoclient", "wuauclt"];
    let r = crate::text::contains_any_str(name, &needles);
    proof {
        assert(needles@.map_values(|s: &str| s@) =~= update_process_needles());
        if r {
            let i = choose|i: int| 0 <= i < needles@.len() && contains(name@, (#[trigger] needles@[i])@);
            assert(update_process_needles()[i] == needles@[i]@);
        }
        if looks_like_update_process_spec(name@) {
            let i = choose|i: int|
                0 <= i < update_process_needles().len() && contains(name@, #[trigger] update_process_needles()[i]);
            assert(update_process_needles()[i] == needles@[i]@);
        }
    }
    r
}

/// Why a process appears in the summary.
pub fn reason_for_process(name: &str) -> (r: String)
    ensures
        r@ == reason_for_process_spec(name@),
{
    if looks_like_update_process(name) {
        owned("Patrón de actualización/instalación repetido dentro de la traza")
    } else if contains_str(name, "svchost") {
        owned("Proceso del sistema muy presente; correlaciónalo con servicios y rutas")
    } else {
        owned("Imagen repetida dentro del ETL")
    }
}

/// Severity of a process in the summary.
pub fn infer_process_severity(name: &str) -> (r: Severity)
    ensures
        r == infer_process_severity_spec(name@),
        update_or_installer_name(name@) ==> r == Severity::Warning,
{
    proof {
        lemma_update_process_is_warning(name@);
    }
    if looks_like_update_process(name) {
        Severity::Warning
    } else if contains_str(name, "temp") {
        Severity::Critical
    } else {
        Severity::Healthy
    }
}

// ---------------------------------------------------------------------------
// Public addresses inside a value
// ---------------------------------------------------------------------------

/// The texts that `regex::Regex::new(pattern)` matches in `text`, in order
/// (`find_iter`), or `None` when the pattern does not compile.
pub uninterp spec fn regex_matches(pattern: Seq<char>, text: Seq<char>) -> Option<Seq<Seq<char>>>;

/// Compiles `pattern` with `regex::Regex::new` and collects the texts of
/// `find_iter` over `text`. The contract claims only that the result is what
/// the crate computes from these two arguments (see [`regex_matches`]).
#[verifier::external_body]
fn regex_find_all(pattern: &str, text: &str) -> (r: Option<Vec<String>>)
    ensures
        match r {
            Some(v) => regex_matches(pattern@, text@) == Some(strings_view(v@)),
            None => regex_matches(pattern@, text@) is None,
        },
{
    match regex::Regex::new(pattern) {
        Ok(re) => Some(re.find_iter(text).map(|m| m.as_str().to_owned()).collect()),
        Err(_) => None,
    }
}

/// Dotted quads: four groups of one to three digits, on word boundaries.
pub open spec fn dotted_quad_pattern() -> Seq<char> {
    "\\b(?:\\d{1,3}\\.){3}\\d{1,3}\\b"@
}

/// The public addresses among candidate matches, in order.
pub open spec fn public_among(candidates: Seq<Seq<char>>) -> Seq<Seq<char>> {
    keep(candidates, |ip: Seq<char>| trace_ip_is_public(ip))
}

/// The public dotted quads that occur in a value.
pub open spec fn public_ips_in(value: Seq<char>) -> Seq<Seq<char>> {
    match regex_matches(dotted_quad_pattern(), value) {
        Some(ms) => public_among(ms),
        None => Seq::empty(),
    }
}

/// Keeps the public addresses of a list of candidate matches, in order.
pub fn public_ips_among(candidates: &Vec<String>) -> (r: Vec<String>)
    ensures
        strings_view(r@) == public_among(strings_view(candidates@)),
{
    let ghost pred = |ip: Seq<char>| trace_ip_is_public(ip);
    let ghost cs = strings_view(candidates@);
    let mut out: Vec<String> = Vec::new();
    let mut i: usize = 0;
    while i < candidates.len()
        invariant
            i <= candidates@.len(),
            cs == strings_view(candidates@),
            cs.len() == candidates@.len(),
            pred == (|ip: Seq<char>| trace_ip_is_public(ip)),
            strings_view(out@) == keep(cs.subrange(0, i as int), pred),
        decreases candidates.len() - i,
    {
        proof {
            let pre = cs.subrange(0, i + 1);
            assert(pre.drop_last() =~= cs.subrange(0, i as int));
            assert(pre.last() == candidates@[i as int]@);
        }
        let ghost before = strings_view(out@);
        if trace_ip_public(candidates[i].as_str()) {
            out.push(candidates[i].clone());
            assert(strings_view(out@) =~= before + seq![cs[i as int]]);
        } else {
            assert(strings_view(out@) =~= before + Seq::<Seq<char>>::empty());
        }
        i = i + 1;
    }
    assert(cs.subrange(0, cs.len() as int) =~= cs);
    out
}

/// The public IPv4 addresses that occur in a value, in order.
pub fn extract_public_ips(value: &str) -> (r: Vec<String>)
    ensures
        strings_view(r@) == public_ips_in(value@),
{
    match regex_find_all("\\b(?:\\d{1,3}\\.){3}\\d{1,3}\\b", value) {
        Some(ms) => public_ips_among(&ms),
        None => {
            let v: Vec<String> = Vec::new();
            assert(strings_view(v@) =~= Seq::<Seq<char>>::empty());
            v
        },
    }
}

// ---------------------------------------------------------------------------
// Tally of events
// ---------------------------------------------------------------------------

/// `c + 1`, staying at `u64::MAX`.
pub open spec fn sat_inc64(c: u64) -> u64 {
    if c < u64::MAX {
        (c + 1) as u64
    } else {
        c
    }
}

/// One more occurrence of `key`.
pub open spec fn bump(t: Seq<(Seq<char>, u64)>, key: Seq<char>) -> Seq<(Seq<char>, u64)> {
    upsert(
        t,
        key,
        match lookup(t, key) {
            Some(c) => sat_inc64(c),
            None => 1,
        },
    )
}

/// `fs` with `f` appended unless an item with its title and evidence is there.
pub open spec fn push_finding_once_spec(fs: Seq<TraceFindingView>, f: TraceFindingView) -> Seq<TraceFindingView> {
    if exists|i: int| 0 <= i < fs.len() && (#[trigger] fs[i]).title == f.title && fs[i].evidence == f.evidence {
        fs
    } else {
        fs.push(f)
    }
}

/// The finding of an executable seen under a temporary folder.
pub open spec fn temp_finding(path: Seq<char>) -> TraceFindingView {
    TraceFindingView {
        severity: Severity::Critical,
        title: "Ejecutable observado desde carpeta temporal"@,
        detail: "La traza contiene referencias repetidas a un binario ejecutado desde una ruta temporal. Esto merece validación inmediata."@,
        evidence: path,
    }
}

/// The finding of a public address seen in the trace.
pub open spec fn ip_finding(ip: Seq<char>) -> TraceFindingView {
    TraceFindingView {
        severity: Severity::Warning,
        title: "IP pública observada dentro del ETL"@,
        detail: "La traza contiene al menos una IP pública. Debes validar si corresponde al software esperado o a actualizaciones legítimas."@,
        evidence: ip,
    }
}

/// An event being read: its provider, identifier, name and non-empty data values.
pub struct EtlEventView {
    pub provider: Seq<char>,
    pub event_id: Option<u32>,
    pub event_name: Seq<char>,
    pub values: Seq<(Seq<char>, Seq<char>)>,
}

/// What the completed events added up to.
pub struct EtlTallyView {
    pub total_events: u64,
    pub providers: Seq<(Seq<char>, u64)>,
    pub processes: Seq<(Seq<char>, u64)>,
    pub paths: Seq<(Seq<char>, u64)>,
    pub ips: Seq<(Seq<char>, u64)>,
    pub indicators: Seq<(Seq<char>, u64)>,
    pub findings: Seq<TraceFindingView>,
}

/// The values that look like Windows paths, in order.
pub open spec fn paths_of(vs: Seq<(Seq<char>, Seq<char>)>) -> Seq<Seq<char>>
    decreases vs.len(),
{
    if vs.len() == 0 {
        Seq::empty()
    } else {
        paths_of(vs.drop_last()) + if looks_like_windows_path_spec(vs.last().1) {
            seq![vs.last().1]
        } else {
            Seq::empty()
        }
    }
}

/// The image names the values name, in order.
pub open spec fn processes_of(vs: Seq<(Seq<char>, Seq<char>)>) -> Seq<Seq<char>>
    decreases vs.len(),
{
    if vs.len() == 0 {
        Seq::empty()
    } else {
        processes_of(vs.drop_last()) + match detect_process_name_spec(vs.last().0, vs.last().1) {
            Some(p) => seq![p],
            None => Seq::empty(),
        }
    }
}

/// The public addresses in the values, in order.
pub open spec fn ips_of(vs: Seq<(Seq<char>, Seq<char>)>) -> Seq<Seq<char>>
    decreases vs.len(),
{
    if vs.len() == 0 {
        Seq::empty()
    } else {
        ips_of(vs.drop_last()) + public_ips_in(vs.last().1)
    }
}

/// `" name value"` for every value, the value lower-cased.
pub open spec fn values_text(vs: Seq<(Seq<char>, Seq<char>)>) -> Seq<char>
    decreases vs.len(),
{
    if vs.len() == 0 {
        Seq::empty()
    } else {
        values_text(vs.drop_last()) + " "@ + vs.last().0 + " "@ + lower(vs.last().1)
    }
}

/// The text of an event that the indicators search.
pub open spec fn event_text(e: EtlEventView) -> Seq<char> {
    lower(e.provider + " "@ + e.event_name) + values_text(e.values)
}

/// The tally once a path is counted.
pub open spec fn tally_path(t: EtlTallyView, path: Seq<char>) -> EtlTallyView {
    let findings = if is_temp_executable_path_spec(path) {
        push_finding_once_spec(t.findings, temp_finding(path))
    } else {
        t.findings
    };
    let i1 = if is_windows_update_path_spec(path) {
        bump(t.indicators, "Actividad compatible con Windows Update / servicing"@)
    } else {
        t.indicators
    };
    let i2 = if is_delivery_optimization_path_spec(path) {
        bump(i1, "Actividad compatible con Delivery Optimization"@)
    } else {
        i1
    };
    EtlTallyView {
        total_events: t.total_events,
        providers: t.providers,
        processes: t.processes,
        paths: bump(t.paths, path),
        ips: t.ips,
        indicators: i2,
        findings,
    }
}

/// The tally once a process is counted.
pub open spec fn tally_process(t: EtlTallyView, name: Seq<char>) -> EtlTallyView {
    EtlTallyView {
        total_events: t.total_events,
        providers: t.providers,
        processes: bump(t.processes, name),
        paths: t.paths,
        ips: t.ips,
        indicators: if looks_like_update_process_spec(name) {
            bump(t.indicators, "Procesos de actualización/instalación dentro de la traza"@)
        } else {
            t.indicators
        },
        findings: t.findings,
    }
}

/// The tally once a public address is counted.
pub open spec fn tally_ip(t: EtlTallyView, ip: Seq<char>) -> EtlTallyView {
    EtlTallyView {
        total_events: t.total_events,
        providers: t.providers,
        processes: t.processes,
        paths: t.paths,
        ips: bump(t.ips, ip),
        indicators: t.indicators,
        findings: push_finding_once_spec(t.findings, ip_finding(ip)),
    }
}

pub open spec fn tally_paths(t: EtlTallyView, ps: Seq<Seq<char>>) -> EtlTallyView
    decreases ps.len(),
{
    if ps.len() == 0 {
        t
    } else {
        tally_path(tally_paths(t, ps.drop_last()), ps.last())
    }
}

pub open spec fn tally_processes(t: EtlTallyView, ps: Seq<Seq<char>>) -> EtlTallyView
    decreases ps.len(),
{
    if ps.len() == 0 {
        t
    } else {
        tally_process(tally_processes(t, ps.drop_last()), ps.last())
    }
}

pub open spec fn tally_ips(t: EtlTallyView, ips: Seq<Seq<char>>) -> EtlTallyView
    decreases ips.len(),
{
    if ips.len() == 0 {
        t
    } else {
        tally_ip(tally_ips(t, ips.drop_last()), ips.last())
    }
}

/// The tally once the servicing and BITS indicators of an event text are counted.
pub open spec fn tally_text(t: EtlTallyView, text: Seq<char>) -> EtlTallyView {
    let i1 = if contains(text, "trustedinstaller"@) || contains(text, "wuauserv"@) || contains(
        text,
        "musnotification"@,
    ) {
        bump(t.indicators, "Señales de servicing o componentes del sistema"@)
    } else {
        t.indicators
    };
    let i2 = if contains(text, "bits"@) || contains(text, "background intelligent transfer service"@) {
        bump(i1, "BITS involucrado en la captura"@)
    } else {
        i1
    };
    EtlTallyView {
        total_events: t.total_events,
        providers: t.providers,
        processes: t.processes,
        paths: t.paths,
        ips: t.ips,
        indicators: i2,
        findings: t.findings,
    }
}

/// The tally once a completed event is counted.
pub open spec fn apply_event_spec(t: EtlTallyView, e: EtlEventView) -> EtlTallyView {
    let t1 = EtlTallyView {
        total_events: sat_inc64(t.total_events),
        providers: if e.provider.len() > 0 {
            bump(t.providers, e.provider)
        } else {
            t.providers
        },
        processes: t.processes,
        paths: t.paths,
        ips: t.ips,
        indicators: t.indicators,
        findings: t.findings,
    };
    tally_text(
        tally_ips(tally_processes(tally_paths(t1, paths_of(e.values)), processes_of(e.values)), ips_of(e.values)),
        event_text(e),
    )
}

/// An event being read from the exported XML.
pub struct EtlEvent {
    provider: String,
    event_id: Option<u32>,
    event_name: String,
    values: Vec<(String, String)>,
}

/// The view of a list of `(name, value)` texts.
pub open spec fn pairs_view(v: Seq<(String, String)>) -> Seq<(Seq<char>, Seq<char>)> {
    v.map_values(|e: (String, String)| (e.0@, e.1@))
}

impl View for EtlEvent {
    type V = EtlEventView;

    closed spec fn view(&self) -> EtlEventView {
        EtlEventView {
            provider: self.provider@,
            event_id: self.event_id,
            event_name: self.event_name@,
            values: pairs_view(self.values@),
        }
    }
}

/// What the completed events of a trace add up to.
pub struct EtlTally {
    total_events: u64,
    providers: Vec<(String, u64)>,
    processes: Vec<(String, u64)>,
    paths: Vec<(String, u64)>,
    ips: Vec<(String, u64)>,
    indicators: Vec<(String, u64)>,
    findings: Vec<TraceFinding>,
}

/// The views of a list of findings.
pub open spec fn findings_view(v: Seq<TraceFinding>) -> Seq<TraceFindingView> {
    v.map_values(|f: TraceFinding| f@)
}

impl View for EtlTally {
    type V = EtlTallyView;

    closed spec fn view(&self) -> EtlTallyView {
        EtlTallyView {
            total_events: self.total_events,
            providers: keyed_view(self.providers@),
            processes: keyed_view(self.processes@),
            paths: keyed_view(self.paths@),
            ips: keyed_view(self.ips@),
            indicators: keyed_view(self.indicators@),
            findings: findings_view(self.findings@),
        }
    }
}

fn sat_inc64_exec(c: u64) -> (r: u64)
    ensures
        r == sat_inc64(c),
{
    if c < u64::MAX {
        c + 1
    } else {
        c
    }
}

/// Counts one more occurrence of `key`.
fn bump_exec(t: &mut Vec<(String, u64)>, key: &str)
    ensures
        keyed_view(final(t)@) == bump(keyed_view(old(t)@), key@),
{
    let ghost tv = keyed_view(t@);
    let i = find_key(t, key);
    proof {
        lemma_key_index(tv, key@, 0);
    }
    let count: u64 = if i < t.len() {
        assert(tv[i as int].1 == t@[i as int].1);
        sat_inc64_exec(t[i].1)
    } else {
        1
    };
    upsert_key(t, owned(key), count);
}

/// Appends a finding unless one with the same title and evidence is already there.
pub fn push_finding_once(target: &mut Vec<TraceFinding>, finding: TraceFinding)
    ensures
        findings_view(final(target)@) == push_finding_once_spec(findings_view(old(target)@), finding@),
{
    let ghost fs = findings_view(target@);
    let mut i: usize = 0;
    let mut found = false;
    while i < target.len() && !found
        invariant
            i <= target@.len(),
            fs == findings_view(target@),
            fs.len() == target@.len(),
            found == (exists|k: int| 0 <= k < i && (#[trigger] fs[k]).title == finding@.title
                && fs[k].evidence == finding@.evidence),
        decreases target.len() - i + (if found { 0int } else { 1int }),
    {
        if str_eq(target[i].title.as_str(), finding.title.as_str()) && str_eq(
            target[i].evidence.as_str(),
            finding.evidence.as_str(),
        ) {
            assert(fs[i as int] == target@[i as int]@);
            found = true;
        } else {
            assert(fs[i as int] == target@[i as int]@);
        }
        i = i + 1;
    }
    if !found {
        let ghost fv = finding@;
        target.push(finding);
        assert(findings_view(target@) =~= fs.push(fv));
    }
}

fn temp_finding_exec(path: &str) -> (r: TraceFinding)
    ensures
        r@ == temp_finding(path@),
{
    TraceFinding {
        severity: Severity::Critical,
        title: owned("Ejecutable observado desde carpeta temporal"),
        detail: owned(
            "La traza contiene referencias repetidas a un binario ejecutado desde una ruta temporal. Esto merece validación inmediata.",
        ),
        evidence: owned(path),
    }
}

fn ip_finding_exec(ip: &str) -> (r: TraceFinding)
    ensures
        r@ == ip_finding(ip@),
{
    TraceFinding {
        severity: Severity::Warning,
        title: owned("IP pública observada dentro del ETL"),
        detail: owned(
            "La traza contiene al menos una IP pública. Debes validar si corresponde al software esperado o a actualizaciones legítimas.",
        ),
        evidence: owned(ip),
    }
}

impl EtlTally {
    /// A tally of no events.
    pub fn new() -> (r: EtlTally)
        ensures
            r@ == EtlTally::new_view(),
    {
        let r = EtlTally {
            total_events: 0,
            providers: Vec::new(),
            processes: Vec::new(),
            paths: Vec::new(),
            ips: Vec::new(),
            indicators: Vec::new(),
            findings: Vec::new(),
        };
        assert(r@.providers =~= Seq::<(Seq<char>, u64)>::empty());
        assert(r@.processes =~= Seq::<(Seq<char>, u64)>::empty());
        assert(r@.paths =~= Seq::<(Seq<char>, u64)>::empty());
        assert(r@.ips =~= Seq::<(Seq<char>, u64)>::empty());
        assert(r@.indicators =~= Seq::<(Seq<char>, u64)>::empty());
        assert(r@.findings =~= Seq::<TraceFindingView>::empty());
        r
    }

    fn count_path(&mut self, path: &str)
        ensures
            final(self)@ == tally_path(old(self)@, path@),
    {
        bump_exec(&mut self.paths, path);
        if is_temp_executable_path(path) {
            push_finding_once(&mut self.findings, temp_finding_exec(path));
        }
        if is_windows_update_path(path) {
            bump_exec(&mut self.indicators, "Actividad compatible con Windows Update / servicing");
        }
        if is_delivery_optimization_path(path) {
            bump_exec(&mut self.indicators, "Actividad compatible con Delivery Optimization");
        }
    }

    fn count_process(&mut self, name: &str)
        ensures
            final(self)@ == tally_process(old(self)@, name@),
    {
        bump_exec(&mut self.processes, name);
        if looks_like_update_process(name) {
            bump_exec(&mut self.indicators, "Procesos de actualización/instalación dentro de la traza");
        }
    }

    fn count_ip(&mut self, ip: &str)
        ensures
            final(self)@ == tally_ip(old(self)@, ip@),
    {
        bump_exec(&mut self.ips, ip);
        push_finding_once(&mut self.findings, ip_finding_exec(ip));
    }

    fn count_text(&mut self, text: &str)
        ensures
            final(self)@ == tally_text(old(self)@, text@),
    {
        if contains_str(text, "trustedinstaller") || contains_str(text, "wuauserv") || contains_str(
            text,
            "musnotification",
        ) {
            bump_exec(&mut self.indicators, "Señales de servicing o componentes del sistema");
        }
        if contains_str(text, "bits") || contains_str(text, "background intelligent transfer service") {
            bump_exec(&mut self.indicators, "BITS involucrado en la captura");
        }
    }
}

impl EtlTally {
    /// Counts a completed event.
    pub fn apply_event(&mut self, e: &EtlEvent)
        ensures
            final(self)@ == apply_event_spec(old(self)@, e@),
    {
        let ghost vs = e@.values;
        self.total_events = sat_inc64_exec(self.total_events);
        if e.provider.as_str().unicode_len() > 0 {
            bump_exec(&mut self.providers, e.provider.as_str());
        }
        let ghost t1 = self@;
        let head = join_all(&[e.provider.as_str(), " ", e.event_name.as_str()]);
        proof {
            reveal_with_fuel(concat_all, 4);
            assert(head@ =~= e.provider@ + " "@ + e.event_name@);
        }
        let mut text = to_lower(head.as_str());
        let mut paths: Vec<String> = Vec::new();
        let mut procs: Vec<String> = Vec::new();
        let mut ips: Vec<String> = Vec::new();
        assert(values_text(vs.subrange(0, 0)) =~= Seq::<char>::empty());
        assert(text@ =~= lower(e.provider@ + " "@ + e.event_name@) + values_text(vs.subrange(0, 0)));
        assert(strings_view(paths@) =~= paths_of(vs.subrange(0, 0)));
        assert(strings_view(procs@) =~= processes_of(vs.subrange(0, 0)));
        assert(strings_view(ips@) =~= ips_of(vs.subrange(0, 0)));
        let mut j: usize = 0;
        while j < e.values.len()
            invariant
                j <= e.values@.len(),
                vs == e@.values,
                vs == pairs_view(e.values@),
                vs.len() == e.values@.len(),
                text@ == lower(e.provider@ + " "@ + e.event_name@) + values_text(vs.subrange(0, j as int)),
                strings_view(paths@) == paths_of(vs.subrange(0, j as int)),
                strings_view(procs@) == processes_of(vs.subrange(0, j as int)),
                strings_view(ips@) == ips_of(vs.subrange(0, j as int)),
            decreases e.values.len() - j,
        {
            let name = e.values[j].0.as_str();
            let value = e.values[j].1.as_str();
            proof {
                let pre = vs.subrange(0, j + 1);
                assert(pre.drop_last() =~= vs.subrange(0, j as int));
                assert(pre.last() == (name@, value@));
            }
            let lv = to_lower(value);
            let ghost before_text = text@;
            text = join_all(&[text.as_str(), " ", name, " ", lv.as_str()]);
            proof {
                reveal_with_fuel(concat_all, 6);
                assert(text@ =~= before_text + " "@ + name@ + " "@ + lower(value@));
            }
            let ghost bp = strings_view(paths@);
            if looks_like_windows_path(value) {
                paths.push(owned(value));
                assert(strings_view(paths@) =~= bp + seq![value@]);
            } else {
                assert(strings_view(paths@) =~= bp + Seq::<Seq<char>>::empty());
            }
            let ghost bq = strings_view(procs@);
            match detect_process_name(name, value) {
                Some(pn) => {
                    let ghost pv = pn@;
                    procs.push(pn);
                    assert(strings_view(procs@) =~= bq + seq![pv]);
                },
                None => {
                    assert(strings_view(procs@) =~= bq + Seq::<Seq<char>>::empty());
                },
            }
            let ghost bi = strings_view(ips@);
            let mut found = extract_public_ips(value);
            let ghost fv = strings_view(found@);
            ips.append(&mut found);
            assert(strings_view(ips@) =~= bi + fv);
            j = j + 1;
        }
        assert(vs.subrange(0, vs.len() as int) =~= vs);
        let ghost pv = strings_view(paths@);
        let mut k: usize = 0;
        while k < paths.len()
            invariant
                k <= paths@.len(),
                pv == strings_view(paths@),
                pv.len() == paths@.len(),
                self@ == tally_paths(t1, pv.subrange(0, k as int)),
            decreases paths.len() - k,
        {
            proof {
                let pre = pv.subrange(0, k + 1);
                assert(pre.drop_last() =~= pv.subrange(0, k as int));
                assert(pre.last() == paths@[k as int]@);
            }
            self.count_path(paths[k].as_str());
            k = k + 1;
        }
        assert(pv.subrange(0, pv.len() as int) =~= pv);
        let ghost t2 = self@;
        let ghost qv = strings_view(procs@);
        let mut m: usize = 0;
        while m < procs.len()
            invariant
                m <= procs@.len(),
                qv == strings_view(procs@),
                qv.len() == procs@.len(),
                self@ == tally_processes(t2, qv.subrange(0, m as int)),
            decreases procs.len() - m,
        {
            proof {
                let pre = qv.subrange(0, m + 1);
                assert(pre.drop_last() =~= qv.subrange(0, m as int));
                assert(pre.last() == procs@[m as int]@);
            }
            self.count_process(procs[m].as_str());
            m = m + 1;
        }
        assert(qv.subrange(0, qv.len() as int) =~= qv);
        let ghost t3 = self@;
        let ghost iv = strings_view(ips@);
        let mut n: usize = 0;
        while n < ips.len()
            invariant
                n <= ips@.len(),
                iv == strings_view(ips@),
                iv.len() == ips@.len(),
                self@ == tally_ips(t3, iv.subrange(0, n as int)),
            decreases ips.len() - n,
        {
            proof {
                let pre = iv.subrange(0, n + 1);
                assert(pre.drop_last() =~= iv.subrange(0, n as int));
                assert(pre.last() == ips@[n as int]@);
            }
            self.count_ip(ips[n].as_str());
            n = n + 1;
        }
        assert(iv.subrange(0, iv.len() as int) =~= iv);
        self.count_text(text.as_str());
    }
}

// ---------------------------------------------------------------------------
// Reading the exported XML
// ---------------------------------------------------------------------------

/// An event with nothing read yet.
pub open spec fn empty_event() -> EtlEventView {
    EtlEventView { provider: Seq::empty(), event_id: None, event_name: Seq::empty(), values: Seq::empty() }
}

/// An event once one of its (trimmed) lines is read.
pub open spec fn update_event_spec(e: EtlEventView, t: Seq<char>) -> EtlEventView {
    if starts_with(t, "<Provider"@) {
        match extract_attr_spec(t, "Name"@) {
            Some(n) => EtlEventView { provider: n, ..e },
            None => match extract_attr_spec(t, "Guid"@) {
                Some(g) => EtlEventView { provider: g, ..e },
                None => e,
            },
        }
    } else if starts_with(t, "<EventID>"@) {
        EtlEventView {
            event_id: match parse_unsigned(extract_text_spec(t), u32::MAX as int) {
                Some(v) => Some(v as u32),
                None => None,
            },
            ..e
        }
    } else if starts_with(t, "<EventName"@) {
        EtlEventView { event_name: extract_text_spec(t), ..e }
    } else if starts_with(t, "<Data"@) {
        let name = match extract_attr_spec(t, "Name"@) {
            Some(n) => n,
            None => "value"@,
        };
        let value = cleanup_value_spec(extract_text_spec(t));
        if value.len() > 0 {
            EtlEventView { values: e.values.push((name, value)), ..e }
        } else {
            e
        }
    } else {
        e
    }
}

/// A reader: the event being assembled, if any, and the tally so far.
pub struct EtlReaderView {
    pub event: Option<EtlEventView>,
    pub tally: EtlTallyView,
}

/// The reader once a line is read. A line starting with `<Event` (which
/// includes `<EventID>`, `<EventName` and `<EventData>`) starts a new event;
/// `</Event>` completes the current one; other lines fill the current event.
pub open spec fn read_line_spec(r: EtlReaderView, line: Seq<char>) -> EtlReaderView {
    let t = trim(line);
    if starts_with(t, "<Event"@) {
        EtlReaderView { event: Some(empty_event()), tally: r.tally }
    } else if starts_with(t, "</Event>"@) {
        match r.event {
            Some(e) => EtlReaderView { event: None, tally: apply_event_spec(r.tally, e) },
            None => r,
        }
    } else {
        match r.event {
            Some(e) => EtlReaderView { event: Some(update_event_spec(e, t)), tally: r.tally },
            None => r,
        }
    }
}

/// Reads the lines of an exported XML trace and tallies its events.
pub struct EtlReader {
    event: Option<EtlEvent>,
    tally: EtlTally,
}

impl View for EtlReader {
    type V = EtlReaderView;

    closed spec fn view(&self) -> EtlReaderView {
        EtlReaderView {
            event: match self.event {
                Some(e) => Some(e@),
                None => None,
            },
            tally: self.tally@,
        }
    }
}

fn new_event() -> (r: EtlEvent)
    ensures
        r@ == empty_event(),
{
    let r = EtlEvent { provider: String::new(), event_id: None, event_name: String::new(), values: Vec::new() };
    assert(r@.values =~= Seq::<(Seq<char>, Seq<char>)>::empty());
    r
}

impl EtlEvent {
    fn read(&mut self, t: &str)
        ensures
            final(self)@ == update_event_spec(old(self)@, t@),
    {
        if crate::text::starts_with_str(t, "<Provider") {
            match extract_attr(t, "Name") {
                Some(n) => {
                    self.provider = n;
                },
                None => match extract_attr(t, "Guid") {
                    Some(g) => {
                        self.provider = g;
                    },
                    None => {},
                },
            }
        } else if crate::text::starts_with_str(t, "<EventID>") {
            let text = extract_text(t);
            self.event_id = crate::text::parse_u32(text.as_str());
        } else if crate::text::starts_with_str(t, "<EventName") {
            self.event_name = extract_text(t);
        } else if crate::text::starts_with_str(t, "<Data") {
            let name = match extract_attr(t, "Name") {
                Some(n) => n,
                None => owned("value"),
            };
            let raw = extract_text(t);
            let value = cleanup_value(raw.as_str());
            if value.as_str().unicode_len() > 0 {
                let ghost before = pairs_view(self.values@);
                let ghost nv = name@;
                let ghost vv = value@;
                self.values.push((name, value));
                assert(pairs_view(self.values@) =~= before.push((nv, vv)));
            }
        }
    }
}

impl EtlReader {
    /// A reader that has read nothing.
    pub fn new() -> (r: EtlReader)
        ensures
            r@.event is None,
            r@.tally == EtlTally::new_view(),
    {
        EtlReader { event: None, tally: EtlTally::new() }
    }

    /// Reads one line of the exported XML.
    pub fn feed_line(&mut self, line: &str)
        ensures
            final(self)@ == read_line_spec(old(self)@, line@),
    {
        let v = chars_of(line);
        let (a, b) = trim_bounds(&v);
        let t = string_from_range(&v, a, b);
        if crate::text::starts_with_str(t.as_str(), "<Event") {
            self.event = Some(new_event());
            return;
        }
        if crate::text::starts_with_str(t.as_str(), "</Event>") {
            let done = self.event.take();
            match done {
                Some(e) => {
                    self.tally.apply_event(&e);
                },
                None => {},
            }
            return;
        }
        match self.event.take() {
            Some(mut e) => {
                e.read(t.as_str());
                self.event = Some(e);
            },
            None => {},
        }
    }

    /// What the completed events add up to.
    pub fn tally(&self) -> (r: &EtlTally)
        ensures
            r@ == self@.tally,
    {
        &self.tally
    }
}

impl EtlTally {
    /// The view of a tally of no events.
    pub open spec fn new_view() -> EtlTallyView {
        EtlTallyView {
            total_events: 0,
            providers: Seq::empty(),
            processes: Seq::empty(),
            paths: Seq::empty(),
            ips: Seq::empty(),
            indicators: Seq::empty(),
            findings: Seq::empty(),
        }
    }
}

// ---------------------------------------------------------------------------
// Summary of the tally
// ---------------------------------------------------------------------------

/// Higher count first.
pub open spec fn count_less(a: (Seq<char>, u64), b: (Seq<char>, u64)) -> bool {
    a.1 > b.1
}

/// The first `n` items (all of them when there are fewer).
pub open spec fn take<T>(s: Seq<T>, n: int) -> Seq<T> {
    if s.len() > n {
        s.subrange(0, n)
    } else {
        s
    }
}

/// Counts ranked by decreasing count, ties in order of first appearance.
pub open spec fn ranked(t: Seq<(Seq<char>, u64)>) -> Seq<(Seq<char>, u64)> {
    stable_sort(t, |a: (Seq<char>, u64), b: (Seq<char>, u64)| count_less(a, b))
}

/// A process of the tally as a summary row.
pub open spec fn process_row(e: (Seq<char>, u64)) -> TraceProcessSummaryView {
    TraceProcessSummaryView {
        name: e.0,
        occurrences: e.1,
        severity: infer_process_severity_spec(e.0),
        reason: reason_for_process_spec(e.0),
    }
}

/// A path of the tally as a summary row.
pub open spec fn path_row(e: (Seq<char>, u64)) -> TracePathSummaryView {
    TracePathSummaryView {
        path: e.0,
        category: categorize_path_spec(e.0),
        occurrences: e.1,
        severity: severity_for_path_spec(e.0),
    }
}

/// `text (count)`.
pub open spec fn indicator_text(e: (Seq<char>, u64)) -> Seq<char> {
    e.0 + " ("@ + int_text(e.1 as int) + ")"@
}

/// The finding reported when nothing stood out.
pub open spec fn quiet_finding(total: u64) -> TraceFindingView {
    TraceFindingView {
        severity: Severity::Healthy,
        title: "Sin hallazgo dominante en el resumen automático"@,
        detail: "La traza fue procesada, pero el análisis automático no encontró una señal claramente dominante. Usa WPA para profundizar en el intervalo exacto."@,
        evidence: "Eventos procesados: "@ + int_text(total as int),
    }
}

/// Title of the first critical finding at or after `i`.
pub open spec fn first_critical_from(fs: Seq<TraceFindingView>, i: int) -> Option<Seq<char>>
    decreases fs.len() - i,
{
    if i < 0 || i >= fs.len() {
        None
    } else if fs[i].severity == Severity::Critical {
        Some(fs[i].title)
    } else {
        first_critical_from(fs, i + 1)
    }
}

/// The headline of a summary.
pub open spec fn headline_spec(
    findings: Seq<TraceFindingView>,
    hot_processes: Seq<TraceProcessSummaryView>,
    hot_paths: Seq<TracePathSummaryView>,
    indicators: Seq<Seq<char>>,
) -> Seq<char> {
    match first_critical_from(findings, 0) {
        Some(t) => t,
        None => if exists|i: int| 0 <= i < hot_paths.len() && (#[trigger] hot_paths[i]).category == "windows-update"@ {
            "La traza sugiere actividad relacionada con Windows Update o servicing"@
        } else if hot_processes.len() > 0 {
            "Proceso más repetido en la traza: "@ + hot_processes[0].name
        } else if indicators.len() > 0 {
            "Indicador dominante: "@ + indicators[0]
        } else {
            "Traza procesada sin hallazgo dominante automático"@
        },
    }
}

/// How far the summary can be trusted.
pub open spec fn confidence_spec(excerpt: Seq<char>, total: u64, n_paths: int, n_processes: int) -> Seq<char> {
    if total >= 500 && (n_paths > 0 || n_processes > 0) {
        "Media-alta: la captura tiene suficiente volumen para orientar la investigación"@
    } else if excerpt.len() > 0 {
        "Media: hay señal, pero conviene abrir WPA para ver el intervalo exacto"@
    } else {
        "Baja-media: la captura fue procesada, pero la evidencia resumida es limitada"@
    }
}

/// The first three non-blank lines of a text, trimmed, joined by ` | `.
pub open spec fn summary_excerpt_spec(text: Seq<char>) -> Seq<char> {
    join_with(
        take(keep(split_char(text, '\n').map_values(|l: Seq<char>| trim(l)), |l: Seq<char>| l.len() > 0), 3),
        " | "@,
    )
}

/// The limits of an automatic summary, with the excerpt when there is one.
pub open spec fn limitations_spec(excerpt: Seq<char>) -> Seq<Seq<char>> {
    seq![
        "Este resumen usa exportación por tracerpt y heurísticas propias; no sustituye la exploración pivoteada de WPA."@,
        "La exactitud depende de que la captura WPR cubra el momento exacto del problema."@,
        "Si quieres relación temporal fina por milisegundo o pilas, abre el ETL en WPA y carga símbolos."@,
    ] + if excerpt.len() > 0 {
        seq!["Extracto de summary.txt: "@ + excerpt]
    } else {
        Seq::empty()
    }
}

/// In a trace summary every hot process that is an update or installer
/// process is a warning.
pub proof fn lemma_trace_update_processes_warn(
    t: EtlTallyView,
    excerpt: Seq<char>,
    analyzed_at: Seq<char>,
    etl_path: Seq<char>,
    output_directory: Seq<char>,
    xml_path: Seq<char>,
    summary_path: Seq<char>,
)
    ensures
        ({
            let a = trace_analysis_spec(t, excerpt, analyzed_at, etl_path, output_directory, xml_path, summary_path);
            forall|i: int|
                0 <= i < a.hot_processes.len() && update_or_installer_name(#[trigger] a.hot_processes[i].name)
                    ==> a.hot_processes[i].severity == Severity::Warning
        }),
{
    let a = trace_analysis_spec(t, excerpt, analyzed_at, etl_path, output_directory, xml_path, summary_path);
    assert forall|i: int|
        0 <= i < a.hot_processes.len() && update_or_installer_name(#[trigger] a.hot_processes[i].name) implies a.hot_processes[i].severity
            == Severity::Warning by {
        lemma_update_process_is_warning(a.hot_processes[i].name);
    }
}

/// The summary of a tally. The date and the four paths are given as the
/// caller renders them.
pub open spec fn trace_analysis_spec(
    t: EtlTallyView,
    excerpt: Seq<char>,
    analyzed_at: Seq<char>,
    etl_path: Seq<char>,
    output_directory: Seq<char>,
    xml_path: Seq<char>,
    summary_path: Seq<char>,
) -> TraceAnalysisSummaryView {
    let hot_processes = take(ranked(t.processes), 8).map_values(|e: (Seq<char>, u64)| process_row(e));
    let hot_paths = take(ranked(t.paths), 10).map_values(|e: (Seq<char>, u64)| path_row(e));
    let indicators = take(ranked(t.indicators), 12).map_values(|e: (Seq<char>, u64)| indicator_text(e));
    let findings = if t.findings.len() == 0 {
        seq![quiet_finding(t.total_events)]
    } else {
        t.findings
    };
    TraceAnalysisSummaryView {
        engine: "tracerpt + heurísticas RootCause"@,
        analyzed_at,
        etl_path,
        output_directory,
        raw_xml_path: Some(xml_path),
        raw_summary_path: Some(summary_path),
        total_events: t.total_events,
        headline: headline_spec(findings, hot_processes, hot_paths, indicators),
        confidence: confidence_spec(excerpt, t.total_events, hot_paths.len() as int, hot_processes.len() as int),
        findings,
        hot_processes,
        hot_paths,
        public_ips: take(
            stable_sort(t.ips.map_values(|e: (Seq<char>, u64)| e.0), |a: Seq<char>, b: Seq<char>| lex_lt(a, b)),
            10,
        ),
        providers: take(ranked(t.providers), 8),
        indicators,
        limitations: limitations_spec(excerpt),
    }
}

fn copy_counts(v: &Vec<(String, u64)>) -> (r: Vec<(String, u64)>)
    ensures
        keyed_view(r@) == keyed_view(v@),
{
    let ghost kv = keyed_view(v@);
    let mut out: Vec<(String, u64)> = Vec::new();
    let mut i: usize = 0;
    while i < v.len()
        invariant
            i <= v@.len(),
            kv == keyed_view(v@),
            kv.len() == v@.len(),
            out@.len() == i,
            keyed_view(out@) == kv.subrange(0, i as int),
        decreases v.len() - i,
    {
        let k = v[i].0.clone();
        let ghost before = keyed_view(out@);
        out.push((k, v[i].1));
        proof {
            assert(kv[i as int] == (v@[i as int].0@, v@[i as int].1));
            assert forall|m: int| 0 <= m < i + 1 implies #[trigger] keyed_view(out@)[m] == kv.subrange(0, i + 1)[m] by {
                if m < i {
                    assert(before[m] == kv.subrange(0, i as int)[m]);
                }
            }
        }
        assert(keyed_view(out@) =~= kv.subrange(0, i + 1));
        i = i + 1;
    }
    out
}

fn insert_count(out: &mut Vec<(String, u64)>, x: (String, u64))
    ensures
        keyed_view(final(out)@) == stable_insert(
            keyed_view(old(out)@),
            (x.0@, x.1),
            |a: (Seq<char>, u64), b: (Seq<char>, u64)| count_less(a, b),
        ),
{
    let ghost less = |a: (Seq<char>, u64), b: (Seq<char>, u64)| count_less(a, b);
    let ghost s = keyed_view(out@);
    let ghost xv = (x.0@, x.1);
    let mut p: usize = 0;
    while p < out.len() && !(x.1 > out[p].1)
        invariant
            p <= out.len(),
            less == (|a: (Seq<char>, u64), b: (Seq<char>, u64)| count_less(a, b)),
            s == keyed_view(out@),
            s.len() == out@.len(),
            xv == (x.0@, x.1),
            insert_pos(s, xv, less, 0) == insert_pos(s, xv, less, p as int),
        decreases out.len() - p,
    {
        assert(s[p as int].1 == out@[p as int].1);
        p = p + 1;
    }
    proof {
        if p < out.len() {
            assert(s[p as int].1 == out@[p as int].1);
        }
        assert(insert_pos(s, xv, less, p as int) == p as int);
    }
    out.insert(p, x);
    assert(keyed_view(out@) =~= s.insert(p as int, xv));
}

/// Ranks counts by decreasing count, keeping the order of ties.
fn rank_counts(v: Vec<(String, u64)>) -> (r: Vec<(String, u64)>)
    ensures
        keyed_view(r@) == ranked(keyed_view(v@)),
{
    let ghost less = |a: (Seq<char>, u64), b: (Seq<char>, u64)| count_less(a, b);
    let ghost unsorted = keyed_view(v@);
    let ghost n = v@.len();
    let mut rows = v;
    assert(rows@.len() == rows.len());
    let mut out: Vec<(String, u64)> = Vec::new();
    let mut k: usize = 0;
    while rows.len() > 0
        invariant
            k + rows@.len() == n,
            n <= usize::MAX,
            less == (|a: (Seq<char>, u64), b: (Seq<char>, u64)| count_less(a, b)),
            n == unsorted.len(),
            keyed_view(rows@) == unsorted.subrange(k as int, n as int),
            keyed_view(out@) == stable_sort(unsorted.subrange(0, k as int), less),
        decreases rows.len(),
    {
        let ghost before = rows@;
        let x = rows.remove(0);
        proof {
            assert(keyed_view(before)[0] == unsorted[k as int]);
            lemma_stable_sort_step(unsorted, k as int, less);
            assert forall|j: int| 0 <= j < rows@.len() implies #[trigger] keyed_view(rows@)[j]
                == unsorted.subrange(k + 1, n as int)[j] by {
                assert(rows@[j] == before[j + 1]);
                assert(keyed_view(before)[j + 1] == unsorted.subrange(k as int, n as int)[j + 1]);
            }
            assert(keyed_view(rows@) =~= unsorted.subrange(k + 1, n as int));
        }
        insert_count(&mut out, x);
        k = k + 1;
    }
    assert(unsorted.subrange(0, n as int) =~= unsorted);
    out
}

fn insert_text(out: &mut Vec<String>, x: String)
    ensures
        strings_view(final(out)@) == stable_insert(
            strings_view(old(out)@),
            x@,
            |a: Seq<char>, b: Seq<char>| lex_lt(a, b),
        ),
{
    let ghost less = |a: Seq<char>, b: Seq<char>| lex_lt(a, b);
    let ghost s = strings_view(out@);
    let xc = chars_of(x.as_str());
    let mut p: usize = 0;
    while p < out.len() && !lex_lt_vec(&xc, &chars_of(out[p].as_str()))
        invariant
            p <= out.len(),
            less == (|a: Seq<char>, b: Seq<char>| lex_lt(a, b)),
            s == strings_view(out@),
            s.len() == out@.len(),
            xc@ == x@,
            insert_pos(s, x@, less, 0) == insert_pos(s, x@, less, p as int),
        decreases out.len() - p,
    {
        assert(s[p as int] == out@[p as int]@);
        p = p + 1;
    }
    proof {
        if p < out.len() {
            assert(s[p as int] == out@[p as int]@);
        }
        assert(insert_pos(s, x@, less, p as int) == p as int);
    }
    let ghost xv = x@;
    out.insert(p, x);
    assert(strings_view(out@) =~= s.insert(p as int, xv));
}

/// Sorts texts in lexicographic order.
fn sort_texts(v: Vec<String>) -> (r: Vec<String>)
    ensures
        strings_view(r@) == stable_sort(strings_view(v@), |a: Seq<char>, b: Seq<char>| lex_lt(a, b)),
{
    let ghost less = |a: Seq<char>, b: Seq<char>| lex_lt(a, b);
    let ghost unsorted = strings_view(v@);
    let ghost n = v@.len();
    let mut rows = v;
    assert(rows@.len() == rows.len());
    let mut out: Vec<String> = Vec::new();
    let mut k: usize = 0;
    while rows.len() > 0
        invariant
            k + rows@.len() == n,
            n <= usize::MAX,
            less == (|a: Seq<char>, b: Seq<char>| lex_lt(a, b)),
            n == unsorted.len(),
            strings_view(rows@) == unsorted.subrange(k as int, n as int),
            strings_view(out@) == stable_sort(unsorted.subrange(0, k as int), less),
        decreases rows.len(),
    {
        let ghost before = rows@;
        let x = rows.remove(0);
        proof {
            assert(strings_view(before)[0] == unsorted[k as int]);
            lemma_stable_sort_step(unsorted, k as int, less);
            assert forall|j: int| 0 <= j < rows@.len() implies #[trigger] strings_view(rows@)[j]
                == unsorted.subrange(k + 1, n as int)[j] by {
                assert(rows@[j] == before[j + 1]);
                assert(strings_view(before)[j + 1] == unsorted.subrange(k as int, n as int)[j + 1]);
            }
            assert(strings_view(rows@) =~= unsorted.subrange(k + 1, n as int));
        }
        insert_text(&mut out, x);
        k = k + 1;
    }
    assert(unsorted.subrange(0, n as int) =~= unsorted);
    out
}

/// The headline of a summary: the first critical finding, else Windows
/// Update activity, else the most repeated process, else the main indicator.
pub fn build_headline(
    findings: &[TraceFinding],
    hot_processes: &[TraceProcessSummary],
    hot_paths: &[TracePathSummary],
    indicators: &[String],
) -> (r: String)
    ensures
        r@ == headline_spec(
            findings@.map_values(|f: TraceFinding| f@),
            hot_processes@.map_values(|p: TraceProcessSummary| p@),
            hot_paths@.map_values(|p: TracePathSummary| p@),
            strings_view(indicators@),
        ),
{
    let ghost fs = findings@.map_values(|f: TraceFinding| f@);
    let mut i: usize = 0;
    while i < findings.len() && findings[i].severity != Severity::Critical
        invariant
            i <= findings@.len(),
            fs == findings@.map_values(|f: TraceFinding| f@),
            fs.len() == findings@.len(),
            first_critical_from(fs, 0) == first_critical_from(fs, i as int),
        decreases findings.len() - i,
    {
        assert(fs[i as int] == findings@[i as int]@);
        i = i + 1;
    }
    if i < findings.len() {
        assert(fs[i as int] == findings@[i as int]@);
        return findings[i].title.clone();
    }
    let ghost ps = hot_paths@.map_values(|p: TracePathSummary| p@);
    let mut j: usize = 0;
    let mut update = false;
    while j < hot_paths.len() && !update
        invariant
            j <= hot_paths@.len(),
            ps == hot_paths@.map_values(|p: TracePathSummary| p@),
            ps.len() == hot_paths@.len(),
            update == (exists|k: int| 0 <= k < j && (#[trigger] ps[k]).category == "windows-update"@),
        decreases hot_paths.len() - j + (if update { 0int } else { 1int }),
    {
        assert(ps[j as int] == hot_paths@[j as int]@);
        if str_eq(hot_paths[j].category.as_str(), "windows-update") {
            update = true;
        }
        j = j + 1;
    }
    if update {
        return owned("La traza sugiere actividad relacionada con Windows Update o servicing");
    }
    if hot_processes.len() > 0 {
        return concat2("Proceso más repetido en la traza: ", hot_processes[0].name.as_str());
    }
    if indicators.len() > 0 {
        return concat2("Indicador dominante: ", indicators[0].as_str());
    }
    owned("Traza procesada sin hallazgo dominante automático")
}

/// How far the summary can be trusted.
pub fn build_confidence(
    summary_excerpt: &str,
    total_events: u64,
    hot_paths: &[TracePathSummary],
    hot_processes: &[TraceProcessSummary],
) -> (r: String)
    ensures
        r@ == confidence_spec(summary_excerpt@, total_events, hot_paths@.len() as int, hot_processes@.len() as int),
{
    if total_events >= 500 && (hot_paths.len() > 0 || hot_processes.len() > 0) {
        return owned("Media-alta: la captura tiene suficiente volumen para orientar la investigación");
    }
    if summary_excerpt.unicode_len() > 0 {
        return owned("Media: hay señal, pero conviene abrir WPA para ver el intervalo exacto");
    }
    owned("Baja-media: la captura fue procesada, pero la evidencia resumida es limitada")
}

/// The first three non-blank lines of the `summary.txt` text, trimmed and
/// joined by ` | `.
pub fn summary_excerpt(text: &str) -> (r: String)
    ensures
        r@ == summary_excerpt_spec(text@),
{
    let lines = split_char_str(text, '\n');
    let ghost ls = split_char(text@, '\n').map_values(|l: Seq<char>| trim(l));
    let ghost pred = |l: Seq<char>| l.len() > 0;
    let mut kept: Vec<String> = Vec::new();
    let mut i: usize = 0;
    while i < lines.len()
        invariant
            i <= lines@.len(),
            lines@.len() == split_char(text@, '\n').len(),
            forall|k: int| 0 <= k < lines@.len() ==> (#[trigger] lines@[k])@ == split_char(text@, '\n')[k],
            ls == split_char(text@, '\n').map_values(|l: Seq<char>| trim(l)),
            ls.len() == lines@.len(),
            pred == (|l: Seq<char>| l.len() > 0),
            strings_view(kept@) == keep(ls.subrange(0, i as int), pred),
        decreases lines.len() - i,
    {
        let t = crate::text::trim_str(lines[i].as_str());
        proof {
            let pre = ls.subrange(0, i + 1);
            assert(pre.drop_last() =~= ls.subrange(0, i as int));
            assert(pre.last() == t@);
        }
        let ghost before = strings_view(kept@);
        if t.as_str().unicode_len() > 0 {
            let ghost tv = t@;
            kept.push(t);
            assert(strings_view(kept@) =~= before + seq![tv]);
        } else {
            assert(strings_view(kept@) =~= before + Seq::<Seq<char>>::empty());
        }
        i = i + 1;
    }
    assert(ls.subrange(0, ls.len() as int) =~= ls);
    let ghost full = strings_view(kept@);
    kept.truncate(3);
    proof {
        assert(strings_view(kept@) =~= take(full, 3));
        assert(kept@.map_values(|p: String| p@) =~= strings_view(kept@));
    }
    join_strings(&kept, " | ")
}

fn copy_finding(f: &TraceFinding) -> (r: TraceFinding)
    ensures
        r@ == f@,
{
    TraceFinding {
        severity: f.severity,
        title: f.title.clone(),
        detail: f.detail.clone(),
        evidence: f.evidence.clone(),
    }
}

fn process_rows(v: &Vec<(String, u64)>) -> (r: Vec<TraceProcessSummary>)
    ensures
        r@.map_values(|p: TraceProcessSummary| p@) == keyed_view(v@).map_values(
            |e: (Seq<char>, u64)| process_row(e),
        ),
{
    let ghost want = keyed_view(v@).map_values(|e: (Seq<char>, u64)| process_row(e));
    let mut out: Vec<TraceProcessSummary> = Vec::new();
    let mut i: usize = 0;
    while i < v.len()
        invariant
            i <= v@.len(),
            want == keyed_view(v@).map_values(|e: (Seq<char>, u64)| process_row(e)),
            want.len() == v@.len(),
            out@.len() == i,
            forall|m: int| 0 <= m < i ==> (#[trigger] out@[m])@ == want[m],
        decreases v.len() - i,
    {
        let name = v[i].0.as_str();
        let row = TraceProcessSummary {
            name: owned(name),
            occurrences: v[i].1,
            severity: infer_process_severity(name),
            reason: reason_for_process(name),
        };
        assert(keyed_view(v@)[i as int] == (v@[i as int].0@, v@[i as int].1));
        out.push(row);
        i = i + 1;
    }
    assert(out@.map_values(|p: TraceProcessSummary| p@) =~= want);
    out
}

fn path_rows(v: &Vec<(String, u64)>) -> (r: Vec<TracePathSummary>)
    ensures
        r@.map_values(|p: TracePathSummary| p@) == keyed_view(v@).map_values(
            |e: (Seq<char>, u64)| path_row(e),
        ),
{
    let ghost want = keyed_view(v@).map_values(|e: (Seq<char>, u64)| path_row(e));
    let mut out: Vec<TracePathSummary> = Vec::new();
    let mut i: usize = 0;
    while i < v.len()
        invariant
            i <= v@.len(),
            want == keyed_view(v@).map_values(|e: (Seq<char>, u64)| path_row(e)),
            want.len() == v@.len(),
            out@.len() == i,
            forall|m: int| 0 <= m < i ==> (#[trigger] out@[m])@ == want[m],
        decreases v.len() - i,
    {
        let path = v[i].0.as_str();
        let row = TracePathSummary {
            path: owned(path),
            category: categorize_path(path),
            occurrences: v[i].1,
            severity: severity_for_path(path),
        };
        assert(keyed_view(v@)[i as int] == (v@[i as int].0@, v@[i as int].1));
        out.push(row);
        i = i + 1;
    }
    assert(out@.map_values(|p: TracePathSummary| p@) =~= want);
    out
}

fn indicator_texts(v: &Vec<(String, u64)>) -> (r: Vec<String>)
    ensures
        strings_view(r@) == keyed_view(v@).map_values(|e: (Seq<char>, u64)| indicator_text(e)),
{
    let ghost want = keyed_view(v@).map_values(|e: (Seq<char>, u64)| indicator_text(e));
    let mut out: Vec<String> = Vec::new();
    let mut i: usize = 0;
    while i < v.len()
        invariant
            i <= v@.len(),
            want == keyed_view(v@).map_values(|e: (Seq<char>, u64)| indicator_text(e)),
            want.len() == v@.len(),
            out@.len() == i,
            forall|m: int| 0 <= m < i ==> (#[trigger] out@[m])@ == want[m],
        decreases v.len() - i,
    {
        let count = int_text_exec(v[i].1 as i128);
        let text = join_all(&[v[i].0.as_str(), " (", count.as_str(), ")"]);
        proof {
            reveal_with_fuel(concat_all, 5);
            assert(keyed_view(v@)[i as int] == (v@[i as int].0@, v@[i as int].1));
            assert(text@ =~= indicator_text(keyed_view(v@)[i as int]));
        }
        out.push(text);
        i = i + 1;
    }
    assert(strings_view(out@) =~= want);
    out
}

/// Builds the summary of a tally. `excerpt` is the excerpt of `summary.txt`
/// (see [`summary_excerpt`]); the date and the paths are passed as rendered.
pub fn build_trace_analysis(
    tally: &EtlTally,
    excerpt: &str,
    analyzed_at: String,
    etl_path: String,
    output_directory: String,
    xml_path: String,
    summary_path: String,
) -> (r: TraceAnalysisSummary)
    ensures
        r@ == trace_analysis_spec(
            tally@,
            excerpt@,
            analyzed_at@,
            etl_path@,
            output_directory@,
            xml_path@,
            summary_path@,
        ),
        forall|i: int|
            0 <= i < r@.hot_processes.len() && update_or_installer_name(#[trigger] r@.hot_processes[i].name)
                ==> r@.hot_processes[i].severity == Severity::Warning,
{
    proof {
        lemma_trace_update_processes_warn(tally@, excerpt@, analyzed_at@, etl_path@, output_directory@, xml_path@, summary_path@);
    }
    let ghost t = tally@;
    let mut procs = rank_counts(copy_counts(&tally.processes));
    let ghost rp = keyed_view(procs@);
    procs.truncate(8);
    assert(keyed_view(procs@) =~= take(rp, 8));
    let hot_processes = process_rows(&procs);
    let mut paths = rank_counts(copy_counts(&tally.paths));
    let ghost rpa = keyed_view(paths@);
    paths.truncate(10);
    assert(keyed_view(paths@) =~= take(rpa, 10));
    let hot_paths = path_rows(&paths);
    let mut inds = rank_counts(copy_counts(&tally.indicators));
    let ghost ri = keyed_view(inds@);
    inds.truncate(12);
    assert(keyed_view(inds@) =~= take(ri, 12));
    let indicators = indicator_texts(&inds);
    let mut providers = rank_counts(copy_counts(&tally.providers));
    let ghost rpr = keyed_view(providers@);
    providers.truncate(8);
    assert(keyed_view(providers@) =~= take(rpr, 8));
    // addresses
    let ghost keys = t.ips.map_values(|e: (Seq<char>, u64)| e.0);
    let mut ips: Vec<String> = Vec::new();
    let mut i: usize = 0;
    while i < tally.ips.len()
        invariant
            i <= tally.ips@.len(),
            t == tally@,
            keys == t.ips.map_values(|e: (Seq<char>, u64)| e.0),
            t.ips == keyed_view(tally.ips@),
            keys.len() == tally.ips@.len(),
            ips@.len() == i,
            forall|m: int| 0 <= m < i ==> (#[trigger] ips@[m])@ == keys[m],
        decreases tally.ips.len() - i,
    {
        assert(keys[i as int] == tally.ips@[i as int].0@);
        ips.push(tally.ips[i].0.clone());
        i = i + 1;
    }
    assert(strings_view(ips@) =~= keys);
    let mut public_ips = sort_texts(ips);
    let ghost sorted_ips = strings_view(public_ips@);
    public_ips.truncate(10);
    assert(strings_view(public_ips@) =~= take(sorted_ips, 10));
    // findings
    let mut findings: Vec<TraceFinding> = Vec::new();
    let mut j: usize = 0;
    while j < tally.findings.len()
        invariant
            j <= tally.findings@.len(),
            t == tally@,
            t.findings == findings_view(tally.findings@),
            findings@.len() == j,
            forall|m: int| 0 <= m < j ==> (#[trigger] findings@[m])@ == t.findings[m],
        decreases tally.findings.len() - j,
    {
        findings.push(copy_finding(&tally.findings[j]));
        j = j + 1;
    }
    if findings.len() == 0 {
        let count = int_text_exec(tally.total_events as i128);
        findings.push(
            TraceFinding {
                severity: Severity::Healthy,
                title: owned("Sin hallazgo dominante en el resumen automático"),
                detail: owned(
                    "La traza fue procesada, pero el análisis automático no encontró una señal claramente dominante. Usa WPA para profundizar en el intervalo exacto.",
                ),
                evidence: concat2("Eventos procesados: ", count.as_str()),
            },
        );
        assert(findings@.map_values(|f: TraceFinding| f@) =~= seq![quiet_finding(t.total_events)]);
    } else {
        assert(findings@.map_values(|f: TraceFinding| f@) =~= t.findings);
    }
    let headline = build_headline(
        findings.as_slice(),
        hot_processes.as_slice(),
        hot_paths.as_slice(),
        indicators.as_slice(),
    );
    let confidence = build_confidence(excerpt, tally.total_events, hot_paths.as_slice(), hot_processes.as_slice());
    let mut limitations: Vec<String> = Vec::new();
    limitations.push(
        owned(
            "Este resumen usa exportación por tracerpt y heurísticas propias; no sustituye la exploración pivoteada de WPA.",
        ),
    );
    limitations.push(owned("La exactitud depende de que la captura WPR cubra el momento exacto del problema."));
    limitations.push(
        owned(
            "Si quieres relación temporal fina por milisegundo o pilas, abre el ETL en WPA y carga símbolos.",
        ),
    );
    if excerpt.unicode_len() > 0 {
        limitations.push(concat2("Extracto de summary.txt: ", excerpt));
    }
    assert(strings_view(limitations@) =~= limitations_spec(excerpt@));
    let r = TraceAnalysisSummary {
        engine: owned("tracerpt + heurísticas RootCause"),
        analyzed_at,
        etl_path,
        output_directory,
        raw_xml_path: Some(xml_path),
        raw_summary_path: Some(summary_path),
        total_events: tally.total_events,
        headline,
        confidence,
        findings,
        hot_processes,
        hot_paths,
        public_ips,
        providers,
        indicators,
        limitations,
    };
    assert(r@.providers =~= take(ranked(t.providers), 8));
    r
}


// ---------------------------------------------------------------------------
// Laws
// ---------------------------------------------------------------------------

/// A ranking is ordered by decreasing count.
pub proof fn lemma_ranked_by_count(t: Seq<(Seq<char>, u64)>)
    ensures
        forall|i: int, j: int| 0 <= i < j < ranked(t).len() ==> (#[trigger] ranked(t)[i]).1 >= (#[trigger] ranked(t)[j]).1,
{
    let less = |a: (Seq<char>, u64), b: (Seq<char>, u64)| count_less(a, b);
    assert(strict_order(less));
    lemma_stable_sort_sorted(t, less);
}

/// The processes and paths of a trace summary come ordered by decreasing
/// occurrences.
pub proof fn lemma_trace_rows_ordered(
    t: EtlTallyView,
    excerpt: Seq<char>,
    analyzed_at: Seq<char>,
    etl_path: Seq<char>,
    output_directory: Seq<char>,
    xml_path: Seq<char>,
    summary_path: Seq<char>,
)
    ensures
        ({
            let a = trace_analysis_spec(t, excerpt, analyzed_at, etl_path, output_directory, xml_path, summary_path);
            &&& forall|i: int, j: int|
                0 <= i < j < a.hot_processes.len() ==> (#[trigger] a.hot_processes[i]).occurrences
                    >= (#[trigger] a.hot_processes[j]).occurrences
            &&& forall|i: int, j: int|
                0 <= i < j < a.hot_paths.len() ==> (#[trigger] a.hot_paths[i]).occurrences
                    >= (#[trigger] a.hot_paths[j]).occurrences
        }),
{
    lemma_ranked_by_count(t.processes);
    lemma_ranked_by_count(t.paths);
    let a = trace_analysis_spec(t, excerpt, analyzed_at, etl_path, output_directory, xml_path, summary_path);
    let rp = take(ranked(t.processes), 8);
    let rq = take(ranked(t.paths), 10);
    assert forall|i: int, j: int| 0 <= i < j < a.hot_processes.len() implies (#[trigger] a.hot_processes[i]).occurrences
        >= (#[trigger] a.hot_processes[j]).occurrences by {
        assert(a.hot_processes[i] == process_row(rp[i]));
        assert(a.hot_processes[j] == process_row(rp[j]));
        assert(rp[i] == ranked(t.processes)[i]);
        assert(rp[j] == ranked(t.processes)[j]);
    }
    assert forall|i: int, j: int| 0 <= i < j < a.hot_paths.len() implies (#[trigger] a.hot_paths[i]).occurrences
        >= (#[trigger] a.hot_paths[j]).occurrences by {
        assert(a.hot_paths[i] == path_row(rq[i]));
        assert(a.hot_paths[j] == path_row(rq[j]));
        assert(rq[i] == ranked(t.paths)[i]);
        assert(rq[j] == ranked(t.paths)[j]);
    }
}

// ---------------------------------------------------------------------------
// Where the artefacts of a trace go
// ---------------------------------------------------------------------------

/// A path separator of Windows paths.
pub open spec fn is_path_sep(c: char) -> bool {
    c == '/' || c == '\\'
}

/// The path without its trailing separators.
pub open spec fn trim_end_seps(s: Seq<char>) -> Seq<char>
    decreases s.len(),
{
    if s.len() > 0 && is_path_sep(s.last()) {
        trim_end_seps(s.drop_last())
    } else {
        s
    }
}

/// The text after the last separator.
pub open spec fn last_component(s: Seq<char>) -> Seq<char>
    decreases s.len(),
{
    if s.len() == 0 {
        s
    } else if is_path_sep(s.last()) {
        Seq::empty()
    } else {
        last_component(s.drop_last()).push(s.last())
    }
}

/// Index of the last `c` in `s`, or -1.
pub open spec fn last_index_of(s: Seq<char>, c: char) -> int
    decreases s.len(),
{
    if s.len() == 0 {
        -1
    } else if s.last() == c {
        s.len() - 1
    } else {
        last_index_of(s.drop_last(), c)
    }
}

/// The stem of a trace file (`Path::file_stem`, read as a Windows path): its
/// last component without the last extension, a name starting with its only
/// dot kept whole; `trace` when the path names no file (empty, `.` or `..`).
pub open spec fn file_stem_spec(path: Seq<char>) -> Seq<char> {
    let name = last_component(trim_end_seps(path));
    if name.len() == 0 || name == "."@ || name == ".."@ {
        "trace"@
    } else if last_index_of(name, '.') <= 0 {
        name
    } else {
        name.subrange(0, last_index_of(name, '.'))
    }
}

/// `base` joined with `name` by a Windows separator (none is added after a
/// trailing one, nor to an empty base).
pub open spec fn join_path(base: Seq<char>, name: Seq<char>) -> Seq<char> {
    if base.len() == 0 {
        name
    } else if is_path_sep(base.last()) {
        base + name
    } else {
        base + "\\"@ + name
    }
}

/// The folder of a trace's artefacts under `base`, named after the trace's stem.
pub open spec fn analysis_dir_spec(base: Seq<char>, etl_path: Seq<char>) -> Seq<char> {
    join_path(base, file_stem_spec(etl_path))
}

fn join_path_exec(base: &str, name: &str) -> (r: String)
    ensures
        r@ == join_path(base@, name@),
{
    let v = chars_of(base);
    if v.len() == 0 {
        owned(name)
    } else if v[v.len() - 1] == '/' || v[v.len() - 1] == '\\' {
        concat2(base, name)
    } else {
        crate::text::concat3(base, "\\", name)
    }
}

fn file_stem(path: &str) -> (r: String)
    ensures
        r@ == file_stem_spec(path@),
{
    let v = chars_of(path);
    let mut e: usize = v.len();
    assert(v@.subrange(0, e as int) =~= v@);
    while e > 0 && (v[e - 1] == '/' || v[e - 1] == '\\')
        invariant
            e <= v@.len(),
            trim_end_seps(v@) == trim_end_seps(v@.subrange(0, e as int)),
        decreases e,
    {
        assert(v@.subrange(0, e as int).drop_last() =~= v@.subrange(0, e - 1));
        e = e - 1;
    }
    assert(trim_end_seps(v@) == v@.subrange(0, e as int));
    let mut st: usize = e;
    while st > 0 && !(v[st - 1] == '/' || v[st - 1] == '\\')
        invariant
            st <= e <= v@.len(),
            last_component(v@.subrange(0, e as int)) == last_component(v@.subrange(0, st as int)) + v@.subrange(
                st as int,
                e as int,
            ),
        decreases st,
    {
        assert(v@.subrange(0, st as int).drop_last() =~= v@.subrange(0, st - 1));
        assert(v@.subrange(st - 1, e as int) =~= seq![v@[st - 1]] + v@.subrange(st as int, e as int));
        assert(last_component(v@.subrange(0, st - 1)).push(v@[st - 1]) + v@.subrange(st as int, e as int)
            =~= last_component(v@.subrange(0, st - 1)) + v@.subrange(st - 1, e as int));
        st = st - 1;
    }
    assert(last_component(v@.subrange(0, st as int)) =~= Seq::<char>::empty());
    let name = string_from_range(&v, st, e);
    assert(name@ =~= last_component(trim_end_seps(path@)));
    if e == st || str_eq(name.as_str(), ".") || str_eq(name.as_str(), "..") {
        return owned("trace");
    }
    let w = chars_of(name.as_str());
    let mut k: usize = w.len();
    assert(w@.subrange(0, k as int) =~= w@);
    while k > 0 && w[k - 1] != '.'
        invariant
            k <= w@.len(),
            last_index_of(w@, '.') == last_index_of(w@.subrange(0, k as int), '.'),
        decreases k,
    {
        assert(w@.subrange(0, k as int).drop_last() =~= w@.subrange(0, k - 1));
        k = k - 1;
    }
    if k <= 1 {
        proof {
            if k == 1 {
                assert(w@.subrange(0, 1).last() == '.');
            }
        }
        name
    } else {
        assert(w@.subrange(0, k as int).last() == '.');
        string_from_range(&w, 0, k - 1)
    }
}

/// Where the artefacts of a trace go: the XML dump, the text summary and the
/// JSON analysis, in a folder under `base_output_dir` named after the stem
/// of `etl_path` (paths read and joined as Windows paths).
pub fn analysis_layout(base_output_dir: &str, etl_path: &str) -> (r: (String, String, String))
    ensures
        r.0@ == join_path(analysis_dir_spec(base_output_dir@, etl_path@), "dumpfile.xml"@),
        r.1@ == join_path(analysis_dir_spec(base_output_dir@, etl_path@), "summary.txt"@),
        r.2@ == join_path(analysis_dir_spec(base_output_dir@, etl_path@), "trace-analysis.json"@),
{
    let stem = file_stem(etl_path);
    let dir = join_path_exec(base_output_dir, stem.as_str());
    (
        join_path_exec(dir.as_str(), "dumpfile.xml"),
        join_path_exec(dir.as_str(), "summary.txt"),
        join_path_exec(dir.as_str(), "trace-analysis.json"),
    )
}

} // verus!
