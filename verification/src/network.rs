//! Parsing and classification of network connections.
//!
//! The input is the text of `netstat -ano -n`; the heuristics answer practical
//! questions: which process holds active connections, whether the remote IP
//! looks public, and whether the executable's path is suspicious.

use crate::models::{opt_view, severity_rank, ConnectionInsight, ConnectionInsightView, Severity};
use crate::order::{insert_pos, lemma_stable_sort_step, stable_insert, stable_sort};
use crate::text::{
    before_char, chars_of, contains, contains_str, eq_ic, eq_ignore_case, find_char_vec, lex_lt,
    lex_lt_vec, lower, lower_vec, parse_u32, parse_unsigned, parse_unsigned_vec, rfind_char_before,
    rfind_char_vec, split_char, split_char_str, split_ws, split_ws_str, starts_with,
    starts_with_str, str_eq, string_from_range, to_lower, trim, trim_bounds, trim_str, vec_is,
    vec_starts,
};
use std::collections::HashMap;
use vstd::prelude::*;

verus! {

broadcast use vstd::std_specs::hash::group_hash_axioms;

// ---------------------------------------------------------------------------
// Specifications
// ---------------------------------------------------------------------------

/// The IP of an endpoint `ip:port` or `[ipv6]:port`; `None` for the wildcard
/// endpoints `*:*` and `0.0.0.0:0`.
pub open spec fn extract_ip_spec(endpoint: Seq<char>) -> Option<Seq<char>> {
    let t = trim(endpoint);
    if t == "*:*"@ || t == "0.0.0.0:0"@ {
        None
    } else if t.len() > 0 && t[0] == '[' {
        Some(before_char(t.drop_first(), ']'))
    } else {
        match rfind_char_before(t, ':', t.len() as int) {
            Some(i) => Some(t.subrange(0, i)),
            None => Some(t),
        }
    }
}

/// The second octet of a `172.x...` address lies in the private block 16..=31.
pub open spec fn private_172_octet(rest: Seq<char>) -> bool {
    match parse_unsigned(before_char(rest, '.'), 255) {
        Some(v) => 16 <= v <= 31,
        None => false,
    }
}

/// Local heuristic: private, loopback, link-local and unspecified addresses are
/// not public; everything else is.
pub open spec fn is_public_ip_spec(ip: Seq<char>) -> bool {
    let s = lower(trim(ip));
    if s.len() == 0 || s == "*"@ || s == "0.0.0.0"@ || s == "::"@ || s == "::1"@ || starts_with(
        s,
        "127."@,
    ) || starts_with(s, "10."@) || starts_with(s, "192.168."@) || starts_with(s, "169.254."@)
        || starts_with(s, "fe80:"@) || starts_with(s, "fc"@) || starts_with(s, "fd"@) {
        false
    } else if starts_with(s, "172."@) && private_172_octet(s.subrange(4, s.len() as int)) {
        false
    } else {
        true
    }
}

/// An address of a private, loopback or link-local IPv4 range, by the start
/// of its text: 10.0.0.0/8, 192.168.0.0/16, 127.0.0.0/8 or 169.254.0.0/16.
pub open spec fn in_private_range(t: Seq<char>) -> bool {
    ||| starts_with(t, "10."@)
    ||| starts_with(t, "192.168."@)
    ||| starts_with(t, "127."@)
    ||| starts_with(t, "169.254."@)
}

/// No address of a private, loopback or link-local range is public.
pub proof fn lemma_private_is_not_public(ip: Seq<char>)
    ensures
        in_private_range(trim(ip)) ==> !is_public_ip_spec(ip),
{
    let t = trim(ip);
    reveal_strlit("10.");
    reveal_strlit("192.168.");
    reveal_strlit("127.");
    reveal_strlit("169.254.");
    if starts_with(t, "10."@) {
        crate::text::lemma_lower_keeps_prefix(t, "10."@);
    } else if starts_with(t, "192.168."@) {
        crate::text::lemma_lower_keeps_prefix(t, "192.168."@);
    } else if starts_with(t, "127."@) {
        crate::text::lemma_lower_keeps_prefix(t, "127."@);
    } else if starts_with(t, "169.254."@) {
        crate::text::lemma_lower_keeps_prefix(t, "169.254."@);
    }
}

/// A connection whose remote address lies in a private range is never
/// flagged as public and is classified healthy.
pub proof fn lemma_private_connection_is_not_flagged(
    process_name: Seq<char>,
    exe_path: Seq<char>,
    remote_address: Seq<char>,
    state: Seq<char>,
)
    ensures
        (match extract_ip_spec(remote_address) {
            Some(ip) => in_private_range(trim(ip)),
            None => true,
        }) ==> classify_connection_spec(process_name, exe_path, remote_address, state).0 == Severity::Healthy
            && !classify_connection_spec(process_name, exe_path, remote_address, state).2,
{
    match extract_ip_spec(remote_address) {
        Some(ip) => lemma_private_is_not_public(ip),
        None => {},
    }
}

/// The name contains one of the common browser names.
pub open spec fn looks_like_browser_spec(name: Seq<char>) -> bool {
    contains(name, "chrome"@) || contains(name, "msedge"@) || contains(name, "firefox"@)
        || contains(name, "opera"@) || contains(name, "brave"@) || contains(name, "vivaldi"@)
}

/// The (lower-cased) path lies in a temporary folder.
pub open spec fn path_is_temp(lower_path: Seq<char>) -> bool {
    contains(lower_path, "\\temp\\"@) || contains(lower_path, "\\appdata\\local\\temp\\"@)
}

/// Severity, reason and public-remote flag of a connection.
pub open spec fn classify_connection_spec(
    process_name: Seq<char>,
    exe_path: Seq<char>,
    remote_address: Seq<char>,
    state: Seq<char>,
) -> (Severity, Seq<char>, bool) {
    let public = match extract_ip_spec(remote_address) {
        Some(ip) => is_public_ip_spec(ip),
        None => false,
    };
    let browser = looks_like_browser_spec(lower(process_name));
    let temp = path_is_temp(lower(exe_path));
    let established = eq_ignore_case(state, "ESTABLISHED"@);
    if public && temp && established {
        (Severity::Critical, "Conexión pública desde ejecutable ubicado en carpeta temporal"@, true)
    } else if public && established && !browser {
        (
            Severity::Warning,
            "Conexión pública activa; conviene validar si este proceso debería salir a Internet"@,
            true,
        )
    } else if public && eq_ignore_case(state, "UDP"@) {
        (
            Severity::Warning,
            "Tráfico UDP hacia IP pública; revisar si corresponde a software esperado"@,
            true,
        )
    } else {
        (Severity::Healthy, "Conexión sin señales obvias de riesgo en esta heurística"@, public)
    }
}

/// The PID column, 0 when it does not parse.
pub open spec fn pid_of(col: Seq<char>) -> u32 {
    match parse_unsigned(col, u32::MAX as int) {
        Some(v) => v as u32,
        None => 0,
    }
}

/// The process name known for a PID, `Desconocido` otherwise.
pub open spec fn name_for(names: Map<u32, String>, pid: u32) -> Seq<char> {
    if names.contains_key(pid) {
        names[pid]@
    } else {
        "Desconocido"@
    }
}

/// The executable path known for a PID, empty otherwise.
pub open spec fn path_for(paths: Map<u32, String>, pid: u32) -> Seq<char> {
    if paths.contains_key(pid) {
        paths[pid]@
    } else {
        Seq::empty()
    }
}

/// The connection a netstat line describes, if it is a TCP line with at least
/// five columns or a UDP line with at least four.
pub open spec fn netstat_row(
    line: Seq<char>,
    names: Map<u32, String>,
    paths: Map<u32, String>,
) -> Option<ConnectionInsightView> {
    let t = trim(line);
    let cols = split_ws(t);
    if t.len() == 0 || starts_with(t, "Proto"@) || cols.len() == 0 {
        None
    } else if cols[0] == "TCP"@ && cols.len() >= 5 {
        let pid = pid_of(cols[4]);
        let name = name_for(names, pid);
        let path = path_for(paths, pid);
        let c = classify_connection_spec(name, path, cols[2], cols[3]);
        Some(
            ConnectionInsightView {
                protocol: "TCP"@,
                local_address: cols[1],
                remote_address: cols[2],
                state: cols[3],
                pid,
                process_name: name,
                exe_path: path,
                severity: c.0,
                reason: c.1,
                is_public_remote: c.2,
            },
        )
    } else if cols[0] == "UDP"@ && cols.len() >= 4 {
        let pid = pid_of(cols[3]);
        let name = name_for(names, pid);
        let path = path_for(paths, pid);
        let c = classify_connection_spec(name, path, cols[2], "UDP"@);
        Some(
            ConnectionInsightView {
                protocol: "UDP"@,
                local_address: cols[1],
                remote_address: cols[2],
                state: "ACTIVE"@,
                pid,
                process_name: name,
                exe_path: path,
                severity: c.0,
                reason: c.1,
                is_public_remote: c.2,
            },
        )
    } else {
        None
    }
}

/// The connections of a sequence of lines, in line order.
pub open spec fn netstat_rows(
    lines: Seq<Seq<char>>,
    names: Map<u32, String>,
    paths: Map<u32, String>,
) -> Seq<ConnectionInsightView>
    decreases lines.len(),
{
    if lines.len() == 0 {
        Seq::empty()
    } else {
        netstat_rows(lines.drop_last(), names, paths) + match netstat_row(
            lines.last(),
            names,
            paths,
        ) {
            Some(r) => seq![r],
            None => Seq::empty(),
        }
    }
}

/// Order of the connection table: higher severity first, then by process name.
pub open spec fn connection_less(a: ConnectionInsightView, b: ConnectionInsightView) -> bool {
    severity_rank(a.severity) > severity_rank(b.severity) || (severity_rank(a.severity)
        == severity_rank(b.severity) && lex_lt(a.process_name, b.process_name))
}

/// The views of a vector of connections.
pub open spec fn connections_view(v: Seq<ConnectionInsight>) -> Seq<ConnectionInsightView> {
    v.map_values(|c: ConnectionInsight| c@)
}

/// What `parse_netstat_output` returns for a netstat text: the connections of
/// its lines (split at `\n`; each line is trimmed, so a `\r` before the `\n`
/// is dropped as `str::lines` drops it), stably sorted by `connection_less`.
pub open spec fn parse_netstat_spec(
    output: Seq<char>,
    names: Map<u32, String>,
    paths: Map<u32, String>,
) -> Seq<ConnectionInsightView> {
    stable_sort(
        netstat_rows(split_char(output, '\n'), names, paths),
        |a: ConnectionInsightView, b: ConnectionInsightView| connection_less(a, b),
    )
}

// ---------------------------------------------------------------------------
// Implementation
// ---------------------------------------------------------------------------

/// Extracts the IP of an endpoint `ip:port` or `[ipv6]:port`.
pub fn extract_ip(endpoint: &str) -> (r: Option<String>)
    ensures
        opt_view(r) == extract_ip_spec(endpoint@),
{
    let v = chars_of(endpoint);
    let (a, b) = trim_bounds(&v);
    let t = string_from_range(&v, a, b);
    let tv = chars_of(t.as_str());
    if vec_is(&tv, "*:*") || vec_is(&tv, "0.0.0.0:0") {
        return None;
    }
    if tv.len() > 0 && tv[0] == '[' {
        let rest = string_from_range(&tv, 1, tv.len());
        let rv = chars_of(rest.as_str());
        proof {
            assert(rv@ =~= tv@.drop_first());
        }
        return match find_char_vec(&rv, ']', 0) {
            Some(i) => Some(string_from_range(&rv, 0, i)),
            None => Some(rest),
        };
    }
    match rfind_char_vec(&tv, ':', tv.len()) {
        Some(i) => Some(string_from_range(&tv, 0, i)),
        None => Some(t),
    }
}

/// Local heuristic to tell private/loopback IPs from public ones.
pub fn is_public_ip(ip: &str) -> (r: bool)
    ensures
        r == is_public_ip_spec(ip@),
        in_private_range(trim(ip@)) ==> !r,
{
    proof {
        lemma_private_is_not_public(ip@);
    }
    let v = chars_of(ip);
    let (a, b) = trim_bounds(&v);
    let t = string_from_range(&v, a, b);
    let s = lower_vec(&chars_of(t.as_str()));
    if s.len() == 0 || vec_is(&s, "*") || vec_is(&s, "0.0.0.0") || vec_is(&s, "::") || vec_is(
        &s,
        "::1",
    ) || vec_starts(&s, "127.") || vec_starts(&s, "10.") || vec_starts(&s, "192.168.")
        || vec_starts(&s, "169.254.") || vec_starts(&s, "fe80:") || vec_starts(&s, "fc")
        || vec_starts(&s, "fd") {
        return false;
    }
    if vec_starts(&s, "172.") {
        proof {
            reveal_strlit("172.");
        }
        let rest = string_from_range(&s, 4, s.len());
        let rv = chars_of(rest.as_str());
        let octet = match find_char_vec(&rv, '.', 0) {
            Some(i) => string_from_range(&rv, 0, i),
            None => rest,
        };
        let ov = chars_of(octet.as_str());
        match parse_unsigned_vec(&ov, 255) {
            Some(value) => {
                if 16 <= value && value <= 31 {
                    return false;
                }
            },
            None => {},
        }
    }
    true
}

/// Tells common browsers apart so that the interface is not flooded with false positives.
pub fn looks_like_browser(name: &str) -> (r: bool)
    ensures
        r == looks_like_browser_spec(name@),
{
    contains_str(name, "chrome") || contains_str(name, "msedge") || contains_str(name, "firefox")
        || contains_str(name, "opera") || contains_str(name, "brave") || contains_str(
        name,
        "vivaldi",
    )
}

/// Decides whether a connection is normal, a warning or critical.
pub fn classify_connection(
    process_name: &str,
    exe_path: &str,
    remote_address: &str,
    state: &str,
) -> (r: (Severity, String, bool))
    ensures
        r.0 == classify_connection_spec(process_name@, exe_path@, remote_address@, state@).0,
        r.1@ == classify_connection_spec(process_name@, exe_path@, remote_address@, state@).1,
        r.2 == classify_connection_spec(process_name@, exe_path@, remote_address@, state@).2,
        (match extract_ip_spec(remote_address@) {
            Some(ip) => in_private_range(trim(ip)),
            None => true,
        }) ==> r.0 == Severity::Healthy && !r.2,
        (match extract_ip_spec(remote_address@) {
            Some(ip) => is_public_ip_spec(ip),
            None => false,
        }) && eq_ignore_case(state@, "ESTABLISHED"@) ==> r.2 && (if path_is_temp(lower(exe_path@)) {
            r.0 == Severity::Critical
        } else if looks_like_browser_spec(lower(process_name@)) {
            r.0 == Severity::Healthy
        } else {
            r.0 == Severity::Warning
        }),
{
    proof {
        lemma_private_connection_is_not_flagged(process_name@, exe_path@, remote_address@, state@);
        if eq_ignore_case(state@, "ESTABLISHED"@) {
            reveal_strlit("ESTABLISHED");
            reveal_strlit("UDP");
            assert(lower(state@).len() == lower("ESTABLISHED"@).len());
            assert(lower("UDP"@).len() == 3);
            assert(!eq_ignore_case(state@, "UDP"@));
        }
    }
    let remote_ip = extract_ip(remote_address);
    let is_public_remote = match &remote_ip {
        Some(ip) => is_public_ip(ip.as_str()),
        None => false,
    };
    let lower_name = to_lower(process_name);
    let lower_path = to_lower(exe_path);
    let browser = looks_like_browser(lower_name.as_str());
    let temp = contains_str(lower_path.as_str(), "\\temp\\") || contains_str(
        lower_path.as_str(),
        "\\appdata\\local\\temp\\",
    );
    let established = eq_ic(state, "ESTABLISHED");
    if is_public_remote && temp && established {
        return (
            Severity::Critical,
            "Conexión pública desde ejecutable ubicado en carpeta temporal".to_owned(),
            true,
        );
    }
    if is_public_remote && established && !browser {
        return (
            Severity::Warning,
            "Conexión pública activa; conviene validar si este proceso debería salir a Internet".to_owned(),
            true,
        );
    }
    if is_public_remote && eq_ic(state, "UDP") {
        return (
            Severity::Warning,
            "Tráfico UDP hacia IP pública; revisar si corresponde a software esperado".to_owned(),
            true,
        );
    }
    (
        Severity::Healthy,
        "Conexión sin señales obvias de riesgo en esta heurística".to_owned(),
        is_public_remote,
    )
}

fn lookup_or(map: &HashMap<u32, String>, pid: u32, fallback: &str) -> (r: String)
    ensures
        r@ == (if map@.contains_key(pid) {
            map@[pid]@
        } else {
            fallback@
        }),
{
    match map.get(&pid) {
        Some(v) => v.clone(),
        None => fallback.to_owned(),
    }
}

fn parse_pid(col: &str) -> (r: u32)
    ensures
        r == pid_of(col@),
{
    match parse_u32(col) {
        Some(v) => v,
        None => 0,
    }
}

/// The connection of one netstat line, if any.
fn parse_netstat_line(
    raw_line: &str,
    process_names: &HashMap<u32, String>,
    process_paths: &HashMap<u32, String>,
) -> (r: Option<ConnectionInsight>)
    ensures
        match r {
            Some(c) => netstat_row(raw_line@, process_names@, process_paths@) == Some(c@),
            None => netstat_row(raw_line@, process_names@, process_paths@) is None,
        },
{
    let line = trim_str(raw_line);
    let columns = split_ws_str(line.as_str());
    if line.unicode_len() == 0 || starts_with_str(line.as_str(), "Proto") || columns.len() == 0 {
        return None;
    }
    if str_eq(columns[0].as_str(), "TCP") && columns.len() >= 5 {
        let pid = parse_pid(columns[4].as_str());
        let exe_path = lookup_or(process_paths, pid, "");
        let process_name = lookup_or(process_names, pid, "Desconocido");
        let remote_address = columns[2].clone();
        let (severity, reason, is_public_remote) = classify_connection(
            process_name.as_str(),
            exe_path.as_str(),
            remote_address.as_str(),
            columns[3].as_str(),
        );
        proof {
            reveal_strlit("");
            let t = trim(raw_line@);
            let cols = split_ws(t);
            assert(line@ == t);
            assert(columns@.len() == cols.len());
            assert(cols[0] == "TCP"@);
            assert(columns@[4]@ == cols[4]);
            assert(pid == pid_of(cols[4]));
            assert(process_name@ == name_for(process_names@, pid));
            assert(exe_path@ == path_for(process_paths@, pid));
            assert(remote_address@ == cols[2]);
        }
        return Some(
            ConnectionInsight {
                protocol: "TCP".to_owned(),
                local_address: columns[1].clone(),
                remote_address,
                state: columns[3].clone(),
                pid,
                process_name,
                exe_path,
                severity,
                reason,
                is_public_remote,
            },
        );
    }
    if str_eq(columns[0].as_str(), "UDP") && columns.len() >= 4 {
        let pid = parse_pid(columns[3].as_str());
        let exe_path = lookup_or(process_paths, pid, "");
        let process_name = lookup_or(process_names, pid, "Desconocido");
        let remote_address = columns[2].clone();
        let (severity, reason, is_public_remote) = classify_connection(
            process_name.as_str(),
            exe_path.as_str(),
            remote_address.as_str(),
            "UDP",
        );
        proof {
            reveal_strlit("");
            let t = trim(raw_line@);
            let cols = split_ws(t);
            assert(line@ == t);
            assert(columns@.len() == cols.len());
            assert(cols[0] == "UDP"@);
            assert(!(cols[0] == "TCP"@ && cols.len() >= 5));
            assert(columns@[3]@ == cols[3]);
            assert(pid == pid_of(cols[3]));
            assert(process_name@ == name_for(process_names@, pid));
            assert(exe_path@ == path_for(process_paths@, pid));
            assert(remote_address@ == cols[2]);
        }
        return Some(
            ConnectionInsight {
                protocol: "UDP".to_owned(),
                local_address: columns[1].clone(),
                remote_address,
                state: "ACTIVE".to_owned(),
                pid,
                process_name,
                exe_path,
                severity,
                reason,
                is_public_remote,
            },
        );
    }
    None
}

fn connection_less_exec(a: &ConnectionInsight, b: &ConnectionInsight) -> (r: bool)
    ensures
        r == connection_less(a@, b@),
{
    let ra = a.severity.rank();
    let rb = b.severity.rank();
    if ra > rb {
        return true;
    }
    if ra < rb {
        return false;
    }
    let na = chars_of(a.process_name.as_str());
    let nb = chars_of(b.process_name.as_str());
    lex_lt_vec(&na, &nb)
}

/// Inserts `x` into `out` after every connection it does not precede.
fn insert_connection(out: &mut Vec<ConnectionInsight>, x: ConnectionInsight)
    ensures
        connections_view(final(out)@) == stable_insert(
            connections_view(old(out)@),
            x@,
            |a: ConnectionInsightView, b: ConnectionInsightView| connection_less(a, b),
        ),
{
    let ghost less = |a: ConnectionInsightView, b: ConnectionInsightView| connection_less(a, b);
    let ghost s = connections_view(out@);
    let mut p: usize = 0;
    while p < out.len() && !connection_less_exec(&x, &out[p])
        invariant
            p <= out.len(),
            less == (|a: ConnectionInsightView, b: ConnectionInsightView| connection_less(a, b)),
            s == connections_view(out@),
            s.len() == out@.len(),
            insert_pos(s, x@, less, 0) == insert_pos(s, x@, less, p as int),
        decreases out.len() - p,
    {
        proof {
            assert(s[p as int] == out@[p as int]@);
            assert(!less(x@, s[p as int]));
        }
        p = p + 1;
    }
    proof {
        assert(insert_pos(s, x@, less, p as int) == p as int);
    }
    let ghost xv = x@;
    out.insert(p, x);
    proof {
        assert(connections_view(out@) =~= s.insert(p as int, xv));
    }
}

/// Parses the text of `netstat -ano -n`.
pub fn parse_netstat_output(
    output: &str,
    process_names: &HashMap<u32, String>,
    process_paths: &HashMap<u32, String>,
) -> (r: Vec<ConnectionInsight>)
    ensures
        connections_view(r@) == parse_netstat_spec(output@, process_names@, process_paths@),
{
    let ghost less = |a: ConnectionInsightView, b: ConnectionInsightView| connection_less(a, b);
    let lines = split_char_str(output, '\n');
    let ghost ls = split_char(output@, '\n');
    let mut rows: Vec<ConnectionInsight> = Vec::new();
    let mut i: usize = 0;
    while i < lines.len()
        invariant
            i <= lines.len(),
            lines@.len() == ls.len(),
            ls == split_char(output@, '\n'),
            forall|k: int| 0 <= k < lines@.len() ==> (#[trigger] lines@[k])@ == ls[k],
            connections_view(rows@) == netstat_rows(
                ls.subrange(0, i as int),
                process_names@,
                process_paths@,
            ),
        decreases lines.len() - i,
    {
        let row = parse_netstat_line(lines[i].as_str(), process_names, process_paths);
        proof {
            let pre = ls.subrange(0, i + 1);
            assert(pre.drop_last() =~= ls.subrange(0, i as int));
            assert(pre.last() == ls[i as int]);
        }
        match row {
            Some(c) => {
                let ghost before = connections_view(rows@);
                rows.push(c);
                assert(connections_view(rows@) =~= before + seq![c@]);
            },
            None => {
                assert(connections_view(rows@) =~= connections_view(rows@) + Seq::<
                    ConnectionInsightView,
                >::empty());
            },
        }
        i = i + 1;
    }
    assert(ls.subrange(0, lines@.len() as int) =~= ls);
    let ghost unsorted = connections_view(rows@);
    let mut out: Vec<ConnectionInsight> = Vec::new();
    let mut k: usize = 0;
    let total = rows.len();
    let ghost n = rows@.len();
    while rows.len() > 0
        invariant
            k + rows@.len() == n,
            n <= usize::MAX,
            less == (|a: ConnectionInsightView, b: ConnectionInsightView| connection_less(a, b)),
            n == unsorted.len(),
            connections_view(rows@) == unsorted.subrange(k as int, n as int),
            connections_view(out@) == stable_sort(unsorted.subrange(0, k as int), less),
        decreases rows.len(),
    {
        let ghost before = rows@;
        let x = rows.remove(0);
        proof {
            assert(connections_view(before)[0] == unsorted[k as int]);
            assert(x@ == unsorted[k as int]);
            lemma_stable_sort_step(unsorted, k as int, less);
            assert(rows@ == before.remove(0));
            assert forall|j: int| 0 <= j < rows@.len() implies #[trigger] connections_view(rows@)[j]
                == unsorted.subrange(k + 1, n as int)[j] by {
                assert(rows@[j] == before[j + 1]);
                assert(connections_view(before)[j + 1] == unsorted.subrange(k as int, n as int)[j + 1]);
            }
            assert(connections_view(rows@) =~= unsorted.subrange(k + 1, n as int));
        }
        insert_connection(&mut out, x);
        k = k + 1;
    }
    assert(unsorted.subrange(0, n as int) =~= unsorted);
    out
}

} // verus!
