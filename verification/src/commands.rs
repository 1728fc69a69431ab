//! The commands handed to the Windows tools, checked before they are built,
//! and the reading of what the tools answer.

use crate::models::{opt_view, strings_view};
use std::collections::HashMap;
use crate::text::{
    chars_of, concat_all, contains, contains_vec, find, find_char_from, find_char_vec, find_from_vec, int_text,
    int_text_exec, join_all, join_with, lower, lower_vec, owned, split_ws, split_ws_str, starts_with,
    string_from_range, trim, trim_bounds, trim_str,
};
use vstd::prelude::*;

verus! {

// ---------------------------------------------------------------------------
// Firewall rule
// ---------------------------------------------------------------------------

/// A character allowed in an address handed to the firewall.
pub open spec fn address_char(c: char) -> bool {
    ('0' <= c <= '9') || ('a' <= c <= 'f') || ('A' <= c <= 'F') || c == '.' || c == ':'
}

/// An IPv4 or IPv6 address safe to place in a PowerShell script: 1 to 45
/// characters, only hexadecimal digits, dots and colons.
pub open spec fn is_valid_firewall_ip_spec(ip: Seq<char>) -> bool {
    0 < ip.len() <= 45 && forall|i: int| 0 <= i < ip.len() ==> address_char(#[trigger] ip[i])
}

/// Whether an address is safe to place in the firewall script.
pub fn is_valid_firewall_ip(ip: &str) -> (r: bool)
    ensures
        r == is_valid_firewall_ip_spec(ip@),
{
    let v = chars_of(ip);
    if v.len() == 0 || v.len() > 45 {
        return false;
    }
    let mut i: usize = 0;
    while i < v.len()
        invariant
            i <= v@.len(),
            v@ == ip@,
            forall|k: int| 0 <= k < i ==> address_char(#[trigger] v@[k]),
        decreases v.len() - i,
    {
        let c = v[i];
        if !(('0' <= c && c <= '9') || ('a' <= c && c <= 'f') || ('A' <= c && c <= 'F') || c == '.' || c == ':') {
            assert(!address_char(v@[i as int]));
            return false;
        }
        i = i + 1;
    }
    true
}

/// The script that blocks outbound traffic to an address, or the message
/// refusing the address.
pub open spec fn firewall_block_script_spec(ip: Seq<char>) -> Result<Seq<char>, Seq<char>> {
    let safe = trim(ip);
    if !is_valid_firewall_ip_spec(safe) {
        Err(
            "Dirección IP no válida: '"@ + safe
                + "'. Solo se aceptan IPv4 (ej. 1.2.3.4) o IPv6 (ej. 2001:db8::1)."@,
        )
    } else {
        Ok(
            "New-NetFirewallRule -DisplayName 'RootCause block "@ + safe + "' -Direction Outbound -RemoteAddress "@
                + safe + " -Action Block | Out-Null; Write-Output 'Regla creada para bloquear "@ + safe + "'"@,
        )
    }
}

/// Builds the script of an outbound block rule for an address, refusing any
/// address that could inject commands.
pub fn firewall_block_script(ip: &str) -> (r: Result<String, String>)
    ensures
        match r {
            Ok(s) => firewall_block_script_spec(ip@) == Ok::<Seq<char>, Seq<char>>(s@),
            Err(e) => firewall_block_script_spec(ip@) == Err::<Seq<char>, Seq<char>>(e@),
        },
{
    let safe = trim_str(ip);
    if !is_valid_firewall_ip(safe.as_str()) {
        let e = join_all(
            &["Dirección IP no válida: '", safe.as_str(), "'. Solo se aceptan IPv4 (ej. 1.2.3.4) o IPv6 (ej. 2001:db8::1)."],
        );
        proof {
            reveal_with_fuel(concat_all, 4);
        }
        return Err(e);
    }
    let s = join_all(
        &[
            "New-NetFirewallRule -DisplayName 'RootCause block ",
            safe.as_str(),
            "' -Direction Outbound -RemoteAddress ",
            safe.as_str(),
            " -Action Block | Out-Null; Write-Output 'Regla creada para bloquear ",
            safe.as_str(),
            "'",
        ],
    );
    proof {
        reveal_with_fuel(concat_all, 8);
    }
    Ok(s)
}

// ---------------------------------------------------------------------------
// Stopping a service
// ---------------------------------------------------------------------------

/// A character allowed in a service name: ASCII letters and digits, `-`, `_`.
pub open spec fn service_name_char(c: char) -> bool {
    ('0' <= c <= '9') || ('a' <= c <= 'z') || ('A' <= c <= 'Z') || c == '-' || c == '_'
}

/// The script that stops a service, or the message refusing the name.
pub open spec fn stop_service_script_spec(name: Seq<char>) -> Result<Seq<char>, Seq<char>> {
    let safe = trim(name);
    if safe.len() == 0 || !(forall|i: int| 0 <= i < safe.len() ==> service_name_char(#[trigger] safe[i])) {
        Err("Nombre de servicio no válido: '"@ + safe + "'."@)
    } else {
        Ok(
            "Stop-Service -Name '"@ + safe + "' -Force -ErrorAction Stop; Write-Output 'Servicio "@ + safe
                + " detenido temporalmente'"@,
        )
    }
}

/// Builds the script that stops a service, refusing names with any character
/// other than ASCII letters, digits, `-` and `_`.
pub fn stop_service_script(service_name: &str) -> (r: Result<String, String>)
    ensures
        match r {
            Ok(s) => stop_service_script_spec(service_name@) == Ok::<Seq<char>, Seq<char>>(s@),
            Err(e) => stop_service_script_spec(service_name@) == Err::<Seq<char>, Seq<char>>(e@),
        },
{
    let safe = trim_str(service_name);
    let v = chars_of(safe.as_str());
    let mut ok = v.len() > 0;
    let mut i: usize = 0;
    while i < v.len() && ok
        invariant
            i <= v@.len(),
            v@ == safe@,
            ok == (v@.len() > 0 && forall|k: int| 0 <= k < i ==> service_name_char(#[trigger] v@[k])),
        decreases v.len() - i + (if ok { 1int } else { 0int }),
    {
        let c = v[i];
        if !(('0' <= c && c <= '9') || ('a' <= c && c <= 'z') || ('A' <= c && c <= 'Z') || c == '-' || c == '_') {
            ok = false;
        }
        i = i + 1;
    }
    if !ok {
        let e = join_all(&["Nombre de servicio no válido: '", safe.as_str(), "'."]);
        proof {
            reveal_with_fuel(concat_all, 4);
        }
        return Err(e);
    }
    let s = join_all(
        &["Stop-Service -Name '", safe.as_str(), "' -Force -ErrorAction Stop; Write-Output 'Servicio ", safe.as_str(), " detenido temporalmente'"],
    );
    proof {
        reveal_with_fuel(concat_all, 6);
    }
    Ok(s)
}

// ---------------------------------------------------------------------------
// Tool output
// ---------------------------------------------------------------------------

/// The status text of WPR says a capture is running: none of the phrases of
/// an idle recorder occurs in it (ignoring ASCII case).
pub open spec fn recording_from_status_spec(status: Seq<char>) -> bool {
    let l = lower(status);
    !(contains(l, "there are no trace profiles running"@) || contains(
        l,
        "no hay perfiles de seguimiento en ejecución"@,
    ) || contains(l, "there are no trace profiles"@) || contains(l, "no trace profiles running"@) || contains(
        l,
        "error code: 0xc5583000"@,
    ))
}

/// Whether the status text of WPR says a capture is running.
pub fn recording_from_status(status: &str) -> (r: bool)
    ensures
        r == recording_from_status_spec(status@),
{
    let l = lower_vec(&chars_of(status));
    !(contains_vec(&l, &chars_of("there are no trace profiles running")) || contains_vec(
        &l,
        &chars_of("no hay perfiles de seguimiento en ejecución"),
    ) || contains_vec(&l, &chars_of("there are no trace profiles")) || contains_vec(
        &l,
        &chars_of("no trace profiles running"),
    ) || contains_vec(&l, &chars_of("error code: 0xc5583000")))
}

/// The output and error text of a tool together, trimmed.
pub fn merge_output(stdout: &str, stderr: &str) -> (r: String)
    ensures
        r@ == trim(stdout@ + stderr@),
{
    let both = crate::text::concat2(stdout, stderr);
    trim_str(both.as_str())
}

/// The script that asks the command lines of some processes in one call.
pub open spec fn cmdline_query_script_spec(pids: Seq<u32>) -> Seq<char> {
    "Get-CimInstance Win32_Process -Filter 'ProcessId IN ("@ + join_with(
        pids.map_values(|p: u32| int_text(p as int)),
        ","@,
    ) + ")' | Select-Object ProcessId,CommandLine | ConvertTo-Json -Compress"@
}

/// Builds the script that asks the command lines of these processes; there
/// is nothing to ask when no process is given.
pub fn cmdline_query_script(pids: &[u32]) -> (r: Option<String>)
    ensures
        r is None <==> pids@.len() == 0,
        r matches Some(s) ==> s@ == cmdline_query_script_spec(pids@),
{
    if pids.len() == 0 {
        return None;
    }
    let mut texts: Vec<String> = Vec::new();
    let mut i: usize = 0;
    while i < pids.len()
        invariant
            i <= pids@.len(),
            texts@.len() == i,
            forall|m: int| 0 <= m < i ==> (#[trigger] texts@[m])@ == int_text(pids@[m] as int),
        decreases pids.len() - i,
    {
        texts.push(int_text_exec(pids[i] as i128));
        i = i + 1;
    }
    assert(texts@.map_values(|p: String| p@) =~= pids@.map_values(|p: u32| int_text(p as int)));
    let list = crate::text::join_strings(&texts, ",");
    let r = join_all(
        &["Get-CimInstance Win32_Process -Filter 'ProcessId IN (", list.as_str(), ")' | Select-Object ProcessId,CommandLine | ConvertTo-Json -Compress"],
    );
    proof {
        reveal_with_fuel(concat_all, 4);
    }
    Some(r)
}

/// One object of the JSON reply to the command-line query: its `ProcessId`
/// when that is an unsigned integer, and its `CommandLine` when that is a
/// string.
#[derive(Debug, Clone)]
pub struct CmdlineRow {
    pub process_id: Option<u64>,
    pub command_line: Option<String>,
}

pub struct CmdlineRowView {
    pub process_id: Option<u64>,
    pub command_line: Option<Seq<char>>,
}

impl View for CmdlineRow {
    type V = CmdlineRowView;

    open spec fn view(&self) -> CmdlineRowView {
        CmdlineRowView { process_id: self.process_id, command_line: opt_view(self.command_line) }
    }
}

/// The views of some reply objects.
pub open spec fn rows_view(v: Seq<CmdlineRow>) -> Seq<CmdlineRowView> {
    v.map_values(|r: CmdlineRow| r@)
}

/// The objects of a JSON text, as `serde_json::from_str::<Value>` reads it
/// (an array gives its items, any other value is one object), each with its
/// `ProcessId` (`Value::as_u64`) and `CommandLine` (`Value::as_str`); `None`
/// when the text is not JSON.
pub uninterp spec fn json_cmdline_rows(raw: Seq<char>) -> Option<Seq<CmdlineRowView>>;

/// Reads the JSON reply with `serde_json::from_str::<Value>`; an array gives
/// its items, any other value is taken as the only object, and each object
/// gives `get("ProcessId")` through `Value::as_u64` and `get("CommandLine")`
/// through `Value::as_str`. The contract claims only that the result is what
/// the crate computes from the text (see [`json_cmdline_rows`]).
#[verifier::external_body]
fn read_cmdline_rows(raw: &str) -> (r: Option<Vec<CmdlineRow>>)
    ensures
        match r {
            Some(v) => json_cmdline_rows(raw@) == Some(rows_view(v@)),
            None => json_cmdline_rows(raw@) is None,
        },
{
    let value = serde_json::from_str::<serde_json::Value>(raw).ok()?;
    let items = match value {
        serde_json::Value::Array(items) => items,
        single => vec![single],
    };
    Some(items.iter().map(|e| CmdlineRow {
        process_id: e.get("ProcessId").and_then(serde_json::Value::as_u64),
        command_line: e.get("CommandLine").and_then(serde_json::Value::as_str).map(str::to_owned),
    }).collect())
}

/// A reply object names a process and a non-empty command line.
pub open spec fn row_usable(r: CmdlineRowView) -> bool {
    &&& r.process_id is Some
    &&& r.command_line is Some
    &&& r.command_line.unwrap().len() > 0
}

/// Command line by process: the usable objects in order, a later object
/// replacing an earlier one of the same process (its id cut to 32 bits).
pub open spec fn cmdline_map_spec(rows: Seq<CmdlineRowView>) -> Map<u32, Seq<char>>
    decreases rows.len(),
{
    if rows.len() == 0 {
        Map::empty()
    } else {
        let m = cmdline_map_spec(rows.drop_last());
        let r = rows.last();
        if row_usable(r) {
            m.insert(r.process_id.unwrap() as u32, r.command_line.unwrap())
        } else {
            m
        }
    }
}

/// The texts of a map of strings.
pub open spec fn texts_view(m: Map<u32, String>) -> Map<u32, Seq<char>> {
    m.map_values(|s: String| s@)
}

/// Gathers the command line of each process from the reply objects.
pub fn cmdline_map(rows: &[CmdlineRow]) -> (r: HashMap<u32, String>)
    ensures
        texts_view(r@) == cmdline_map_spec(rows_view(rows@)),
{
    broadcast use vstd::std_specs::hash::group_hash_axioms;
    let ghost rv = rows_view(rows@);
    let mut map: HashMap<u32, String> = HashMap::new();
    let mut i: usize = 0;
    while i < rows.len()
        invariant
            i <= rows@.len(),
            rv == rows_view(rows@),
            rv.len() == rows@.len(),
            texts_view(map@) == cmdline_map_spec(rv.subrange(0, i as int)),
        decreases rows.len() - i,
    {
        let row = &rows[i];
        proof {
            assert(rv.subrange(0, i + 1).drop_last() =~= rv.subrange(0, i as int));
            assert(rv.subrange(0, i + 1).last() == rv[i as int]);
        }
        match (&row.process_id, &row.command_line) {
            (Some(pid), Some(line)) => {
                if chars_of(line.as_str()).len() > 0 {
                    let key: u32 = *pid as u32;
                    let ghost before = map@;
                    map.insert(key, owned(line.as_str()));
                    proof {
                        assert(line@.len() > 0);
                        assert(texts_view(map@) =~= texts_view(before).insert(key, line@));
                    }
                } else {
                    assert(line@.len() == 0);
                }
            },
            _ => {},
        }
        i = i + 1;
    }
    assert(rv.subrange(0, rows@.len() as int) =~= rv);
    map
}

/// Command line by process read from the JSON reply to the query; empty when
/// the reply is not JSON.
pub open spec fn parse_cmdline_json_spec(raw: Seq<char>) -> Map<u32, Seq<char>> {
    match json_cmdline_rows(raw) {
        Some(rows) => cmdline_map_spec(rows),
        None => Map::empty(),
    }
}

/// Reads the command line of each process from the JSON reply to the query.
pub fn parse_cmdline_json(raw: &str) -> (r: HashMap<u32, String>)
    ensures
        texts_view(r@) == parse_cmdline_json_spec(raw@),
{
    match read_cmdline_rows(raw) {
        Some(rows) => cmdline_map(rows.as_slice()),
        None => {
            let m: HashMap<u32, String> = HashMap::new();
            assert(texts_view(m@) =~= Map::<u32, Seq<char>>::empty());
            m
        },
    }
}

// ---------------------------------------------------------------------------
// Target of an autostart command
// ---------------------------------------------------------------------------

/// Extensions that end the program part of an unquoted command.
pub open spec fn program_extensions() -> Seq<Seq<char>> {
    seq![".exe"@, ".cmd"@, ".bat"@, ".ps1"@, ".vbs"@, ".js"@, ".hta"@, ".lnk"@]
}

/// `s` without leading and trailing `c` (`str::trim_matches` with a char).
pub open spec fn trim_char(s: Seq<char>, c: char) -> Seq<char>
    decreases s.len(),
{
    if s.len() > 0 && s[0] == c {
        trim_char(s.drop_first(), c)
    } else if s.len() > 0 && s.last() == c {
        trim_char(s.drop_last(), c)
    } else {
        s
    }
}

/// The command up to the first extension of `exts` (from index `k`) found in
/// its lower-cased form, trimmed.
pub open spec fn cut_at_extension(t: Seq<char>, exts: Seq<Seq<char>>, k: int) -> Option<Seq<char>>
    decreases exts.len() - k,
{
    if k < 0 || k >= exts.len() {
        None
    } else {
        match find(lower(t), exts[k]) {
            Some(i) => Some(trim(t.subrange(0, i + exts[k].len()))),
            None => cut_at_extension(t, exts, k + 1),
        }
    }
}

/// The program an autostart command runs: the quoted part when the command
/// starts with a quote, else the command up to the first known extension,
/// else its first word without quotes.
pub open spec fn extract_target_path_spec(command: Seq<char>) -> Option<Seq<char>> {
    let t = trim(command);
    if t.len() == 0 {
        None
    } else {
        let candidate = if t[0] == '"' {
            trim(crate::text::before_char(t.drop_first(), '"'))
        } else if t[0] == '\'' {
            trim(crate::text::before_char(t.drop_first(), '\''))
        } else {
            match cut_at_extension(t, program_extensions(), 0) {
                Some(c) => c,
                None => {
                    let words = split_ws(t);
                    let first = if words.len() > 0 {
                        words[0]
                    } else {
                        Seq::empty()
                    };
                    trim_char(trim_char(first, '"'), '\'')
                },
            }
        };
        if candidate.len() == 0 {
            None
        } else {
            Some(candidate)
        }
    }
}

fn trim_char_vec(v: &Vec<char>, c: char) -> (r: Vec<char>)
    ensures
        r@ == trim_char(v@, c),
{
    let mut a: usize = 0;
    let mut b: usize = v.len();
    assert(v@.subrange(0, v@.len() as int) =~= v@);
    while a < b && (v[a] == c || v[b - 1] == c)
        invariant
            a <= b <= v@.len(),
            trim_char(v@.subrange(a as int, b as int), c) == trim_char(v@, c),
        decreases b - a,
    {
        let ghost s = v@.subrange(a as int, b as int);
        if v[a] == c {
            assert(s.drop_first() =~= v@.subrange(a + 1, b as int));
            a = a + 1;
        } else {
            assert(s.drop_last() =~= v@.subrange(a as int, b - 1));
            b = b - 1;
        }
    }
    chars_of(string_from_range(v, a, b).as_str())
}

fn trim_vec(v: &Vec<char>) -> (r: Vec<char>)
    ensures
        r@ == trim(v@),
{
    let (a, b) = trim_bounds(v);
    chars_of(string_from_range(v, a, b).as_str())
}

fn cut_at_extensions(t: &Vec<char>) -> (r: Option<Vec<char>>)
    ensures
        match r {
            Some(v) => cut_at_extension(t@, program_extensions(), 0) == Some(v@),
            None => cut_at_extension(t@, program_extensions(), 0) is None,
        },
{
    let exts = [".exe", ".cmd", ".bat", ".ps1", ".vbs", ".js", ".hta", ".lnk"];
    assert(exts@.map_values(|s: &str| s@) =~= program_extensions());
    let low = lower_vec(t);
    let mut k: usize = 0;
    while k < exts.len()
        invariant
            k <= exts@.len(),
            exts@.len() == 8,
            exts@.map_values(|s: &str| s@) == program_extensions(),
            low@ == lower(t@),
            cut_at_extension(t@, program_extensions(), 0) == cut_at_extension(t@, program_extensions(), k as int),
        decreases exts.len() - k,
    {
        let ev = chars_of(exts[k]);
        assert(program_extensions()[k as int] == exts@[k as int]@);
        match find_from_vec(&low, &ev, 0) {
            Some(i) => {
                proof {
                    crate::text::lemma_find_from(low@, ev@, 0);
                    assert(crate::text::occurs_at(low@, ev@, i as int));
                    crate::text::lemma_lower_len(t@);
                }
                let n = low.len();
                let piece = string_from_range(t, 0, i + ev.len());
                return Some(trim_vec(&chars_of(piece.as_str())));
            },
            None => {},
        }
        k = k + 1;
    }
    None
}

/// The program an autostart command runs, if it can be told.
pub fn extract_target_path(command: &str) -> (r: Option<String>)
    ensures
        match r {
            Some(s) => extract_target_path_spec(command@) == Some(s@),
            None => extract_target_path_spec(command@) is None,
        },
{
    let t = trim_vec(&chars_of(command));
    if t.len() == 0 {
        return None;
    }
    let ghost tv = t@;
    let ghost want = if tv[0] == '"' {
        trim(crate::text::before_char(tv.drop_first(), '"'))
    } else if tv[0] == '\'' {
        trim(crate::text::before_char(tv.drop_first(), '\''))
    } else {
        match cut_at_extension(tv, program_extensions(), 0) {
            Some(c) => c,
            None => {
                let words = split_ws(tv);
                let first = if words.len() > 0 {
                    words[0]
                } else {
                    Seq::empty()
                };
                trim_char(trim_char(first, '"'), '\'')
            },
        }
    };
    let candidate: Vec<char> = if t[0] == '"' || t[0] == '\'' {
        let q = t[0];
        let rest = chars_of(string_from_range(&t, 1, t.len()).as_str());
        assert(rest@ =~= t@.drop_first());
        let end = match find_char_vec(&rest, q, 0) {
            Some(e) => e,
            None => rest.len(),
        };
        proof {
            crate::text::lemma_find_char_from(rest@, q, 0);
            assert(rest@.subrange(0, end as int) == crate::text::before_char(rest@, q));
        }
        trim_vec(&chars_of(string_from_range(&rest, 0, end).as_str()))
    } else {
        match cut_at_extensions(&t) {
            Some(c) => c,
            None => {
                let whole = string_from_range(&t, 0, t.len());
                assert(whole@ =~= t@);
                let words = split_ws_str(whole.as_str());
                let first: Vec<char> = if words.len() > 0 {
                    chars_of(words[0].as_str())
                } else {
                    Vec::new()
                };
                assert(first@ == (if split_ws(tv).len() > 0 {
                    split_ws(tv)[0]
                } else {
                    Seq::<char>::empty()
                }));
                trim_char_vec(&trim_char_vec(&first, '"'), '\'')
            },
        }
    };
    assert(candidate@ == want);
    if candidate.len() == 0 {
        None
    } else {
        Some(string_from_range(&candidate, 0, candidate.len()))
    }
}


// ---------------------------------------------------------------------------
// Laws
// ---------------------------------------------------------------------------

/// An address the firewall script accepts carries neither quotes, spaces nor
/// command separators: only hexadecimal digits, dots and colons reach the
/// script.
pub proof fn lemma_firewall_address_is_inert(ip: Seq<char>)
    ensures
        firewall_block_script_spec(ip) is Ok ==> forall|i: int|
            0 <= i < trim(ip).len() ==> {
                let c = #[trigger] trim(ip)[i];
                c != '\'' && c != '"' && c != ';' && c != ' ' && c != '|' && c != '&' && c != '$' && c != '`'
            },
{
}

/// A service name the stop script accepts carries neither quotes, spaces nor
/// command separators: only ASCII letters, digits, `-` and `_` reach the
/// script.
pub proof fn lemma_service_name_is_inert(name: Seq<char>)
    ensures
        stop_service_script_spec(name) is Ok ==> forall|i: int|
            0 <= i < trim(name).len() ==> {
                let c = #[trigger] trim(name)[i];
                c != '\'' && c != '"' && c != ';' && c != ' ' && c != '|' && c != '&' && c != '$' && c != '`'
            },
{
}

} // verus!
