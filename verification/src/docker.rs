//! Docker disk usage: reading the outcome of the `docker` commands.
//!
//! Only what is safe to regenerate is ever purged (dangling images and the
//! build cache); volumes hold persistent data and are only listed.

use crate::text::{
    chars_of, contains, contains_vec, lower, lower_vec, owned, split_char, split_char_str, string_from_range,
    trim, trim_str,
};
use vstd::prelude::*;

verus! {

/// A local volume (listed for the user to inspect, never removed automatically).
#[derive(Debug, Clone)]
pub struct DockerVolume {
    pub name: String,
    pub driver: String,
}

/// How a `docker` command ended.
#[derive(Debug, Clone)]
pub enum DockerRun {
    /// The `docker` program is not on the PATH.
    Missing,
    /// It ran and failed (daemon down, permissions...), with its message.
    Failed(String),
    /// It ran and succeeded, with its standard output.
    Succeeded(String),
}

/// The last line (trimmed) that mentions reclaimed space, ignoring ASCII case.
pub open spec fn last_reclaimed(lines: Seq<Seq<char>>) -> Option<Seq<char>>
    decreases lines.len(),
{
    if lines.len() == 0 {
        None
    } else if contains(lower(trim(lines.last())), "reclaimed"@) {
        Some(trim(lines.last()))
    } else {
        last_reclaimed(lines.drop_last())
    }
}

/// The summary of a prune: its "Total reclaimed space" line, else its last
/// line, else a note that nothing was freed.
pub open spec fn summarize_prune_spec(raw: Seq<char>) -> Seq<char> {
    match last_reclaimed(split_char(raw, '\n')) {
        Some(l) => l,
        None => {
            let t = trim(raw);
            if t.len() == 0 {
                "Purga completada. Nada que liberar."@
            } else {
                split_char(t, '\n').last()
            }
        },
    }
}

/// Summarises the output of a `docker ... prune`.
pub fn summarize_prune(raw: &str) -> (r: String)
    ensures
        r@ == summarize_prune_spec(raw@),
{
    let lines = split_char_str(raw, '\n');
    let ghost ls = split_char(raw@, '\n');
    let mut k: usize = lines.len();
    assert(ls.subrange(0, ls.len() as int) =~= ls);
    while k > 0
        invariant
            k <= lines@.len(),
            lines@.len() == ls.len(),
            ls == split_char(raw@, '\n'),
            forall|m: int| 0 <= m < lines@.len() ==> (#[trigger] lines@[m])@ == ls[m],
            last_reclaimed(ls) == last_reclaimed(ls.subrange(0, k as int)),
        decreases k,
    {
        let t = trim_str(lines[k - 1].as_str());
        let low = lower_vec(&chars_of(t.as_str()));
        proof {
            let pre = ls.subrange(0, k as int);
            assert(pre.drop_last() =~= ls.subrange(0, k - 1));
            assert(pre.last() == ls[k - 1]);
        }
        if contains_vec(&low, &chars_of("reclaimed")) {
            return t;
        }
        k = k - 1;
    }
    assert(last_reclaimed(ls.subrange(0, 0)) is None);
    let trimmed = trim_str(raw);
    if trimmed.as_str().unicode_len() == 0 {
        return owned("Purga completada. Nada que liberar.");
    }
    let parts = split_char_str(trimmed.as_str(), '\n');
    assert(split_char(trimmed@, '\n').len() >= 1);
    let last = parts.len() - 1;
    parts[last].clone()
}

/// What a prune command reports to the user: the summary of its output, or
/// why it could not run.
pub open spec fn prune_result_spec(run: DockerRun) -> Result<Seq<char>, Seq<char>> {
    match run {
        DockerRun::Succeeded(out) => Ok(summarize_prune_spec(out@)),
        DockerRun::Missing => Err("Docker no está instalado."@),
        DockerRun::Failed(e) => Err(e@),
    }
}

/// Turns the outcome of a prune command (`docker image prune -f` or
/// `docker builder prune -f`) into the message for the user.
pub fn prune_result(run: DockerRun) -> (r: Result<String, String>)
    ensures
        match r {
            Ok(s) => prune_result_spec(run) == Ok::<Seq<char>, Seq<char>>(s@),
            Err(e) => prune_result_spec(run) == Err::<Seq<char>, Seq<char>>(e@),
        },
{
    match run {
        DockerRun::Succeeded(out) => Ok(summarize_prune(out.as_str())),
        DockerRun::Missing => Err(owned("Docker no está instalado.")),
        DockerRun::Failed(e) => Err(e),
    }
}

/// Why the scan found Docker unavailable, for the outcome of `docker system df`;
/// `None` when it succeeded.
pub open spec fn unavailable_message_spec(run: DockerRun) -> Option<Seq<char>> {
    match run {
        DockerRun::Missing => Some(
            "Docker no está instalado o no está en el PATH. Instálalo para gestionar su espacio."@,
        ),
        DockerRun::Failed(e) => Some("Docker no responde ("@ + e@ + "). ¿Está Docker Desktop en ejecución?"@),
        DockerRun::Succeeded(_) => None,
    }
}

/// Why the scan found Docker unavailable, if it did.
pub fn unavailable_message(run: &DockerRun) -> (r: Option<String>)
    ensures
        match r {
            Some(m) => unavailable_message_spec(*run) == Some(m@),
            None => unavailable_message_spec(*run) is None,
        },
{
    match run {
        DockerRun::Missing => Some(
            owned("Docker no está instalado o no está en el PATH. Instálalo para gestionar su espacio."),
        ),
        DockerRun::Failed(e) => Some(
            crate::text::concat3("Docker no responde (", e.as_str(), "). ¿Está Docker Desktop en ejecución?"),
        ),
        DockerRun::Succeeded(_) => None,
    }
}

/// The message of a failed `docker` command: its standard error, trimmed,
/// or a generic one when it wrote nothing there.
pub open spec fn failure_message_spec(stderr: Seq<char>) -> Seq<char> {
    if trim(stderr).len() == 0 {
        "docker devolvió un código de error"@
    } else {
        trim(stderr)
    }
}

/// The message of a failed `docker` command, from its standard error.
pub fn failure_message(stderr: &str) -> (r: String)
    ensures
        r@ == failure_message_spec(stderr@),
{
    let t = trim_str(stderr);
    if chars_of(t.as_str()).len() == 0 {
        owned("docker devolvió un código de error")
    } else {
        t
    }
}

} // verus!
