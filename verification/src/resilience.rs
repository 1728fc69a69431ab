//! Local resilience state of the agent: heartbeat, detection of an abrupt
//! previous stop, restart back-off and integrity of the configuration file.
//!
//! The decisions live here; reading the clock, reading the configuration
//! file to fingerprint it and writing the state file are left to the caller,
//! which hands the results in and persists the state when told to.

use crate::models::{
    opt_view, strings_view, AgentHealth, AgentHealthView, AgentStatus, AuditRecord, AuditRecordView,
    Timestamp,
};
use crate::text::{concat2, concat_all, int_text, int_text_exec, join_all, owned, str_eq};
use crate::tracker::{elapsed_nanos, keep, lemma_keep_idempotent, window_secs};
use vstd::prelude::*;

verus! {

// ---------------------------------------------------------------------------
// Configuration
// ---------------------------------------------------------------------------

/// Settings of the resilience monitor.
#[derive(Debug, Clone, Copy, PartialEq, Eq, Structural)]
pub struct ResilienceConfig {
    pub enabled: bool,
    pub heartbeat_interval_secs: u64,
    pub stale_after_secs: u64,
    pub restart_window_secs: u64,
    pub max_restarts_in_window: u8,
    pub watch_config_integrity: bool,
}

impl Default for ResilienceConfig {
    /// Monitoring on, a heartbeat persisted every 30 s, stale after 180 s, at
    /// most 3 abrupt stops within 900 s, configuration integrity watched.
    fn default() -> (r: ResilienceConfig)
        ensures
            r == (ResilienceConfig {
                enabled: true,
                heartbeat_interval_secs: 30,
                stale_after_secs: 180,
                restart_window_secs: 900,
                max_restarts_in_window: 3,
                watch_config_integrity: true,
            }),
    {
        ResilienceConfig {
            enabled: true,
            heartbeat_interval_secs: 30,
            stale_after_secs: 180,
            restart_window_secs: 900,
            max_restarts_in_window: 3,
            watch_config_integrity: true,
        }
    }
}

// ---------------------------------------------------------------------------
// Fingerprint
// ---------------------------------------------------------------------------

/// One step of 64-bit FNV-1a: xor the byte in, multiply by the FNV prime.
pub open spec fn fnv_step(h: u64, b: u8) -> u64 {
    (((h ^ (b as u64)) as nat * 0x100000001b3nat) % 0x1_0000_0000_0000_0000nat) as u64
}

/// 64-bit FNV-1a of a byte sequence.
pub open spec fn fnv1a(bytes: Seq<u8>) -> u64
    decreases bytes.len(),
{
    if bytes.len() == 0 {
        0xcbf29ce484222325
    } else {
        fnv_step(fnv1a(bytes.drop_last()), bytes.last())
    }
}

/// Lower-case hexadecimal digit of a value below 16.
pub open spec fn hex_char(d: int) -> char {
    if d < 10 {
        ('0' as int + d) as char
    } else {
        ('a' as int + d - 10) as char
    }
}

/// The last `count` hexadecimal digits of `n`, most significant first.
pub open spec fn hex_digits(n: nat, count: nat) -> Seq<char>
    decreases count,
{
    if count == 0 {
        Seq::empty()
    } else {
        hex_digits(n / 16, (count - 1) as nat).push(hex_char((n % 16) as int))
    }
}

/// FNV-1a of the UTF-8 bytes of a text, as 16 lower-case hexadecimal digits.
pub open spec fn fingerprint_spec(value: Seq<char>) -> Seq<char> {
    hex_digits(fnv1a(vstd::utf8::encode_utf8(value)) as nat, 16)
}

fn hex_char_exec(d: u64) -> (c: char)
    requires
        d < 16,
    ensures
        c == hex_char(d as int),
{
    let digits = ['0', '1', '2', '3', '4', '5', '6', '7', '8', '9', 'a', 'b', 'c', 'd', 'e', 'f'];
    let c = digits[d as usize];
    assert(c == hex_char(d as int)) by {
        assert(digits@[d as int] == c);
    }
    c
}

fn hex_digits_exec(n: u64, count: u8) -> (r: Vec<char>)
    ensures
        r@ == hex_digits(n as nat, count as nat),
    decreases count,
{
    if count == 0 {
        Vec::new()
    } else {
        let mut v = hex_digits_exec(n / 16, count - 1);
        v.push(hex_char_exec(n % 16));
        v
    }
}

/// A short fingerprint of a text: 64-bit FNV-1a of its UTF-8 bytes in
/// 16 lower-case hexadecimal digits.
pub fn fingerprint(value: &str) -> (r: String)
    ensures
        r@ == fingerprint_spec(value@),
{
    let bytes = value.as_bytes();
    let ghost bs = bytes@;
    let mut hash: u64 = 0xcbf29ce484222325;
    let mut i: usize = 0;
    while i < bytes.len()
        invariant
            i <= bytes@.len(),
            bs == bytes@,
            hash == fnv1a(bs.subrange(0, i as int)),
        decreases bytes.len() - i,
    {
        proof {
            let pre = bs.subrange(0, i + 1);
            assert(pre.drop_last() =~= bs.subrange(0, i as int));
            assert(pre.last() == bs[i as int]);
        }
        hash = hash ^ (bytes[i] as u64);
        hash = hash.wrapping_mul(0x100000001b3);
        i = i + 1;
    }
    assert(bs.subrange(0, bs.len() as int) =~= bs);
    let digits = hex_digits_exec(hash, 16);
    crate::text::string_from_chars(digits.as_slice())
}

// ---------------------------------------------------------------------------
// Time stamps in text form
// ---------------------------------------------------------------------------

/// The instant an RFC 3339 text denotes, as `chrono::DateTime::parse_from_rfc3339`
/// reads it and converts it to UTC, or `None` when it does not parse.
pub uninterp spec fn rfc3339_instant(raw: Seq<char>) -> Option<Timestamp>;

/// Parses an RFC 3339 text with `chrono::DateTime::parse_from_rfc3339` and
/// converts it to UTC seconds and nanoseconds. The contract claims only that
/// the result is what the crate computes from the text.
#[verifier::external_body]
fn parse_rfc3339(raw: &str) -> (r: Option<Timestamp>)
    ensures
        r == rfc3339_instant(raw@),
{
    match chrono::DateTime::parse_from_rfc3339(raw) {
        Ok(dt) => {
            let utc = dt.with_timezone(&chrono::Utc);
            Some(Timestamp { secs: utc.timestamp(), nanos: utc.timestamp_subsec_nanos() })
        },
        Err(_) => None,
    }
}

/// Whole seconds in a span of nanoseconds, rounded towards zero.
pub open spec fn whole_seconds(nanos: int) -> int {
    if nanos >= 0 {
        nanos / 1_000_000_000
    } else {
        -((-nanos) / 1_000_000_000)
    }
}

/// Whole seconds from `then` to `now`.
pub open spec fn seconds_since(now: Timestamp, then: Timestamp) -> int {
    whole_seconds(elapsed_nanos(now, then))
}

fn seconds_since_exec(now: Timestamp, then: Timestamp) -> (r: i128)
    ensures
        r == seconds_since(now, then),
{
    let tn: i64 = match now.secs.checked_rem_euclid(86400) {
        Some(x) => x,
        None => 0,
    };
    let tt: i64 = match then.secs.checked_rem_euclid(86400) {
        Some(x) => x,
        None => 0,
    };
    let mut secs: i128 = now.secs as i128 - then.secs as i128;
    if tn > tt && then.nanos >= 1_000_000_000 {
        secs = secs + 1;
    } else if tn < tt && now.nanos >= 1_000_000_000 {
        secs = secs - 1;
    }
    let elapsed: i128 = secs * 1_000_000_000 + (now.nanos as i128 - then.nanos as i128);
    assert(elapsed == elapsed_nanos(now, then));
    if elapsed >= 0 {
        elapsed / 1_000_000_000
    } else {
        -((-elapsed) / 1_000_000_000)
    }
}

/// The whole seconds since the instant of an RFC 3339 text, if it parses.
pub open spec fn seconds_since_text(now: Timestamp, raw: Seq<char>) -> Option<int> {
    match rfc3339_instant(raw) {
        Some(ts) => Some(seconds_since(now, ts)),
        None => None,
    }
}

/// The instant of the text lies at most `window` whole seconds before `now`.
pub open spec fn recent_within(now: Timestamp, raw: Seq<char>, window: u64) -> bool {
    match seconds_since_text(now, raw) {
        Some(s) => s <= window_secs(window),
        None => false,
    }
}

fn window_i128(window: u64) -> (r: i128)
    ensures
        r == window_secs(window),
{
    if window <= 0x7fff_ffff_ffff_ffff {
        window as i128
    } else {
        window as i128 - 0x1_0000_0000_0000_0000
    }
}

/// Keeps the time stamps that parse and lie at most `restart_window_secs`
/// whole seconds before `now`, in order.
pub fn prune_old_timestamps(values: &mut Vec<String>, restart_window_secs: u64, now: Timestamp)
    ensures
        strings_view(final(values)@) == keep(
            strings_view(old(values)@),
            |raw: Seq<char>| recent_within(now, raw, restart_window_secs),
        ),
{
    let ghost pred = |raw: Seq<char>| recent_within(now, raw, restart_window_secs);
    let ghost vs = strings_view(values@);
    let w = window_i128(restart_window_secs);
    let mut out: Vec<String> = Vec::new();
    let mut i: usize = 0;
    while i < values.len()
        invariant
            i <= values@.len(),
            vs == strings_view(values@),
            vs.len() == values@.len(),
            w == window_secs(restart_window_secs),
            pred == (|raw: Seq<char>| recent_within(now, raw, restart_window_secs)),
            strings_view(out@) == keep(vs.subrange(0, i as int), pred),
        decreases values.len() - i,
    {
        proof {
            let pre = vs.subrange(0, i + 1);
            assert(pre.drop_last() =~= vs.subrange(0, i as int));
            assert(pre.last() == values@[i as int]@);
        }
        let keep_it = match parse_rfc3339(values[i].as_str()) {
            Some(ts) => seconds_since_exec(now, ts) <= w,
            None => false,
        };
        let ghost before = strings_view(out@);
        if keep_it {
            out.push(values[i].clone());
            assert(strings_view(out@) =~= before + seq![vs[i as int]]);
        } else {
            assert(strings_view(out@) =~= before + Seq::<Seq<char>>::empty());
        }
        i = i + 1;
    }
    assert(vs.subrange(0, vs.len() as int) =~= vs);
    *values = out;
}

// ---------------------------------------------------------------------------
// Persisted state and startup verdict
// ---------------------------------------------------------------------------

/// What the agent persists between runs.
#[derive(Debug, Clone, Default)]
pub struct AgentState {
    pub last_start_at: Option<String>,
    pub last_heartbeat_at: Option<String>,
    pub last_shutdown_at: Option<String>,
    pub clean_shutdown: bool,
    pub config_fingerprint: String,
    pub unexpected_stop_times: Vec<String>,
}

pub struct AgentStateView {
    pub last_start_at: Option<Seq<char>>,
    pub last_heartbeat_at: Option<Seq<char>>,
    pub last_shutdown_at: Option<Seq<char>>,
    pub clean_shutdown: bool,
    pub config_fingerprint: Seq<char>,
    pub unexpected_stop_times: Seq<Seq<char>>,
}

impl View for AgentState {
    type V = AgentStateView;

    open spec fn view(&self) -> AgentStateView {
        AgentStateView {
            last_start_at: opt_view(self.last_start_at),
            last_heartbeat_at: opt_view(self.last_heartbeat_at),
            last_shutdown_at: opt_view(self.last_shutdown_at),
            clean_shutdown: self.clean_shutdown,
            config_fingerprint: self.config_fingerprint@,
            unexpected_stop_times: strings_view(self.unexpected_stop_times@),
        }
    }
}

/// Status, summary and notes as the startup checks go.
pub struct Verdict {
    pub status: AgentStatus,
    pub summary: Seq<char>,
    pub notes: Seq<Seq<char>>,
}

/// The abrupt stops of the previous run that are still recent.
pub open spec fn recent_stops(previous: Option<AgentStateView>, now: Timestamp, cfg: ResilienceConfig) -> Seq<Seq<char>> {
    keep(
        match previous {
            Some(p) => p.unexpected_stop_times,
            None => Seq::empty(),
        },
        |raw: Seq<char>| recent_within(now, raw, cfg.restart_window_secs),
    )
}

/// The previous run did not record a clean stop.
pub open spec fn abrupt_stop(previous: Option<AgentStateView>) -> bool {
    match previous {
        Some(p) => !p.clean_shutdown,
        None => false,
    }
}

/// The last heartbeat of the previous run is older than `stale_after_secs`.
pub open spec fn stale_heartbeat(previous: Option<AgentStateView>, now: Timestamp, cfg: ResilienceConfig) -> bool {
    match previous {
        Some(p) => match p.last_heartbeat_at {
            Some(raw) => match seconds_since_text(now, raw) {
                Some(s) => s > window_secs(cfg.stale_after_secs),
                None => false,
            },
            None => false,
        },
        None => false,
    }
}

/// The configuration file changed since the previous run.
pub open spec fn config_drift(previous: Option<AgentStateView>, fingerprint: Seq<char>, cfg: ResilienceConfig) -> bool {
    cfg.watch_config_integrity && match previous {
        Some(p) => p.config_fingerprint.len() > 0 && p.config_fingerprint != fingerprint,
        None => false,
    }
}

/// The abrupt stops once this start is counted.
pub open spec fn stops_after_start(previous: Option<AgentStateView>, now: Timestamp, now_text: Seq<char>, cfg: ResilienceConfig) -> Seq<Seq<char>> {
    let stops = recent_stops(previous, now, cfg);
    if abrupt_stop(previous) {
        keep(stops.push(now_text), |raw: Seq<char>| recent_within(now, raw, cfg.restart_window_secs))
    } else {
        stops
    }
}

/// The verdict before any check.
pub open spec fn initial_verdict(cfg: ResilienceConfig) -> Verdict {
    Verdict {
        status: AgentStatus::Healthy,
        summary: "Heartbeat local y control básico de resiliencia activos."@,
        notes: seq![
            "Heartbeat persistido cada "@ + int_text(cfg.heartbeat_interval_secs as int) + " s; ventana de reinicio "@
                + int_text(cfg.restart_window_secs as int) + " s."@,
        ],
    }
}

/// A stale heartbeat degrades a healthy verdict.
pub open spec fn after_stale(v: Verdict, stale: bool) -> Verdict {
    if stale && v.status == AgentStatus::Healthy {
        Verdict {
            status: AgentStatus::Degraded,
            summary: "El ultimo heartbeat registrado quedo demasiado antiguo y conviene revisar continuidad."@,
            notes: v.notes.push("La sesion previa dejo un heartbeat fuera del umbral esperado para resiliencia."@),
        }
    } else {
        v
    }
}

/// An abrupt previous stop makes the verdict "recovered".
pub open spec fn after_abrupt(v: Verdict, abrupt: bool) -> Verdict {
    if abrupt {
        Verdict {
            status: AgentStatus::Recovered,
            summary: "Se detectó un cierre abrupto previo; la sesión actual recuperó el monitoreo."@,
            notes: v.notes.push("Revisa historial, incidentes y auditoría si el cierre no fue intencional."@),
        }
    } else {
        v
    }
}

/// A configuration drift degrades a healthy verdict and is noted.
pub open spec fn after_drift(v: Verdict, drift: bool) -> Verdict {
    if drift {
        Verdict {
            status: if v.status == AgentStatus::Healthy {
                AgentStatus::Degraded
            } else {
                v.status
            },
            summary: if v.status == AgentStatus::Healthy {
                "La configuración operativa cambió desde la última ejecución."@
            } else {
                v.summary
            },
            notes: v.notes.push(
                "Cambio de configuración pendiente de revisión: puede ser legítimo o requerir validación."@,
            ),
        }
    } else {
        v
    }
}

/// Too many recent abrupt stops degrade the verdict and recommend a back-off.
pub open spec fn after_backoff(v: Verdict, stops: nat, max: u8) -> Verdict {
    if stops >= max {
        Verdict {
            status: AgentStatus::Degraded,
            summary: "Se detectaron "@ + int_text(stops as int)
                + " reinicios/cierres abruptos recientes; conviene revisar estabilidad antes de insistir."@,
            notes: v.notes.push("Backoff recomendado: evitar bucles de reinicio hasta revisar la causa dominante."@),
        }
    } else {
        v
    }
}

/// The start of the previous session is noted when known.
pub open spec fn after_previous(v: Verdict, previous: Option<AgentStateView>) -> Verdict {
    match previous {
        Some(p) => match p.last_start_at {
            Some(s) => Verdict { status: v.status, summary: v.summary, notes: v.notes.push("Sesion previa registrada en "@ + s + "."@) },
            None => v,
        },
        None => v,
    }
}

/// The verdict of the startup checks, in order: stale heartbeat, abrupt
/// stop, configuration drift, restart back-off, previous session.
pub open spec fn startup_verdict(previous: Option<AgentStateView>, now: Timestamp, now_text: Seq<char>, fingerprint: Seq<char>, cfg: ResilienceConfig) -> Verdict {
    after_previous(
        after_backoff(
            after_drift(
                after_abrupt(after_stale(initial_verdict(cfg), stale_heartbeat(previous, now, cfg)), abrupt_stop(previous)),
                config_drift(previous, fingerprint, cfg),
            ),
            stops_after_start(previous, now, now_text, cfg).len(),
            cfg.max_restarts_in_window,
        ),
        previous,
    )
}

/// The health reported after starting.
pub open spec fn startup_health(previous: Option<AgentStateView>, now: Timestamp, now_text: Seq<char>, fingerprint: Seq<char>, cfg: ResilienceConfig) -> AgentHealthView {
    let v = startup_verdict(previous, now, now_text, fingerprint, cfg);
    let stops = stops_after_start(previous, now, now_text, cfg);
    AgentHealthView {
        status: v.status,
        summary: v.summary,
        last_start_at: now_text,
        last_heartbeat_at: now_text,
        last_clean_shutdown_at: match previous {
            Some(p) => p.last_shutdown_at,
            None => None,
        },
        config_fingerprint: fingerprint,
        config_changed: config_drift(previous, fingerprint, cfg),
        unexpected_shutdown_detected: abrupt_stop(previous),
        watchdog_backoff_active: stops.len() >= cfg.max_restarts_in_window,
        consecutive_unexpected_stops: stops.len() as u32,
        notes: v.notes,
    }
}

/// The state persisted after starting.
pub open spec fn startup_state(previous: Option<AgentStateView>, now: Timestamp, now_text: Seq<char>, fingerprint: Seq<char>, cfg: ResilienceConfig) -> AgentStateView {
    AgentStateView {
        last_start_at: Some(now_text),
        last_heartbeat_at: Some(now_text),
        last_shutdown_at: None,
        clean_shutdown: false,
        config_fingerprint: fingerprint,
        unexpected_stop_times: stops_after_start(previous, now, now_text, cfg),
    }
}

// ---------------------------------------------------------------------------
// The monitor's decisions
// ---------------------------------------------------------------------------

/// The resilience state of a running agent: its settings, the state it
/// persists, the health it reports and when the state was last persisted.
pub struct ResilienceCore {
    config: ResilienceConfig,
    state: AgentState,
    health: AgentHealth,
    last_persisted_heartbeat: Timestamp,
}

pub struct ResilienceCoreView {
    pub config: ResilienceConfig,
    pub state: AgentStateView,
    pub health: AgentHealthView,
    pub last_persisted_heartbeat: Timestamp,
}

impl View for ResilienceCore {
    type V = ResilienceCoreView;

    closed spec fn view(&self) -> ResilienceCoreView {
        ResilienceCoreView {
            config: self.config,
            state: self.state@,
            health: self.health@,
            last_persisted_heartbeat: self.last_persisted_heartbeat,
        }
    }
}

fn copy_texts(v: &Vec<String>) -> (r: Vec<String>)
    ensures
        strings_view(r@) == strings_view(v@),
{
    let mut out: Vec<String> = Vec::new();
    let mut i: usize = 0;
    while i < v.len()
        invariant
            i <= v@.len(),
            out@.len() == i,
            forall|m: int| 0 <= m < i ==> (#[trigger] out@[m])@ == v@[m]@,
        decreases v.len() - i,
    {
        out.push(v[i].clone());
        i = i + 1;
    }
    assert(strings_view(out@) =~= strings_view(v@));
    out
}

fn clone_text(o: &Option<String>) -> (r: Option<String>)
    ensures
        opt_view(r) == opt_view(*o),
{
    match o {
        Some(s) => Some(s.clone()),
        None => None,
    }
}

fn push_note(notes: &mut Vec<String>, note: String)
    ensures
        strings_view(final(notes)@) == strings_view(old(notes)@).push(note@),
{
    let ghost before = strings_view(notes@);
    let ghost nv = note@;
    notes.push(note);
    assert(strings_view(notes@) =~= before.push(nv));
}

fn is_stale(previous: &Option<AgentState>, now: Timestamp, cfg: &ResilienceConfig) -> (r: bool)
    ensures
        r == stale_heartbeat(
            match previous {
                Some(p) => Some(p@),
                None => None,
            },
            now,
            *cfg,
        ),
{
    match previous {
        Some(p) => match &p.last_heartbeat_at {
            Some(raw) => match parse_rfc3339(raw.as_str()) {
                Some(ts) => seconds_since_exec(now, ts) > window_i128(cfg.stale_after_secs),
                None => false,
            },
            None => false,
        },
        None => false,
    }
}

/// The view of an optional previous state.
pub open spec fn previous_view(previous: Option<AgentState>) -> Option<AgentStateView> {
    match previous {
        Some(p) => Some(p@),
        None => None,
    }
}

impl ResilienceCore {
    /// Evaluates a start: what the previous run left (if its state could be
    /// read), the current time and its RFC 3339 text, and the fingerprint of
    /// the configuration file.
    pub fn start(
        previous: Option<AgentState>,
        now: Timestamp,
        now_text: &str,
        fingerprint: String,
        config: ResilienceConfig,
    ) -> (r: ResilienceCore)
        ensures
            r@.config == config,
            r@.health == startup_health(previous_view(previous), now, now_text@, fingerprint@, config),
            r@.state == startup_state(previous_view(previous), now, now_text@, fingerprint@, config),
            r@.last_persisted_heartbeat == now,
    {
        let ghost pv = previous_view(previous);
        let ghost fpv = fingerprint@;
        let mut notes: Vec<String> = Vec::new();
        let hb = int_text_exec(config.heartbeat_interval_secs as i128);
        let rw = int_text_exec(config.restart_window_secs as i128);
        let first = join_all(&["Heartbeat persistido cada ", hb.as_str(), " s; ventana de reinicio ", rw.as_str(), " s."]);
        proof {
            reveal_with_fuel(concat_all, 6);
        }
        push_note(&mut notes, first);
        let mut status = AgentStatus::Healthy;
        let mut summary = owned("Heartbeat local y control básico de resiliencia activos.");
        proof {
            let v = initial_verdict(config);
            assert(strings_view(notes@) =~= v.notes);
        }
        let ghost v0 = Verdict { status, summary: summary@, notes: strings_view(notes@) };
        assert(v0 == initial_verdict(config));
        let unexpected = match &previous {
            Some(p) => !p.clean_shutdown,
            None => false,
        };
        let mut stops: Vec<String> = match &previous {
            Some(p) => copy_texts(&p.unexpected_stop_times),
            None => Vec::new(),
        };
        assert(strings_view(stops@) =~= match pv {
            Some(p) => p.unexpected_stop_times,
            None => Seq::<Seq<char>>::empty(),
        });
        prune_old_timestamps(&mut stops, config.restart_window_secs, now);
        assert(strings_view(stops@) == recent_stops(pv, now, config));
        let stale = is_stale(&previous, now, &config);
        if stale && status == AgentStatus::Healthy {
            status = AgentStatus::Degraded;
            summary = owned("El ultimo heartbeat registrado quedo demasiado antiguo y conviene revisar continuidad.");
            push_note(&mut notes, owned("La sesion previa dejo un heartbeat fuera del umbral esperado para resiliencia."));
        }
        let ghost v1 = Verdict { status, summary: summary@, notes: strings_view(notes@) };
        assert(v1 == after_stale(v0, stale_heartbeat(pv, now, config)));
        if unexpected {
            let ghost before_stops = strings_view(stops@);
            stops.push(owned(now_text));
            assert(strings_view(stops@) =~= before_stops.push(now_text@));
            prune_old_timestamps(&mut stops, config.restart_window_secs, now);
            status = AgentStatus::Recovered;
            summary = owned("Se detectó un cierre abrupto previo; la sesión actual recuperó el monitoreo.");
            push_note(&mut notes, owned("Revisa historial, incidentes y auditoría si el cierre no fue intencional."));
        }
        assert(strings_view(stops@) == stops_after_start(pv, now, now_text@, config));
        let ghost v2 = Verdict { status, summary: summary@, notes: strings_view(notes@) };
        assert(v2 == after_abrupt(v1, abrupt_stop(pv)));
        let drift = config.watch_config_integrity && match &previous {
            Some(p) => p.config_fingerprint.as_str().unicode_len() > 0 && !str_eq(
                p.config_fingerprint.as_str(),
                fingerprint.as_str(),
            ),
            None => false,
        };
        assert(drift == config_drift(pv, fpv, config));
        if drift {
            if status == AgentStatus::Healthy {
                status = AgentStatus::Degraded;
                summary = owned("La configuración operativa cambió desde la última ejecución.");
            }
            push_note(
                &mut notes,
                owned("Cambio de configuración pendiente de revisión: puede ser legítimo o requerir validación."),
            );
        }
        let ghost v3 = Verdict { status, summary: summary@, notes: strings_view(notes@) };
        assert(v3 == after_drift(v2, drift));
        let backoff = stops.len() >= config.max_restarts_in_window as usize;
        if backoff {
            status = AgentStatus::Degraded;
            let count = int_text_exec(stops.len() as i128);
            summary = join_all(
                &["Se detectaron ", count.as_str(), " reinicios/cierres abruptos recientes; conviene revisar estabilidad antes de insistir."],
            );
            proof {
                reveal_with_fuel(concat_all, 4);
            }
            push_note(
                &mut notes,
                owned("Backoff recomendado: evitar bucles de reinicio hasta revisar la causa dominante."),
            );
        }
        let ghost v4 = Verdict { status, summary: summary@, notes: strings_view(notes@) };
        assert(v4 == after_backoff(v3, stops@.len(), config.max_restarts_in_window));
        match &previous {
            Some(p) => match &p.last_start_at {
                Some(s) => {
                    let note = join_all(&["Sesion previa registrada en ", s.as_str(), "."]);
                    proof {
                        reveal_with_fuel(concat_all, 4);
                    }
                    push_note(&mut notes, note);
                },
                None => {},
            },
            None => {},
        }
        let ghost v5 = Verdict { status, summary: summary@, notes: strings_view(notes@) };
        assert(v5 == after_previous(v4, pv));
        let last_shutdown = match &previous {
            Some(p) => clone_text(&p.last_shutdown_at),
            None => None,
        };
        let health = AgentHealth {
            status,
            summary,
            last_start_at: owned(now_text),
            last_heartbeat_at: owned(now_text),
            last_clean_shutdown_at: last_shutdown,
            config_fingerprint: fingerprint.clone(),
            config_changed: drift,
            unexpected_shutdown_detected: unexpected,
            watchdog_backoff_active: backoff,
            consecutive_unexpected_stops: stops.len() as u32,
            notes,
        };
        let state = AgentState {
            last_start_at: Some(owned(now_text)),
            last_heartbeat_at: Some(owned(now_text)),
            last_shutdown_at: None,
            clean_shutdown: false,
            config_fingerprint: fingerprint,
            unexpected_stop_times: stops,
        };
        let r = ResilienceCore { config, state, health, last_persisted_heartbeat: now };
        assert(r@.state == startup_state(pv, now, now_text@, fpv, config));
        r
    }
}

/// The core after a heartbeat at `now`, given the current fingerprint of the
/// configuration file.
pub open spec fn heartbeat_core(c: ResilienceCoreView, now_text: Seq<char>, current: Seq<char>) -> ResilienceCoreView {
    if !c.config.enabled {
        c
    } else {
        let h0 = AgentHealthView { last_heartbeat_at: now_text, ..c.health };
        let s0 = AgentStateView { last_heartbeat_at: Some(now_text), ..c.state };
        if c.config.watch_config_integrity && current != h0.config_fingerprint {
            let s1 = AgentStateView { config_fingerprint: current, ..s0 };
            let h1 = AgentHealthView { config_fingerprint: current, ..h0 };
            let h2 = if !h1.config_changed {
                AgentHealthView {
                    config_changed: true,
                    status: if h1.status == AgentStatus::Healthy {
                        AgentStatus::Degraded
                    } else {
                        h1.status
                    },
                    summary: if h1.status == AgentStatus::Healthy {
                        "Se detectó un cambio de configuración durante la ejecución."@
                    } else {
                        h1.summary
                    },
                    notes: h1.notes.push("La configuración cambió mientras el agente estaba activo."@),
                    ..h1
                }
            } else {
                h1
            };
            ResilienceCoreView { state: s1, health: h2, ..c }
        } else {
            ResilienceCoreView { state: s0, health: h0, ..c }
        }
    }
}

/// The audit records a heartbeat produces: one when the configuration
/// changes for the first time during the run.
pub open spec fn heartbeat_audits(c: ResilienceCoreView, now_text: Seq<char>, current: Seq<char>, config_path: Seq<char>) -> Seq<AuditRecordView> {
    if c.config.enabled && c.config.watch_config_integrity && current != c.health.config_fingerprint
        && !c.health.config_changed {
        seq![
            AuditRecordView {
                occurred_at: now_text,
                action: "config-integrity-change"@,
                target: config_path,
                success: true,
                detail: "Nueva huella local detectada: "@ + current + "."@,
            },
        ]
    } else {
        Seq::empty()
    }
}

/// The state is due to be persisted: at least `heartbeat_interval_secs`
/// whole seconds passed since it last was.
pub open spec fn persist_due(c: ResilienceCoreView, now: Timestamp) -> bool {
    c.config.enabled && seconds_since(now, c.last_persisted_heartbeat) >= window_secs(c.config.heartbeat_interval_secs)
}

/// The audit records of a start: the start itself, then a recovery, a
/// configuration change and a back-off when they apply.
pub open spec fn startup_audits_spec(h: AgentHealthView, config_path: Seq<char>) -> Seq<AuditRecordView> {
    seq![
        AuditRecordView {
            occurred_at: h.last_start_at,
            action: "agent-start"@,
            target: "rootcause-agent"@,
            success: true,
            detail: h.summary,
        },
    ] + (if h.unexpected_shutdown_detected {
        seq![
            AuditRecordView {
                occurred_at: h.last_start_at,
                action: "agent-recovery"@,
                target: "rootcause-agent"@,
                success: true,
                detail: "Se detectó un cierre abrupto previo y el agente volvió a iniciar."@,
            },
        ]
    } else {
        Seq::empty()
    }) + (if h.config_changed {
        seq![
            AuditRecordView {
                occurred_at: h.last_start_at,
                action: "config-integrity-change"@,
                target: config_path,
                success: true,
                detail: "La huella local cambió a "@ + h.config_fingerprint + "."@,
            },
        ]
    } else {
        Seq::empty()
    }) + (if h.watchdog_backoff_active {
        seq![
            AuditRecordView {
                occurred_at: h.last_start_at,
                action: "agent-watchdog-backoff"@,
                target: "rootcause-agent"@,
                success: true,
                detail: "Se activó backoff recomendado por reinicios/cierres abruptos repetidos."@,
            },
        ]
    } else {
        Seq::empty()
    })
}

/// The views of a list of audit records.
pub open spec fn audits_view(v: Seq<AuditRecord>) -> Seq<AuditRecordView> {
    v.map_values(|a: AuditRecord| a@)
}

fn audit(occurred_at: &str, action: &str, target: &str, detail: String) -> (r: AuditRecord)
    ensures
        r@ == (AuditRecordView { occurred_at: occurred_at@, action: action@, target: target@, success: true, detail: detail@ }),
{
    AuditRecord { occurred_at: owned(occurred_at), action: owned(action), target: owned(target), success: true, detail }
}

fn push_audit(v: &mut Vec<AuditRecord>, a: AuditRecord)
    ensures
        audits_view(final(v)@) == audits_view(old(v)@).push(a@),
{
    let ghost before = audits_view(v@);
    let ghost av = a@;
    v.push(a);
    assert(audits_view(v@) =~= before.push(av));
}

impl ResilienceCore {
    /// The settings the core runs with.
    pub fn config(&self) -> (r: ResilienceConfig)
        ensures
            r == self@.config,
    {
        self.config
    }

    /// The health reported now.
    pub fn health(&self) -> (r: &AgentHealth)
        ensures
            r@ == self@.health,
    {
        &self.health
    }

    /// The state to persist.
    pub fn state(&self) -> (r: &AgentState)
        ensures
            r@ == self@.state,
    {
        &self.state
    }

    /// The audit records of the start.
    pub fn startup_audits(&self, config_path: &str) -> (r: Vec<AuditRecord>)
        ensures
            audits_view(r@) == startup_audits_spec(self@.health, config_path@),
    {
        let h = &self.health;
        let mut records: Vec<AuditRecord> = Vec::new();
        push_audit(&mut records, audit(h.last_start_at.as_str(), "agent-start", "rootcause-agent", h.summary.clone()));
        if h.unexpected_shutdown_detected {
            push_audit(
                &mut records,
                audit(
                    h.last_start_at.as_str(),
                    "agent-recovery",
                    "rootcause-agent",
                    owned("Se detectó un cierre abrupto previo y el agente volvió a iniciar."),
                ),
            );
        }
        if h.config_changed {
            let detail = join_all(&["La huella local cambió a ", h.config_fingerprint.as_str(), "."]);
            proof {
                reveal_with_fuel(concat_all, 4);
            }
            push_audit(&mut records, audit(h.last_start_at.as_str(), "config-integrity-change", config_path, detail));
        }
        if h.watchdog_backoff_active {
            push_audit(
                &mut records,
                audit(
                    h.last_start_at.as_str(),
                    "agent-watchdog-backoff",
                    "rootcause-agent",
                    owned("Se activó backoff recomendado por reinicios/cierres abruptos repetidos."),
                ),
            );
        }
        assert(audits_view(records@) =~= startup_audits_spec(self@.health, config_path@));
        records
    }

    /// Records a heartbeat at `now` (rendered as `now_text`), given the
    /// current fingerprint of the configuration file. Returns the audit
    /// records it produced and whether the state is due to be persisted.
    pub fn heartbeat(&mut self, now: Timestamp, now_text: &str, current_fingerprint: &str, config_path: &str) -> (r: (
        Vec<AuditRecord>,
        bool,
    ))
        ensures
            final(self)@ == heartbeat_core(old(self)@, now_text@, current_fingerprint@),
            audits_view(r.0@) == heartbeat_audits(old(self)@, now_text@, current_fingerprint@, config_path@),
            r.1 == persist_due(old(self)@, now),
    {
        let ghost c = self@;
        let mut audits: Vec<AuditRecord> = Vec::new();
        if !self.config.enabled {
            assert(audits_view(audits@) =~= Seq::<AuditRecordView>::empty());
            return (audits, false);
        }
        self.health.last_heartbeat_at = owned(now_text);
        self.state.last_heartbeat_at = Some(owned(now_text));
        if self.config.watch_config_integrity && !str_eq(current_fingerprint, self.health.config_fingerprint.as_str()) {
            self.health.config_fingerprint = owned(current_fingerprint);
            self.state.config_fingerprint = owned(current_fingerprint);
            if !self.health.config_changed {
                self.health.config_changed = true;
                if self.health.status == AgentStatus::Healthy {
                    self.health.status = AgentStatus::Degraded;
                    self.health.summary = owned("Se detectó un cambio de configuración durante la ejecución.");
                }
                push_note(&mut self.health.notes, owned("La configuración cambió mientras el agente estaba activo."));
                let detail = join_all(&["Nueva huella local detectada: ", current_fingerprint, "."]);
                proof {
                    reveal_with_fuel(concat_all, 4);
                }
                push_audit(&mut audits, audit(now_text, "config-integrity-change", config_path, detail));
            }
        }
        assert(audits_view(audits@) =~= heartbeat_audits(c, now_text@, current_fingerprint@, config_path@));
        let due = seconds_since_exec(now, self.last_persisted_heartbeat) >= window_i128(self.config.heartbeat_interval_secs);
        (audits, due)
    }

    /// Notes that the state was persisted at `now`.
    pub fn mark_persisted(&mut self, now: Timestamp)
        ensures
            final(self)@ == (ResilienceCoreView { last_persisted_heartbeat: now, ..old(self)@ }),
    {
        self.last_persisted_heartbeat = now;
    }

    /// Records a clean stop at `now_text` and returns its audit record; the
    /// state is then to be persisted.
    pub fn shutdown(&mut self, now_text: &str) -> (r: AuditRecord)
        ensures
            final(self)@ == (ResilienceCoreView {
                state: AgentStateView {
                    clean_shutdown: true,
                    last_shutdown_at: Some(now_text@),
                    last_heartbeat_at: Some(now_text@),
                    ..old(self)@.state
                },
                health: AgentHealthView {
                    last_clean_shutdown_at: Some(now_text@),
                    last_heartbeat_at: now_text@,
                    ..old(self)@.health
                },
                ..old(self)@
            }),
            r@ == (AuditRecordView {
                occurred_at: now_text@,
                action: "agent-stop"@,
                target: "rootcause-agent"@,
                success: true,
                detail: "Cierre limpio registrado."@,
            }),
    {
        self.state.clean_shutdown = true;
        self.state.last_shutdown_at = Some(owned(now_text));
        self.state.last_heartbeat_at = Some(owned(now_text));
        self.health.last_clean_shutdown_at = Some(owned(now_text));
        self.health.last_heartbeat_at = owned(now_text);
        audit(now_text, "agent-stop", "rootcause-agent", owned("Cierre limpio registrado."))
    }
}


// ---------------------------------------------------------------------------
// Laws
// ---------------------------------------------------------------------------

/// Pruning the time stamps twice keeps what pruning once kept.
pub proof fn lemma_prune_twice(values: Seq<Seq<char>>, restart_window_secs: u64, now: Timestamp)
    ensures
        ({
            let recent = |raw: Seq<char>| recent_within(now, raw, restart_window_secs);
            keep(keep(values, recent), recent) == keep(values, recent)
        }),
{
    lemma_keep_idempotent(values, |raw: Seq<char>| recent_within(now, raw, restart_window_secs));
}

/// A start after a clean stop reports no abrupt stop, is never "recovered",
/// and adds no stop to the recent ones.
pub proof fn lemma_clean_stop_is_not_abrupt(
    previous: AgentStateView,
    now: Timestamp,
    now_text: Seq<char>,
    fingerprint: Seq<char>,
    cfg: ResilienceConfig,
)
    requires
        previous.clean_shutdown,
    ensures
        !startup_health(Some(previous), now, now_text, fingerprint, cfg).unexpected_shutdown_detected,
        startup_health(Some(previous), now, now_text, fingerprint, cfg).status != AgentStatus::Recovered,
        startup_state(Some(previous), now, now_text, fingerprint, cfg).unexpected_stop_times == recent_stops(
            Some(previous),
            now,
            cfg,
        ),
{
}

/// A start after an abrupt stop reports it, is never healthy, and counts the
/// start among the recent stops when its own time stamp is recent.
pub proof fn lemma_abrupt_stop_is_reported(
    previous: AgentStateView,
    now: Timestamp,
    now_text: Seq<char>,
    fingerprint: Seq<char>,
    cfg: ResilienceConfig,
)
    requires
        !previous.clean_shutdown,
    ensures
        startup_health(Some(previous), now, now_text, fingerprint, cfg).unexpected_shutdown_detected,
        startup_health(Some(previous), now, now_text, fingerprint, cfg).status == AgentStatus::Recovered
            || startup_health(Some(previous), now, now_text, fingerprint, cfg).status == AgentStatus::Degraded,
        recent_within(now, now_text, cfg.restart_window_secs) ==> startup_state(
            Some(previous),
            now,
            now_text,
            fingerprint,
            cfg,
        ).unexpected_stop_times == recent_stops(Some(previous), now, cfg).push(now_text),
{
    let recent = |raw: Seq<char>| recent_within(now, raw, cfg.restart_window_secs);
    let stops = recent_stops(Some(previous), now, cfg);
    lemma_keep_idempotent(previous.unexpected_stop_times, recent);
    if recent(now_text) {
        let pushed = stops.push(now_text);
        assert(pushed.drop_last() =~= stops);
        assert(keep(pushed, recent) =~= keep(stops, recent) + seq![now_text]);
    }
}

/// With monitoring off a heartbeat changes nothing, audits nothing and never
/// asks for the state to be persisted.
pub proof fn lemma_heartbeat_when_disabled(
    c: ResilienceCoreView,
    now: Timestamp,
    now_text: Seq<char>,
    current: Seq<char>,
    config_path: Seq<char>,
)
    requires
        !c.config.enabled,
    ensures
        heartbeat_core(c, now_text, current) == c,
        heartbeat_audits(c, now_text, current, config_path).len() == 0,
        !persist_due(c, now),
{
}

/// A configuration change is audited once: a second heartbeat with the same
/// fingerprint audits nothing.
pub proof fn lemma_config_change_audited_once(
    c: ResilienceCoreView,
    first_text: Seq<char>,
    second_text: Seq<char>,
    current: Seq<char>,
    config_path: Seq<char>,
)
    ensures
        heartbeat_audits(heartbeat_core(c, first_text, current), second_text, current, config_path).len() == 0,
{
}


/// `hex_digits` gives `count` lower-case hexadecimal digits.
proof fn lemma_hex_digits(n: nat, count: nat)
    ensures
        hex_digits(n, count).len() == count,
        forall|i: int|
            0 <= i < count ==> ('0' <= #[trigger] hex_digits(n, count)[i] <= '9') || ('a' <= hex_digits(n, count)[i]
                <= 'f'),
    decreases count,
{
    if count > 0 {
        lemma_hex_digits(n / 16, (count - 1) as nat);
        let d = (n % 16) as int;
        assert(0 <= d < 16);
        let prev = hex_digits(n / 16, (count - 1) as nat);
        assert forall|i: int| 0 <= i < count implies ('0' <= #[trigger] hex_digits(n, count)[i] <= '9') || ('a'
            <= hex_digits(n, count)[i] <= 'f') by {
            if i < count - 1 {
                assert(hex_digits(n, count)[i] == prev[i]);
            } else {
                assert(hex_digits(n, count)[i] == hex_char(d));
            }
        }
    }
}

/// A fingerprint is always 16 lower-case hexadecimal digits.
pub proof fn lemma_fingerprint_shape(value: Seq<char>)
    ensures
        fingerprint_spec(value).len() == 16,
        forall|i: int|
            0 <= i < 16 ==> ('0' <= #[trigger] fingerprint_spec(value)[i] <= '9') || ('a' <= fingerprint_spec(
                value,
            )[i] <= 'f'),
{
    lemma_hex_digits(fnv1a(vstd::utf8::encode_utf8(value)) as nat, 16);
}

} // verus!
