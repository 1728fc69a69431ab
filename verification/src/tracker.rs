//! The anomaly tracker: the state kept between snapshots (streaks per PID,
//! respawns per executable, repetitions per script invocation) and the
//! analysis of one snapshot against it.
//!
//! The three tables are association lists with distinct keys; the tracker is
//! seen as the three lists of `(key, state)` pairs in the order in which the
//! keys were first recorded.

use crate::anomaly::{script_engine_spec, script_signature_spec, looks_like_script_engine, normalize_script_signature, ProcessObservation, ProcessObservationView};
use crate::models::Timestamp;
use crate::text::{lower, str_eq, to_lower};
use vstd::prelude::*;

verus! {

// ---------------------------------------------------------------------------
// Time windows
// ---------------------------------------------------------------------------

/// Seconds since midnight of a UTC second count.
pub open spec fn time_of_day(secs: int) -> int {
    secs % 86400
}

/// Nanoseconds elapsed from `then` to `now`, as the difference of two UTC
/// date-times gives them: a second that holds a leap second counts once the
/// later instant has left it.
pub open spec fn elapsed_nanos(now: Timestamp, then: Timestamp) -> int {
    let tn = time_of_day(now.secs as int);
    let tt = time_of_day(then.secs as int);
    let adjust: int = if tn > tt && then.nanos >= 1_000_000_000 {
        1
    } else if tn < tt && now.nanos >= 1_000_000_000 {
        -1
    } else {
        0
    };
    (now.secs - then.secs + adjust) * 1_000_000_000 + (now.nanos - then.nanos)
}

/// The window length in seconds once the configured `u64` is read as an `i64`.
pub open spec fn window_secs(window: u64) -> int {
    if window <= 0x7fff_ffff_ffff_ffff {
        window as int
    } else {
        window - 0x1_0000_0000_0000_0000
    }
}

/// A window that a time span of whole seconds can hold (at most `i64::MAX`
/// milliseconds either way).
pub open spec fn window_ok(window: u64) -> bool {
    -9_223_372_036_854_775 <= window_secs(window) <= 9_223_372_036_854_775
}

/// `now` is at most `window` seconds after `then`.
pub open spec fn within_window(now: Timestamp, then: Timestamp, window: u64) -> bool {
    elapsed_nanos(now, then) <= window_secs(window) * 1_000_000_000
}

/// Whether `now` is at most `window` seconds after `then`.
pub fn is_within_window(now: Timestamp, then: Timestamp, window: u64) -> (r: bool)
    ensures
        r == within_window(now, then, window),
{
    let tn: i64 = match now.secs.checked_rem_euclid(86400) {
        Some(x) => x,
        None => 0,
    };
    let tt: i64 = match then.secs.checked_rem_euclid(86400) {
        Some(x) => x,
        None => 0,
    };
    assert(tn == time_of_day(now.secs as int));
    assert(tt == time_of_day(then.secs as int));
    let mut secs: i128 = now.secs as i128 - then.secs as i128;
    if tn > tt && then.nanos >= 1_000_000_000 {
        secs = secs + 1;
    } else if tn < tt && now.nanos >= 1_000_000_000 {
        secs = secs - 1;
    }
    let elapsed: i128 = secs * 1_000_000_000 + (now.nanos as i128 - then.nanos as i128);
    let w: i128 = if window <= 0x7fff_ffff_ffff_ffff {
        window as i128
    } else {
        window as i128 - 0x1_0000_0000_0000_0000
    };
    elapsed <= w * 1_000_000_000
}

// ---------------------------------------------------------------------------
// Association lists
// ---------------------------------------------------------------------------

/// Index of the first pair at or after `from` whose key is `k`, or the length.
pub open spec fn key_index<K, V>(s: Seq<(K, V)>, k: K, from: int) -> int
    decreases s.len() - from,
{
    if from < 0 || from >= s.len() {
        s.len() as int
    } else if s[from].0 == k {
        from
    } else {
        key_index(s, k, from + 1)
    }
}

/// The value recorded for `k`, if any.
pub open spec fn lookup<K, V>(s: Seq<(K, V)>, k: K) -> Option<V> {
    let i = key_index(s, k, 0);
    if i < s.len() {
        Some(s[i].1)
    } else {
        None
    }
}

/// `s` with the value of `k` replaced, or `(k, v)` appended when `k` is new.
pub open spec fn upsert<K, V>(s: Seq<(K, V)>, k: K, v: V) -> Seq<(K, V)> {
    let i = key_index(s, k, 0);
    if i < s.len() {
        s.update(i, (k, v))
    } else {
        s.push((k, v))
    }
}

/// No key occurs twice.
pub open spec fn keys_distinct<K, V>(s: Seq<(K, V)>) -> bool {
    forall|i: int, j: int|
        #![trigger s[i], s[j]]
        0 <= i < s.len() && 0 <= j < s.len() && i != j ==> s[i].0 != s[j].0
}

/// The items of `s` that satisfy `p`, in order.
pub open spec fn keep<T>(s: Seq<T>, p: spec_fn(T) -> bool) -> Seq<T>
    decreases s.len(),
{
    if s.len() == 0 {
        s
    } else {
        keep(s.drop_last(), p) + if p(s.last()) {
            seq![s.last()]
        } else {
            Seq::empty()
        }
    }
}

pub proof fn lemma_key_index<K, V>(s: Seq<(K, V)>, k: K, from: int)
    requires
        0 <= from <= s.len(),
    ensures
        from <= key_index(s, k, from) <= s.len(),
        forall|m: int| from <= m < key_index(s, k, from) ==> (#[trigger] s[m]).0 != k,
        key_index(s, k, from) < s.len() ==> s[key_index(s, k, from)].0 == k,
    decreases s.len() - from,
{
    if from < s.len() && s[from].0 != k {
        lemma_key_index(s, k, from + 1);
    }
}

pub proof fn lemma_upsert_distinct<K, V>(s: Seq<(K, V)>, k: K, v: V)
    requires
        keys_distinct(s),
    ensures
        keys_distinct(upsert(s, k, v)),
        lookup(upsert(s, k, v), k) == Some(v),
{
    lemma_key_index(s, k, 0);
    let t = upsert(s, k, v);
    let i = key_index(s, k, 0);
    assert forall|a: int, b: int|
        #![trigger t[a], t[b]]
        0 <= a < t.len() && 0 <= b < t.len() && a != b implies t[a].0 != t[b].0 by {
        if i < s.len() {
            if a != i && b != i {
                assert(t[a] == s[a] && t[b] == s[b]);
            } else if a == i {
                assert(t[b] == s[b]);
                assert(s[i].0 == k);
            } else {
                assert(t[a] == s[a]);
                assert(s[i].0 == k);
            }
        } else {
            if a < s.len() && b < s.len() {
                assert(t[a] == s[a] && t[b] == s[b]);
            } else if a < s.len() {
                assert(t[a] == s[a]);
                assert(s[a].0 != k);
            } else {
                assert(t[b] == s[b]);
                assert(s[b].0 != k);
            }
        }
    }
    lemma_key_index(t, k, 0);
    let j = key_index(t, k, 0);
    if i < s.len() {
        assert(t[i].0 == k);
        if j < i {
            assert(t[j] == s[j]);
        }
        assert(j == i);
    } else {
        assert(t[s.len() as int].0 == k);
        if j < s.len() {
            assert(t[j] == s[j]);
        }
        assert(j == s.len());
    }
}

/// Every item kept comes from the list.
pub proof fn lemma_keep_from<T>(s: Seq<T>, p: spec_fn(T) -> bool)
    ensures
        keep(s, p).len() <= s.len(),
        forall|j: int|
            0 <= j < keep(s, p).len() ==> exists|i: int|
                0 <= i < s.len() && s[i] == #[trigger] keep(s, p)[j],
    decreases s.len(),
{
    if s.len() > 0 {
        let t = s.drop_last();
        lemma_keep_from(t, p);
        assert forall|j: int| 0 <= j < keep(s, p).len() implies exists|i: int|
            0 <= i < s.len() && s[i] == #[trigger] keep(s, p)[j] by {
            if j < keep(t, p).len() {
                assert(keep(s, p)[j] == keep(t, p)[j]);
                let i = choose|i: int| 0 <= i < t.len() && t[i] == #[trigger] keep(t, p)[j];
                assert(s[i] == t[i]);
            } else {
                assert(keep(s, p)[j] == s.last());
                assert(s[s.len() - 1] == s.last());
            }
        }
    }
}

pub proof fn lemma_keep_distinct<K, V>(s: Seq<(K, V)>, p: spec_fn((K, V)) -> bool)
    requires
        keys_distinct(s),
    ensures
        keys_distinct(keep(s, p)),
    decreases s.len(),
{
    if s.len() > 0 {
        let t = s.drop_last();
        assert(keys_distinct(t)) by {
            assert forall|a: int, b: int|
                #![trigger t[a], t[b]]
                0 <= a < t.len() && 0 <= b < t.len() && a != b implies t[a].0 != t[b].0 by {
                assert(t[a] == s[a] && t[b] == s[b]);
            }
        }
        lemma_keep_distinct(t, p);
        lemma_keep_from(t, p);
        let kt = keep(t, p);
        let ks = keep(s, p);
        if p(s.last()) {
            assert forall|a: int, b: int|
                #![trigger ks[a], ks[b]]
                0 <= a < ks.len() && 0 <= b < ks.len() && a != b implies ks[a].0 != ks[b].0 by {
                if a < kt.len() && b < kt.len() {
                    assert(ks[a] == kt[a] && ks[b] == kt[b]);
                } else if a < kt.len() {
                    assert(ks[a] == kt[a]);
                    let i = choose|i: int| 0 <= i < t.len() && t[i] == #[trigger] kt[a];
                    assert(s[i] == t[i]);
                    assert(ks[b] == s[s.len() - 1]);
                } else {
                    assert(ks[b] == kt[b]);
                    let i = choose|i: int| 0 <= i < t.len() && t[i] == #[trigger] kt[b];
                    assert(s[i] == t[i]);
                    assert(ks[a] == s[s.len() - 1]);
                }
            }
        } else {
            assert(ks =~= kt);
        }
    }
}

/// Keeping twice by the same test keeps what keeping once kept.
pub proof fn lemma_keep_idempotent<T>(s: Seq<T>, p: spec_fn(T) -> bool)
    ensures
        keep(keep(s, p), p) == keep(s, p),
    decreases s.len(),
{
    if s.len() > 0 {
        lemma_keep_idempotent(s.drop_last(), p);
        let k = keep(s.drop_last(), p);
        if p(s.last()) {
            let ks = k + seq![s.last()];
            assert(ks.drop_last() =~= k);
            assert(ks.last() == s.last());
        } else {
            assert(k + Seq::<T>::empty() =~= k);
        }
    }
}

/// Nothing is kept when no item passes the test.
pub proof fn lemma_keep_none<T>(s: Seq<T>, p: spec_fn(T) -> bool)
    requires
        forall|i: int| 0 <= i < s.len() ==> !p(#[trigger] s[i]),
    ensures
        keep(s, p).len() == 0,
    decreases s.len(),
{
    if s.len() > 0 {
        assert(!p(s[s.len() - 1]));
        assert forall|i: int| 0 <= i < s.drop_last().len() implies !p(#[trigger] s.drop_last()[i]) by {
            assert(s.drop_last()[i] == s[i]);
        }
        lemma_keep_none(s.drop_last(), p);
    }
}

// ---------------------------------------------------------------------------
// Tracker state
// ---------------------------------------------------------------------------

/// Streaks kept for one PID between snapshots.
#[derive(Debug, Clone, Copy, PartialEq, Eq, Structural)]
pub struct ProcessHistory {
    /// `f32::to_bits` of the memory (MB) seen in the previous snapshot.
    pub last_memory_mb_bits: u32,
    pub high_cpu_streak: u8,
    pub memory_growth_streak: u8,
    pub aggressive_write_streak: u8,
}

/// Last sighting of an executable, to notice it coming back under new PIDs.
#[derive(Debug, Clone, Copy, PartialEq, Eq, Structural)]
pub struct RespawnState {
    pub last_pid: u32,
    pub last_seen: Timestamp,
    pub rapid_respawns: u8,
}

/// Last sighting of a script invocation, to notice it repeating.
#[derive(Debug, Clone, Copy, PartialEq, Eq, Structural)]
pub struct ScriptState {
    pub last_seen: Timestamp,
    pub repeats: u8,
}

/// The tables of a tracker, keys first recorded first.
pub struct TrackerView {
    pub processes: Seq<(u32, ProcessHistory)>,
    pub respawns: Seq<(Seq<char>, RespawnState)>,
    pub scripts: Seq<(Seq<char>, ScriptState)>,
}

/// A table keyed by text, seen with its keys as character sequences.
pub open spec fn keyed_view<V>(v: Seq<(String, V)>) -> Seq<(Seq<char>, V)> {
    v.map_values(|e: (String, V)| (e.0@, e.1))
}

/// State carried from one snapshot to the next.
pub struct AnomalyTracker {
    process_history: Vec<(u32, ProcessHistory)>,
    respawn_history: Vec<(String, RespawnState)>,
    script_history: Vec<(String, ScriptState)>,
}

impl View for AnomalyTracker {
    type V = TrackerView;

    closed spec fn view(&self) -> TrackerView {
        TrackerView {
            processes: self.process_history@,
            respawns: keyed_view(self.respawn_history@),
            scripts: keyed_view(self.script_history@),
        }
    }
}

/// The history of a PID that has none yet.
pub open spec fn empty_history() -> ProcessHistory {
    ProcessHistory {
        last_memory_mb_bits: 0,
        high_cpu_streak: 0,
        memory_growth_streak: 0,
        aggressive_write_streak: 0,
    }
}

/// `x + 1`, staying at 255.
pub open spec fn sat_inc(x: u8) -> u8 {
    if x < 255 {
        (x + 1) as u8
    } else {
        255
    }
}

/// The history of a process once this snapshot is counted.
pub open spec fn history_after(prev: Option<ProcessHistory>, p: ProcessObservationView) -> ProcessHistory {
    let h = match prev {
        Some(h) => h,
        None => empty_history(),
    };
    ProcessHistory {
        last_memory_mb_bits: p.memory_mb_bits,
        high_cpu_streak: if p.cpu_high {
            sat_inc(h.high_cpu_streak)
        } else {
            0
        },
        memory_growth_streak: if p.memory_grew {
            sat_inc(h.memory_growth_streak)
        } else {
            0
        },
        aggressive_write_streak: if p.write_aggressive {
            sat_inc(h.aggressive_write_streak)
        } else {
            0
        },
    }
}

/// The key under which respawns of a process are counted: its lower-cased
/// path, or its lower-cased name when the path is unknown.
pub open spec fn exe_key(p: ProcessObservationView) -> Seq<char> {
    if p.exe_path.len() > 0 {
        lower(p.exe_path)
    } else {
        lower(p.name)
    }
}

/// The respawn state of an executable once this sighting is counted.
pub open spec fn respawn_after(prev: Option<RespawnState>, pid: u32, now: Timestamp, window: u64) -> RespawnState {
    let st = match prev {
        Some(s) => s,
        None => RespawnState { last_pid: pid, last_seen: now, rapid_respawns: 0 },
    };
    let within = within_window(now, st.last_seen, window);
    RespawnState {
        last_pid: pid,
        last_seen: now,
        rapid_respawns: if st.last_pid != pid && within {
            sat_inc(st.rapid_respawns)
        } else if !within {
            0
        } else {
            st.rapid_respawns
        },
    }
}

/// The respawn table once a process is seen.
pub open spec fn respawns_after(
    t: Seq<(Seq<char>, RespawnState)>,
    p: ProcessObservationView,
    now: Timestamp,
    window: u64,
) -> Seq<(Seq<char>, RespawnState)> {
    let key = exe_key(p);
    if key.len() == 0 {
        t
    } else {
        upsert(t, key, respawn_after(lookup(t, key), p.pid, now, window))
    }
}

/// The respawn score of a process seen now: 58 plus 6 per rapid respawn,
/// once the respawns reach `count`.
pub open spec fn respawn_score(
    t: Seq<(Seq<char>, RespawnState)>,
    p: ProcessObservationView,
    now: Timestamp,
    window: u64,
    count: u8,
) -> Option<u16> {
    let key = exe_key(p);
    if key.len() == 0 {
        None
    } else {
        let st = respawn_after(lookup(t, key), p.pid, now, window);
        if st.rapid_respawns >= count {
            Some((58 + st.rapid_respawns * 6) as u16)
        } else {
            None
        }
    }
}

/// The state of a script invocation once this sighting is counted.
pub open spec fn script_after(prev: Option<ScriptState>, now: Timestamp, window: u64) -> ScriptState {
    let st = match prev {
        Some(s) => s,
        None => ScriptState { last_seen: now, repeats: 0 },
    };
    ScriptState {
        last_seen: now,
        repeats: if within_window(now, st.last_seen, window) {
            sat_inc(st.repeats)
        } else {
            1
        },
    }
}

/// The script invocation a process stands for, if it runs a script engine.
pub open spec fn script_key(p: ProcessObservationView) -> Option<Seq<char>> {
    if !script_engine_spec(p.name, p.command_line) {
        None
    } else {
        script_signature_spec(p.name, p.command_line)
    }
}

/// The script table once a process is seen.
pub open spec fn scripts_after(
    t: Seq<(Seq<char>, ScriptState)>,
    p: ProcessObservationView,
    now: Timestamp,
    window: u64,
) -> Seq<(Seq<char>, ScriptState)> {
    match script_key(p) {
        None => t,
        Some(sig) => upsert(t, sig, script_after(lookup(t, sig), now, window)),
    }
}

/// The repetition score of a script invocation seen now: 54 plus 4 per
/// repetition, once the repetitions reach `count`.
pub open spec fn script_score(
    t: Seq<(Seq<char>, ScriptState)>,
    p: ProcessObservationView,
    now: Timestamp,
    window: u64,
    count: u8,
) -> Option<u16> {
    match script_key(p) {
        None => None,
        Some(sig) => {
            let st = script_after(lookup(t, sig), now, window);
            if st.repeats >= count {
                Some((54 + st.repeats * 4) as u16)
            } else {
                None
            }
        },
    }
}

fn sat_inc_exec(x: u8) -> (r: u8)
    ensures
        r == sat_inc(x),
{
    if x < 255 {
        x + 1
    } else {
        255
    }
}

fn find_pid(s: &Vec<(u32, ProcessHistory)>, pid: u32) -> (r: usize)
    ensures
        r == key_index(s@, pid, 0),
{
    proof {
        lemma_key_index(s@, pid, 0);
    }
    let mut i: usize = 0;
    while i < s.len() && s[i].0 != pid
        invariant
            i <= s@.len(),
            key_index(s@, pid, 0) == key_index(s@, pid, i as int),
        decreases s.len() - i,
    {
        i = i + 1;
    }
    i
}

pub(crate) fn find_key<V>(s: &Vec<(String, V)>, key: &str) -> (r: usize)
    ensures
        r == key_index(keyed_view(s@), key@, 0),
{
    let ghost t = keyed_view(s@);
    let mut i: usize = 0;
    while i < s.len() && !str_eq(s[i].0.as_str(), key)
        invariant
            i <= s@.len(),
            t == keyed_view(s@),
            t.len() == s@.len(),
            key_index(t, key@, 0) == key_index(t, key@, i as int),
        decreases s.len() - i,
    {
        assert(t[i as int].0 == s@[i as int].0@);
        i = i + 1;
    }
    if i < s.len() {
        assert(t[i as int].0 == s@[i as int].0@);
    }
    i
}

pub(crate) fn upsert_key<V: Copy>(s: &mut Vec<(String, V)>, key: String, v: V)
    ensures
        keyed_view(final(s)@) == upsert(keyed_view(old(s)@), key@, v),
{
    let ghost t = keyed_view(s@);
    let i = find_key(s, key.as_str());
    let ghost kv = key@;
    if i < s.len() {
        s.set(i, (key, v));
        assert(keyed_view(s@) =~= t.update(i as int, (kv, v)));
    } else {
        s.push((key, v));
        assert(keyed_view(s@) =~= t.push((kv, v)));
    }
}

impl AnomalyTracker {
    /// A tracker that has seen nothing yet.
    pub fn new() -> (r: AnomalyTracker)
        ensures
            r.wf(),
            r@.processes == Seq::<(u32, ProcessHistory)>::empty(),
            r@.respawns == Seq::<(Seq<char>, RespawnState)>::empty(),
            r@.scripts == Seq::<(Seq<char>, ScriptState)>::empty(),
    {
        let r = AnomalyTracker {
            process_history: Vec::new(),
            respawn_history: Vec::new(),
            script_history: Vec::new(),
        };
        assert(r@.respawns =~= Seq::<(Seq<char>, RespawnState)>::empty());
        assert(r@.scripts =~= Seq::<(Seq<char>, ScriptState)>::empty());
        r
    }

    /// No table records a key twice.
    pub open spec fn wf(&self) -> bool {
        &&& keys_distinct(self@.processes)
        &&& keys_distinct(self@.respawns)
        &&& keys_distinct(self@.scripts)
    }

    /// The memory bits recorded for `pid` in the previous snapshot (0, the
    /// bits of `0.0`, when there is none): what the memory-growth comparison
    /// of the next snapshot starts from.
    pub fn previous_memory_bits(&self, pid: u32) -> (r: u32)
        ensures
            r == match lookup(self@.processes, pid) {
                Some(h) => h.last_memory_mb_bits,
                None => 0,
            },
    {
        let i = find_pid(&self.process_history, pid);
        if i < self.process_history.len() {
            self.process_history[i].1.last_memory_mb_bits
        } else {
            0
        }
    }

    /// Counts this snapshot of a process into its streaks.
    pub(crate) fn record_process(&mut self, p: &ProcessObservation) -> (h: ProcessHistory)
        requires
            old(self).wf(),
        ensures
            final(self).wf(),
            h == history_after(lookup(old(self)@.processes, p.pid), p@),
            final(self)@.processes == upsert(old(self)@.processes, p.pid, h),
            final(self)@.respawns == old(self)@.respawns,
            final(self)@.scripts == old(self)@.scripts,
    {
        let ghost t = self@.processes;
        let i = find_pid(&self.process_history, p.pid);
        let prev = if i < self.process_history.len() {
            self.process_history[i].1
        } else {
            ProcessHistory {
                last_memory_mb_bits: 0,
                high_cpu_streak: 0,
                memory_growth_streak: 0,
                aggressive_write_streak: 0,
            }
        };
        let h = ProcessHistory {
            last_memory_mb_bits: p.memory_mb_bits,
            high_cpu_streak: if p.cpu_high {
                sat_inc_exec(prev.high_cpu_streak)
            } else {
                0
            },
            memory_growth_streak: if p.memory_grew {
                sat_inc_exec(prev.memory_growth_streak)
            } else {
                0
            },
            aggressive_write_streak: if p.write_aggressive {
                sat_inc_exec(prev.aggressive_write_streak)
            } else {
                0
            },
        };
        if i < self.process_history.len() {
            self.process_history.set(i, (p.pid, h));
        } else {
            self.process_history.push((p.pid, h));
        }
        proof {
            lemma_upsert_distinct(t, p.pid, h);
        }
        h
    }

    /// Counts a sighting of the executable of a process; its score when it
    /// keeps coming back under new PIDs within the window.
    pub(crate) fn detect_respawn(&mut self, p: &ProcessObservation, now: Timestamp, window: u64, count: u8) -> (r:
        Option<u16>)
        requires
            old(self).wf(),
        ensures
            final(self).wf(),
            r == respawn_score(old(self)@.respawns, p@, now, window, count),
            final(self)@.respawns == respawns_after(old(self)@.respawns, p@, now, window),
            final(self)@.processes == old(self)@.processes,
            final(self)@.scripts == old(self)@.scripts,
    {
        let key = if p.exe_path.as_str().unicode_len() > 0 {
            to_lower(p.exe_path.as_str())
        } else {
            to_lower(p.name.as_str())
        };
        if key.as_str().unicode_len() == 0 {
            return None;
        }
        let ghost t = self@.respawns;
        let i = find_key(&self.respawn_history, key.as_str());
        proof {
            lemma_key_index(t, key@, 0);
        }
        let prev = if i < self.respawn_history.len() {
            assert(t[i as int].1 == self.respawn_history@[i as int].1);
            self.respawn_history[i].1
        } else {
            RespawnState { last_pid: p.pid, last_seen: now, rapid_respawns: 0 }
        };
        let within = is_within_window(now, prev.last_seen, window);
        let rapid: u8 = if prev.last_pid != p.pid && within {
            sat_inc_exec(prev.rapid_respawns)
        } else if !within {
            0
        } else {
            prev.rapid_respawns
        };
        let st = RespawnState { last_pid: p.pid, last_seen: now, rapid_respawns: rapid };
        let ghost kv = key@;
        upsert_key(&mut self.respawn_history, key, st);
        proof {
            lemma_upsert_distinct(t, kv, st);
        }
        if rapid >= count {
            Some(58 + rapid as u16 * 6)
        } else {
            None
        }
    }

    /// Counts a sighting of a script invocation; its score when it repeats
    /// within the window often enough.
    pub(crate) fn detect_repetitive_script(&mut self, p: &ProcessObservation, now: Timestamp, window: u64, count: u8) -> (r:
        Option<u16>)
        requires
            old(self).wf(),
        ensures
            final(self).wf(),
            r == script_score(old(self)@.scripts, p@, now, window, count),
            final(self)@.scripts == scripts_after(old(self)@.scripts, p@, now, window),
            final(self)@.processes == old(self)@.processes,
            final(self)@.respawns == old(self)@.respawns,
    {
        let cmd: Option<&str> = match &p.command_line {
            Some(c) => Some(c.as_str()),
            None => None,
        };
        if !looks_like_script_engine(p.name.as_str(), cmd) {
            return None;
        }
        let signature = match normalize_script_signature(p.name.as_str(), &p.command_line) {
            Some(s) => s,
            None => {
                return None;
            },
        };
        let ghost t = self@.scripts;
        let i = find_key(&self.script_history, signature.as_str());
        proof {
            lemma_key_index(t, signature@, 0);
        }
        let prev = if i < self.script_history.len() {
            assert(t[i as int].1 == self.script_history@[i as int].1);
            self.script_history[i].1
        } else {
            ScriptState { last_seen: now, repeats: 0 }
        };
        let repeats: u8 = if is_within_window(now, prev.last_seen, window) {
            sat_inc_exec(prev.repeats)
        } else {
            1
        };
        let st = ScriptState { last_seen: now, repeats };
        let ghost kv = signature@;
        upsert_key(&mut self.script_history, signature, st);
        proof {
            lemma_upsert_distinct(t, kv, st);
        }
        if repeats >= count {
            Some(54 + repeats as u16 * 4)
        } else {
            None
        }
    }
}

/// The views of the processes of a snapshot.
pub open spec fn observations_view(s: Seq<ProcessObservation>) -> Seq<ProcessObservationView> {
    s.map_values(|p: ProcessObservation| p@)
}

/// Some process of the snapshot has this PID.
pub open spec fn observed_pid(ps: Seq<ProcessObservationView>, pid: u32) -> bool {
    exists|k: int| 0 <= k < ps.len() && (#[trigger] ps[k]).pid == pid
}

fn has_pid(ps: &[ProcessObservation], pid: u32) -> (r: bool)
    ensures
        r == observed_pid(observations_view(ps@), pid),
{
    let ghost v = observations_view(ps@);
    let mut found = false;
    let mut i: usize = 0;
    while i < ps.len() && !found
        invariant
            i <= ps@.len(),
            v == observations_view(ps@),
            v.len() == ps@.len(),
            found == (exists|k: int| 0 <= k < i && (#[trigger] v[k]).pid == pid),
        decreases ps.len() - i + (if found { 0int } else { 1int }),
    {
        if ps[i].pid == pid {
            assert(v[i as int].pid == pid);
            found = true;
        }
        i = i + 1;
    }
    found
}

impl AnomalyTracker {
    /// Forgets the streaks of the PIDs that are no longer running.
    pub(crate) fn retain_observed(&mut self, ps: &[ProcessObservation])
        requires
            old(self).wf(),
        ensures
            final(self).wf(),
            final(self)@.processes == keep(
                old(self)@.processes,
                |e: (u32, ProcessHistory)| observed_pid(observations_view(ps@), e.0),
            ),
            final(self)@.respawns == old(self)@.respawns,
            final(self)@.scripts == old(self)@.scripts,
    {
        let ghost pred = |e: (u32, ProcessHistory)| observed_pid(observations_view(ps@), e.0);
        let ghost old_t = self@.processes;
        let mut out: Vec<(u32, ProcessHistory)> = Vec::new();
        let mut i: usize = 0;
        while i < self.process_history.len()
            invariant
                i <= self.process_history@.len(),
                old_t == self.process_history@,
                pred == (|e: (u32, ProcessHistory)| observed_pid(observations_view(ps@), e.0)),
                out@ == keep(old_t.subrange(0, i as int), pred),
            decreases self.process_history.len() - i,
        {
            let e = self.process_history[i];
            proof {
                let pre = old_t.subrange(0, i + 1);
                assert(pre.drop_last() =~= old_t.subrange(0, i as int));
                assert(pre.last() == e);
            }
            if has_pid(ps, e.0) {
                out.push(e);
            } else {
                assert(out@ =~= out@ + Seq::<(u32, ProcessHistory)>::empty());
            }
            i = i + 1;
        }
        assert(old_t.subrange(0, old_t.len() as int) =~= old_t);
        proof {
            crate::tracker::lemma_keep_distinct(old_t, pred);
        }
        self.process_history = out;
    }

    /// Forgets executables and script invocations not seen within the window.
    pub(crate) fn forget_stale(&mut self, now: Timestamp, window: u64)
        requires
            old(self).wf(),
        ensures
            final(self).wf(),
            final(self)@.processes == old(self)@.processes,
            final(self)@.respawns == keep(
                old(self)@.respawns,
                |e: (Seq<char>, RespawnState)| within_window(now, e.1.last_seen, window),
            ),
            final(self)@.scripts == keep(
                old(self)@.scripts,
                |e: (Seq<char>, ScriptState)| within_window(now, e.1.last_seen, window),
            ),
    {
        let ghost rpred = |e: (Seq<char>, RespawnState)| within_window(now, e.1.last_seen, window);
        let ghost old_r = self@.respawns;
        let mut out_r: Vec<(String, RespawnState)> = Vec::new();
        let mut i: usize = 0;
        while i < self.respawn_history.len()
            invariant
                i <= self.respawn_history@.len(),
                old_r == keyed_view(self.respawn_history@),
                old_r.len() == self.respawn_history@.len(),
                rpred == (|e: (Seq<char>, RespawnState)| within_window(now, e.1.last_seen, window)),
                keyed_view(out_r@) == keep(old_r.subrange(0, i as int), rpred),
            decreases self.respawn_history.len() - i,
        {
            let st = self.respawn_history[i].1;
            proof {
                let pre = old_r.subrange(0, i + 1);
                assert(pre.drop_last() =~= old_r.subrange(0, i as int));
                assert(pre.last() == old_r[i as int]);
                assert(old_r[i as int].1 == st);
            }
            let ghost before = keyed_view(out_r@);
            if is_within_window(now, st.last_seen, window) {
                let k = self.respawn_history[i].0.clone();
                out_r.push((k, st));
                assert(keyed_view(out_r@) =~= before + seq![old_r[i as int]]);
            } else {
                assert(keyed_view(out_r@) =~= before + Seq::<(Seq<char>, RespawnState)>::empty());
            }
            i = i + 1;
        }
        assert(old_r.subrange(0, old_r.len() as int) =~= old_r);
        let ghost spred = |e: (Seq<char>, ScriptState)| within_window(now, e.1.last_seen, window);
        let ghost old_s = self@.scripts;
        let mut out_s: Vec<(String, ScriptState)> = Vec::new();
        let mut j: usize = 0;
        while j < self.script_history.len()
            invariant
                j <= self.script_history@.len(),
                old_s == keyed_view(self.script_history@),
                old_s.len() == self.script_history@.len(),
                spred == (|e: (Seq<char>, ScriptState)| within_window(now, e.1.last_seen, window)),
                keyed_view(out_s@) == keep(old_s.subrange(0, j as int), spred),
            decreases self.script_history.len() - j,
        {
            let st = self.script_history[j].1;
            proof {
                let pre = old_s.subrange(0, j + 1);
                assert(pre.drop_last() =~= old_s.subrange(0, j as int));
                assert(pre.last() == old_s[j as int]);
                assert(old_s[j as int].1 == st);
            }
            let ghost before = keyed_view(out_s@);
            if is_within_window(now, st.last_seen, window) {
                let k = self.script_history[j].0.clone();
                out_s.push((k, st));
                assert(keyed_view(out_s@) =~= before + seq![old_s[j as int]]);
            } else {
                assert(keyed_view(out_s@) =~= before + Seq::<(Seq<char>, ScriptState)>::empty());
            }
            j = j + 1;
        }
        assert(old_s.subrange(0, old_s.len() as int) =~= old_s);
        proof {
            lemma_keep_distinct(old_r, rpred);
            lemma_keep_distinct(old_s, spred);
        }
        self.respawn_history = out_r;
        self.script_history = out_s;
    }
}

} // verus!
