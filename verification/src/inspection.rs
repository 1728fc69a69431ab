//! The decisions an inspection round takes once the data is collected:
//! autostart entries against their baseline, network devices against the
//! known network, which processes may be terminated, which command lines are
//! worth asking for, how the change events join the anomalies, the state of
//! the precision mode, and how the agent's health and the last trace analysis
//! reach the alert board.

use crate::anomaly::{persistence_change_event, persistence_change_event_spec};
use crate::baseline::{diff_surface_spec, items_view};
use crate::detection::{event_less, opt_seq, sort_events};
use crate::models::{
    evidence_view, opt_view, strings_view, AnomalyEvent, AnomalyEventView, PersistenceChange,
    PersistenceEntry, PersistenceEntryView, Timestamp, WatchedItem, WatchedItemView,
};
use crate::baseline::{surface_change_event, surface_change_event_spec, SurfaceSpec};
use crate::models::{Alert, AlertView, AgentHealth, AgentStatus, PrecisionStatus, Severity, severity_rank, TraceAnalysisSummary, NetworkDevice, NetworkDeviceView, NetworkScan, NetworkScanView};
use crate::netscan::{
    classified, classify_device, count_devices, device_from_item_spec, device_from_watch_item, device_key,
    device_key_spec, devices_view, new_device_event, new_device_event_spec, PACK_SEP,
};
use crate::text::{chars_of, concat2, concat_all, contains, join_all, lower, lower_vec, owned, starts_with, str_eq, to_lower, vec_has, vec_starts};
use crate::order::stable_sort;
use crate::tracker::{key_index, lemma_key_index, lookup, upsert, keys_distinct, lemma_upsert_distinct, lemma_keep_distinct};
use crate::tracker::keep;
use vstd::prelude::*;

verus! {

// ---------------------------------------------------------------------------
// Autostart entries against their baseline
// ---------------------------------------------------------------------------

/// Stable identity of an autostart entry over time: kind, location and name,
/// packed with the unit separator. The command is left out on purpose, so a
/// new command at the same place is a modification.
pub open spec fn persistence_entry_key_spec(e: PersistenceEntryView) -> Seq<char> {
    e.entry_kind + seq![PACK_SEP] + e.location + seq![PACK_SEP] + e.name
}

/// Stable identity of an autostart entry over time.
pub fn persistence_entry_key(entry: &PersistenceEntry) -> (r: String)
    ensures
        r@ == persistence_entry_key_spec(entry@),
{
    let sep = crate::text::string_from_chars(&[PACK_SEP]);
    let r = join_all(&[entry.entry_kind.as_str(), sep.as_str(), entry.location.as_str(), sep.as_str(), entry.name.as_str()]);
    proof {
        reveal_with_fuel(concat_all, 6);
    }
    assert(r@ =~= persistence_entry_key_spec(entry@));
    r
}

/// The views of a list of autostart entries.
pub open spec fn entries_view(v: Seq<PersistenceEntry>) -> Seq<PersistenceEntryView> {
    v.map_values(|e: PersistenceEntry| e@)
}

/// Index of the first baseline entry at or after `from` with this key, or the length.
pub open spec fn entry_index(b: Seq<PersistenceEntryView>, key: Seq<char>, from: int) -> int
    decreases b.len() - from,
{
    if from < 0 || from >= b.len() {
        b.len() as int
    } else if persistence_entry_key_spec(b[from]) == key {
        from
    } else {
        entry_index(b, key, from + 1)
    }
}

/// An entry marked against the baseline: new when its key is not there,
/// modified when the first baseline entry with its key has another command.
pub open spec fn marked_entry(b: Seq<PersistenceEntryView>, e: PersistenceEntryView) -> PersistenceEntryView {
    let i = entry_index(b, persistence_entry_key_spec(e), 0);
    PersistenceEntryView {
        change_status: if i >= b.len() {
            PersistenceChange::Added
        } else if b[i].command != e.command {
            PersistenceChange::Modified
        } else {
            PersistenceChange::Unchanged
        },
        ..e
    }
}

/// Some entry has this key.
pub open spec fn has_entry_key(es: Seq<PersistenceEntryView>, key: Seq<char>) -> bool {
    exists|k: int| 0 <= k < es.len() && persistence_entry_key_spec(#[trigger] es[k]) == key
}

/// A baseline entry that is gone, marked removed.
pub open spec fn gone_entry(x: PersistenceEntryView) -> PersistenceEntryView {
    PersistenceEntryView {
        change_status: PersistenceChange::Removed,
        note: "Estaba en la baseline y ya no aparece."@,
        ..x
    }
}

/// Whether there was a baseline to compare with, and the entries afterwards:
/// each marked, then the baseline entries that are gone.
pub open spec fn diff_persistence_spec(b: Seq<PersistenceEntryView>, es: Seq<PersistenceEntryView>) -> (bool, Seq<PersistenceEntryView>) {
    if b.len() == 0 {
        (false, es)
    } else {
        (
            true,
            es.map_values(|e: PersistenceEntryView| marked_entry(b, e)) + keep(
                b,
                |x: PersistenceEntryView| !has_entry_key(es, persistence_entry_key_spec(x)),
            ).map_values(|x: PersistenceEntryView| gone_entry(x)),
        )
    }
}

fn copy_entry(e: &PersistenceEntry, status: PersistenceChange, note: Option<&str>) -> (r: PersistenceEntry)
    ensures
        r@ == (PersistenceEntryView {
            change_status: status,
            note: match note {
                Some(n) => n@,
                None => e@.note,
            },
            ..e@
        }),
{
    PersistenceEntry {
        entry_kind: e.entry_kind.clone(),
        location: e.location.clone(),
        name: e.name.clone(),
        command: e.command.clone(),
        target_path: crate::models::clone_opt(&e.target_path),
        exists_on_disk: e.exists_on_disk,
        severity: e.severity,
        note: match note {
            Some(n) => owned(n),
            None => e.note.clone(),
        },
        change_status: status,
    }
}

fn entry_status(baseline: &[PersistenceEntry], e: &PersistenceEntry) -> (r: PersistenceChange)
    ensures
        r == marked_entry(entries_view(baseline@), e@).change_status,
{
    let ghost b = entries_view(baseline@);
    let key = persistence_entry_key(e);
    let mut i: usize = 0;
    while i < baseline.len() && !str_eq(persistence_entry_key(&baseline[i]).as_str(), key.as_str())
        invariant
            i <= baseline@.len(),
            b == entries_view(baseline@),
            b.len() == baseline@.len(),
            key@ == persistence_entry_key_spec(e@),
            entry_index(b, key@, 0) == entry_index(b, key@, i as int),
        decreases baseline.len() - i,
    {
        assert(b[i as int] == baseline@[i as int]@);
        i = i + 1;
    }
    if i >= baseline.len() {
        PersistenceChange::Added
    } else {
        assert(b[i as int] == baseline@[i as int]@);
        if !str_eq(baseline[i].command.as_str(), e.command.as_str()) {
            PersistenceChange::Modified
        } else {
            PersistenceChange::Unchanged
        }
    }
}

fn any_entry_key(es: &Vec<PersistenceEntry>, key: &str) -> (r: bool)
    ensures
        r == has_entry_key(entries_view(es@), key@),
{
    let ghost v = entries_view(es@);
    let mut found = false;
    let mut i: usize = 0;
    while i < es.len() && !found
        invariant
            i <= es@.len(),
            v == entries_view(es@),
            v.len() == es@.len(),
            found == (exists|k: int| 0 <= k < i && persistence_entry_key_spec(#[trigger] v[k]) == key@),
        decreases es.len() - i + (if found { 0int } else { 1int }),
    {
        assert(v[i as int] == es@[i as int]@);
        if str_eq(persistence_entry_key(&es[i]).as_str(), key) {
            found = true;
        }
        i = i + 1;
    }
    found
}

/// Marks the autostart entries against their baseline and appends the
/// baseline entries that are gone, marked removed. With an empty baseline
/// (the first run) nothing changes and the result is `false`: the caller then
/// keeps the entries as the baseline. The baseline is meant to hold each key
/// once; should a key occur twice, the first entry with it is compared.
pub fn diff_persistence(baseline: &[PersistenceEntry], entries: &mut Vec<PersistenceEntry>) -> (r: bool)
    ensures
        (r, entries_view(final(entries)@)) == diff_persistence_spec(entries_view(baseline@), entries_view(old(entries)@)),
{
    if baseline.len() == 0 {
        return false;
    }
    let ghost b = entries_view(baseline@);
    let ghost orig = entries_view(entries@);
    let mut marked: Vec<PersistenceEntry> = Vec::new();
    let mut i: usize = 0;
    while i < entries.len()
        invariant
            i <= entries@.len(),
            b == entries_view(baseline@),
            orig == entries_view(entries@),
            orig.len() == entries@.len(),
            marked@.len() == i,
            forall|m: int| 0 <= m < i ==> (#[trigger] marked@[m])@ == marked_entry(b, orig[m]),
        decreases entries.len() - i,
    {
        let status = entry_status(baseline, &entries[i]);
        marked.push(copy_entry(&entries[i], status, None));
        i = i + 1;
    }
    let ghost pred = |x: PersistenceEntryView| !has_entry_key(orig, persistence_entry_key_spec(x));
    let mut removed: Vec<PersistenceEntry> = Vec::new();
    let mut j: usize = 0;
    while j < baseline.len()
        invariant
            j <= baseline@.len(),
            b == entries_view(baseline@),
            b.len() == baseline@.len(),
            orig == entries_view(entries@),
            pred == (|x: PersistenceEntryView| !has_entry_key(orig, persistence_entry_key_spec(x))),
            entries_view(removed@) == keep(b.subrange(0, j as int), pred).map_values(
                |x: PersistenceEntryView| gone_entry(x),
            ),
        decreases baseline.len() - j,
    {
        proof {
            let pre = b.subrange(0, j + 1);
            assert(pre.drop_last() =~= b.subrange(0, j as int));
            assert(pre.last() == baseline@[j as int]@);
        }
        let ghost before = entries_view(removed@);
        let key = persistence_entry_key(&baseline[j]);
        if !any_entry_key(entries, key.as_str()) {
            let gone = copy_entry(&baseline[j], PersistenceChange::Removed, Some("Estaba en la baseline y ya no aparece."));
            let ghost gv = gone@;
            removed.push(gone);
            assert(entries_view(removed@) =~= before.push(gv));
            assert(keep(b.subrange(0, j + 1), pred) == keep(b.subrange(0, j as int), pred).push(b[j as int]));
            assert(entries_view(removed@) =~= keep(b.subrange(0, j + 1), pred).map_values(
                |x: PersistenceEntryView| gone_entry(x),
            ));
        } else {
            assert(keep(b.subrange(0, j + 1), pred) =~= keep(b.subrange(0, j as int), pred));
        }
        j = j + 1;
    }
    assert(b.subrange(0, b.len() as int) =~= b);
    assert(entries_view(marked@) =~= orig.map_values(|e: PersistenceEntryView| marked_entry(b, e)));
    marked.append(&mut removed);
    *entries = marked;
    assert(entries_view(entries@) =~= orig.map_values(|e: PersistenceEntryView| marked_entry(b, e)) + keep(
        b,
        pred,
    ).map_values(|x: PersistenceEntryView| gone_entry(x)));
    true
}

/// The change events of the entries, in order (unchanged entries raise none).
pub open spec fn change_events_of(at: Timestamp, es: Seq<PersistenceEntryView>) -> Seq<AnomalyEventView>
    decreases es.len(),
{
    if es.len() == 0 {
        Seq::empty()
    } else {
        change_events_of(at, es.drop_last()) + if es.last().change_status != PersistenceChange::Unchanged {
            opt_seq(persistence_change_event_spec(at, es.last()))
        } else {
            Seq::empty()
        }
    }
}

/// The events of the autostart changes: none without a previous baseline or
/// when autostart is not watched; otherwise one per changed entry.
pub fn persistence_change_events(
    detected_at: Timestamp,
    entries: &[PersistenceEntry],
    had_baseline: bool,
    watch_persistence: bool,
) -> (r: Vec<AnomalyEvent>)
    ensures
        crate::anomaly::events_view(r@) == (if !had_baseline || !watch_persistence {
            Seq::<AnomalyEventView>::empty()
        } else {
            change_events_of(detected_at, entries_view(entries@))
        }),
{
    let mut out: Vec<AnomalyEvent> = Vec::new();
    if !had_baseline || !watch_persistence {
        assert(crate::anomaly::events_view(out@) =~= Seq::<AnomalyEventView>::empty());
        return out;
    }
    let ghost es = entries_view(entries@);
    let mut i: usize = 0;
    assert(crate::anomaly::events_view(out@) =~= change_events_of(detected_at, es.subrange(0, 0)));
    while i < entries.len()
        invariant
            i <= entries@.len(),
            es == entries_view(entries@),
            es.len() == entries@.len(),
            crate::anomaly::events_view(out@) == change_events_of(detected_at, es.subrange(0, i as int)),
        decreases entries.len() - i,
    {
        proof {
            let pre = es.subrange(0, i + 1);
            assert(pre.drop_last() =~= es.subrange(0, i as int));
            assert(pre.last() == entries@[i as int]@);
        }
        let ghost before = crate::anomaly::events_view(out@);
        if entries[i].change_status != PersistenceChange::Unchanged {
            match persistence_change_event(detected_at, &entries[i]) {
                Some(ev) => {
                    let ghost evv = ev@;
                    out.push(ev);
                    assert(crate::anomaly::events_view(out@) =~= before + seq![evv]);
                },
                None => {
                    assert(crate::anomaly::events_view(out@) =~= before + Seq::<AnomalyEventView>::empty());
                },
            }
        } else {
            assert(crate::anomaly::events_view(out@) =~= before + Seq::<AnomalyEventView>::empty());
        }
        i = i + 1;
    }
    assert(es.subrange(0, es.len() as int) =~= es);
    out
}

// ---------------------------------------------------------------------------
// Watched surfaces and the known network
// ---------------------------------------------------------------------------

/// The change events of the items of a surface, in order.
pub open spec fn surface_events_of(at: Timestamp, spec: SurfaceSpec, items: Seq<WatchedItemView>) -> Seq<AnomalyEventView>
    decreases items.len(),
{
    if items.len() == 0 {
        Seq::empty()
    } else {
        surface_events_of(at, spec, items.drop_last()) + if items.last().change_status
            != PersistenceChange::Unchanged {
            opt_seq(surface_change_event_spec(at, spec, items.last()))
        } else {
            Seq::empty()
        }
    }
}

/// The events of the changes of a watched surface: none without a previous
/// baseline; otherwise one per changed item.
pub fn surface_change_events(
    detected_at: Timestamp,
    spec: &SurfaceSpec,
    items: &[WatchedItem],
    had_baseline: bool,
) -> (r: Vec<AnomalyEvent>)
    ensures
        crate::anomaly::events_view(r@) == (if !had_baseline {
            Seq::<AnomalyEventView>::empty()
        } else {
            surface_events_of(detected_at, *spec, items_view(items@))
        }),
{
    let mut out: Vec<AnomalyEvent> = Vec::new();
    if !had_baseline {
        assert(crate::anomaly::events_view(out@) =~= Seq::<AnomalyEventView>::empty());
        return out;
    }
    let ghost its = items_view(items@);
    let mut i: usize = 0;
    assert(crate::anomaly::events_view(out@) =~= surface_events_of(detected_at, *spec, its.subrange(0, 0)));
    while i < items.len()
        invariant
            i <= items@.len(),
            its == items_view(items@),
            its.len() == items@.len(),
            crate::anomaly::events_view(out@) == surface_events_of(detected_at, *spec, its.subrange(0, i as int)),
        decreases items.len() - i,
    {
        proof {
            let pre = its.subrange(0, i + 1);
            assert(pre.drop_last() =~= its.subrange(0, i as int));
            assert(pre.last() == items@[i as int]@);
        }
        let ghost before = crate::anomaly::events_view(out@);
        if items[i].change_status != PersistenceChange::Unchanged {
            match surface_change_event(detected_at, spec, &items[i]) {
                Some(ev) => {
                    let ghost evv = ev@;
                    out.push(ev);
                    assert(crate::anomaly::events_view(out@) =~= before + seq![evv]);
                },
                None => {
                    assert(crate::anomaly::events_view(out@) =~= before + Seq::<AnomalyEventView>::empty());
                },
            }
        } else {
            assert(crate::anomaly::events_view(out@) =~= before + Seq::<AnomalyEventView>::empty());
        }
        i = i + 1;
    }
    assert(its.subrange(0, its.len() as int) =~= its);
    out
}

/// The change status the last item with this key was given, if any.
pub open spec fn last_status(items: Seq<WatchedItemView>, key: Seq<char>) -> Option<PersistenceChange>
    decreases items.len(),
{
    if items.len() == 0 {
        None
    } else if items.last().key == key {
        Some(items.last().change_status)
    } else {
        last_status(items.drop_last(), key)
    }
}

/// A device of the scan once its item went through the baseline engine:
/// its change status taken from the item, then classified again.
pub open spec fn annotated_device(items: Seq<WatchedItemView>, d: NetworkDeviceView) -> NetworkDeviceView {
    classified(
        match last_status(items, device_key_spec(d)) {
            Some(s) => NetworkDeviceView { change_status: s, ..d },
            None => d,
        },
    )
}

/// Some device of the list has this key.
pub open spec fn has_device_key(ds: Seq<NetworkDeviceView>, key: Seq<char>) -> bool {
    exists|k: int| 0 <= k < ds.len() && device_key_spec(#[trigger] ds[k]) == key
}

/// The scan annotated with the outcome of the baseline engine: every device
/// with its change status, a row for every removed item no device stands
/// for, and the counts taken again.
pub open spec fn annotate_scan_spec(scan: NetworkScanView, items: Seq<WatchedItemView>) -> NetworkScanView {
    let present = scan.devices.map_values(|d: NetworkDeviceView| annotated_device(items, d));
    let devices = present + keep(
        items,
        |it: WatchedItemView| it.change_status == PersistenceChange::Removed && !has_device_key(present, it.key),
    ).map_values(|it: WatchedItemView| device_from_item_spec(it));
    NetworkScanView {
        devices,
        total_devices: count_devices(devices, |d: NetworkDeviceView| !d.is_self) as usize,
        new_devices: count_devices(devices, |d: NetworkDeviceView| d.change_status == PersistenceChange::Added)
            as usize,
        ..scan
    }
}

fn status_for(items: &[WatchedItem], key: &str) -> (r: Option<PersistenceChange>)
    ensures
        r == last_status(items_view(items@), key@),
{
    let ghost its = items_view(items@);
    let mut found: Option<PersistenceChange> = None;
    let mut i: usize = 0;
    while i < items.len()
        invariant
            i <= items@.len(),
            its == items_view(items@),
            its.len() == items@.len(),
            found == last_status(its.subrange(0, i as int), key@),
        decreases items.len() - i,
    {
        proof {
            let pre = its.subrange(0, i + 1);
            assert(pre.drop_last() =~= its.subrange(0, i as int));
            assert(pre.last() == items@[i as int]@);
        }
        if str_eq(items[i].key.as_str(), key) {
            found = Some(items[i].change_status);
        }
        i = i + 1;
    }
    assert(its.subrange(0, its.len() as int) =~= its);
    found
}

fn any_device_key(ds: &Vec<NetworkDevice>, key: &str) -> (r: bool)
    ensures
        r == has_device_key(devices_view(ds@), key@),
{
    let ghost v = devices_view(ds@);
    let mut found = false;
    let mut i: usize = 0;
    while i < ds.len() && !found
        invariant
            i <= ds@.len(),
            v == devices_view(ds@),
            v.len() == ds@.len(),
            found == (exists|k: int| 0 <= k < i && device_key_spec(#[trigger] v[k]) == key@),
        decreases ds.len() - i + (if found { 0int } else { 1int }),
    {
        assert(v[i as int] == ds@[i as int]@);
        if str_eq(device_key(&ds[i]).as_str(), key) {
            found = true;
        }
        i = i + 1;
    }
    found
}

/// Carries the outcome of the baseline engine (the device items after
/// [`crate::baseline::diff_surface`]) back into the scan.
pub fn annotate_scan(scan: &mut NetworkScan, items: &[WatchedItem])
    ensures
        final(scan)@ == annotate_scan_spec(old(scan)@, items_view(items@)),
{
    let ghost its = items_view(items@);
    let ghost orig = devices_view(scan.devices@);
    let mut devices: Vec<NetworkDevice> = Vec::new();
    std::mem::swap(&mut devices, &mut scan.devices);
    let mut present: Vec<NetworkDevice> = Vec::new();
    while devices.len() > 0
        invariant
            its == items_view(items@),
            present@.len() + devices@.len() == orig.len(),
            devices_view(devices@) == orig.subrange(present@.len() as int, orig.len() as int),
            forall|m: int| 0 <= m < present@.len() ==> (#[trigger] present@[m])@ == annotated_device(its, orig[m]),
        decreases devices.len(),
    {
        let ghost before = devices@;
        let ghost k: int = present@.len() as int;
        let mut d = devices.remove(0);
        proof {
            assert(devices_view(before)[0] == orig[k as int]);
            assert forall|j: int| 0 <= j < devices@.len() implies #[trigger] devices_view(devices@)[j]
                == orig.subrange(k + 1, orig.len() as int)[j] by {
                assert(devices@[j] == before[j + 1]);
                assert(devices_view(before)[j + 1] == orig.subrange(k as int, orig.len() as int)[j + 1]);
            }
            assert(devices_view(devices@) =~= orig.subrange(k + 1, orig.len() as int));
        }
        let key = device_key(&d);
        match status_for(items, key.as_str()) {
            Some(s) => {
                d.change_status = s;
            },
            None => {},
        }
        classify_device(&mut d);
        present.push(d);
    }
    let ghost pv = orig.map_values(|d: NetworkDeviceView| annotated_device(its, d));
    assert(devices_view(present@) =~= pv);
    let ghost pred = |it: WatchedItemView| it.change_status == PersistenceChange::Removed && !has_device_key(pv, it.key);
    let mut extra: Vec<NetworkDevice> = Vec::new();
    let mut i: usize = 0;
    while i < items.len()
        invariant
            i <= items@.len(),
            its == items_view(items@),
            its.len() == items@.len(),
            devices_view(present@) == pv,
            pred == (|it: WatchedItemView| it.change_status == PersistenceChange::Removed && !has_device_key(pv, it.key)),
            devices_view(extra@) == keep(its.subrange(0, i as int), pred).map_values(
                |it: WatchedItemView| device_from_item_spec(it),
            ),
        decreases items.len() - i,
    {
        proof {
            let pre = its.subrange(0, i + 1);
            assert(pre.drop_last() =~= its.subrange(0, i as int));
            assert(pre.last() == items@[i as int]@);
        }
        let ghost before = devices_view(extra@);
        if items[i].change_status == PersistenceChange::Removed && !any_device_key(&present, items[i].key.as_str()) {
            let gone = device_from_watch_item(&items[i]);
            let ghost gv = gone@;
            extra.push(gone);
            assert(devices_view(extra@) =~= before.push(gv));
            assert(keep(its.subrange(0, i + 1), pred) == keep(its.subrange(0, i as int), pred).push(its[i as int]));
            assert(devices_view(extra@) =~= keep(its.subrange(0, i + 1), pred).map_values(
                |it: WatchedItemView| device_from_item_spec(it),
            ));
        } else {
            assert(keep(its.subrange(0, i + 1), pred) =~= keep(its.subrange(0, i as int), pred));
        }
        i = i + 1;
    }
    assert(its.subrange(0, its.len() as int) =~= its);
    let ghost ev = devices_view(extra@);
    present.append(&mut extra);
    let ghost want = annotate_scan_spec(old(scan)@, its);
    assert(devices_view(present@) =~= pv + ev);
    assert(devices_view(present@) =~= want.devices);
    scan.total_devices = crate::netscan::count_where(&present, true);
    scan.new_devices = crate::netscan::count_where(&present, false);
    scan.devices = present;
    assert(scan@.devices == want.devices);
}

/// The events of the devices new to the known network.
pub open spec fn network_events_of(at: Timestamp, ds: Seq<NetworkDeviceView>) -> Seq<AnomalyEventView>
    decreases ds.len(),
{
    if ds.len() == 0 {
        Seq::empty()
    } else {
        network_events_of(at, ds.drop_last()) + opt_seq(new_device_event_spec(at, ds.last()))
    }
}

/// The events of the devices new to the known network: none without a
/// previous baseline or when detection or device watching is off.
pub fn network_change_events(
    detected_at: Timestamp,
    devices: &[NetworkDevice],
    had_baseline: bool,
    detection_enabled: bool,
    watch_network_devices: bool,
) -> (r: Vec<AnomalyEvent>)
    ensures
        crate::anomaly::events_view(r@) == (if !had_baseline || !detection_enabled || !watch_network_devices {
            Seq::<AnomalyEventView>::empty()
        } else {
            network_events_of(detected_at, devices@.map_values(|d: NetworkDevice| d@))
        }),
{
    let mut out: Vec<AnomalyEvent> = Vec::new();
    if !had_baseline || !detection_enabled || !watch_network_devices {
        assert(crate::anomaly::events_view(out@) =~= Seq::<AnomalyEventView>::empty());
        return out;
    }
    let ghost ds = devices@.map_values(|d: NetworkDevice| d@);
    let mut i: usize = 0;
    assert(crate::anomaly::events_view(out@) =~= network_events_of(detected_at, ds.subrange(0, 0)));
    while i < devices.len()
        invariant
            i <= devices@.len(),
            ds == devices@.map_values(|d: NetworkDevice| d@),
            ds.len() == devices@.len(),
            crate::anomaly::events_view(out@) == network_events_of(detected_at, ds.subrange(0, i as int)),
        decreases devices.len() - i,
    {
        proof {
            let pre = ds.subrange(0, i + 1);
            assert(pre.drop_last() =~= ds.subrange(0, i as int));
            assert(pre.last() == devices@[i as int]@);
        }
        let ghost before = crate::anomaly::events_view(out@);
        match new_device_event(detected_at, &devices[i]) {
            Some(ev) => {
                let ghost evv = ev@;
                out.push(ev);
                assert(crate::anomaly::events_view(out@) =~= before + seq![evv]);
            },
            None => {
                assert(crate::anomaly::events_view(out@) =~= before + Seq::<AnomalyEventView>::empty());
            },
        }
        i = i + 1;
    }
    assert(ds.subrange(0, ds.len() as int) =~= ds);
    out
}

// ---------------------------------------------------------------------------
// Processes
// ---------------------------------------------------------------------------

/// Processes that are never terminated from the application.
pub open spec fn protected_process_names_spec() -> Seq<Seq<char>> {
    seq![
        "system"@,
        "registry"@,
        "smss.exe"@,
        "csrss.exe"@,
        "wininit.exe"@,
        "services.exe"@,
        "lsass.exe"@,
        "winlogon.exe"@,
        "svchost.exe"@,
        "fontdrvhost.exe"@,
        "dwm.exe"@,
        "memory compression"@,
    ]
}

/// Processes that are never terminated from the application.
pub fn protected_process_names() -> (r: Vec<String>)
    ensures
        strings_view(r@) == protected_process_names_spec(),
{
    let names = [
        "system",
        "registry",
        "smss.exe",
        "csrss.exe",
        "wininit.exe",
        "services.exe",
        "lsass.exe",
        "winlogon.exe",
        "svchost.exe",
        "fontdrvhost.exe",
        "dwm.exe",
        "memory compression",
    ];
    let mut out: Vec<String> = Vec::new();
    let mut i: usize = 0;
    while i < names.len()
        invariant
            i <= names@.len(),
            out@.len() == i,
            forall|m: int| 0 <= m < i ==> (#[trigger] out@[m])@ == names@[m]@,
        decreases names.len() - i,
    {
        out.push(owned(names[i]));
        i = i + 1;
    }
    assert(strings_view(out@) =~= protected_process_names_spec());
    out
}

/// A process the user may terminate: not the idle or system process, not
/// this application, not a protected name (compared in lower case) and not
/// a service host under `c:\windows\system32`.
pub open spec fn can_terminate_spec(pid: u32, name: Seq<char>, exe_path: Seq<char>, own_pid: u32, protected: Seq<Seq<char>>) -> bool {
    !(pid == 0 || pid == 4 || pid == own_pid) && !protected.contains(lower(name)) && !(starts_with(
        lower(exe_path),
        "c:\\windows\\system32"@,
    ) && contains(lower(name), "svchost"@))
}

/// Whether the user may terminate this process.
pub fn can_terminate_process(pid: u32, name: &str, exe_path: &str, own_pid: u32, protected: &[String]) -> (r: bool)
    ensures
        r == can_terminate_spec(pid, name@, exe_path@, own_pid, strings_view(protected@)),
{
    if pid == 0 || pid == 4 || pid == own_pid {
        return false;
    }
    let lower_name = to_lower(name);
    let ghost ps = strings_view(protected@);
    let mut i: usize = 0;
    while i < protected.len()
        invariant
            i <= protected@.len(),
            ps == strings_view(protected@),
            ps.len() == protected@.len(),
            lower_name@ == lower(name@),
            forall|k: int| 0 <= k < i ==> ps[k] != lower_name@,
        decreases protected.len() - i,
    {
        assert(ps[i as int] == protected@[i as int]@);
        if str_eq(protected[i].as_str(), lower_name.as_str()) {
            return false;
        }
        i = i + 1;
    }
    proof {
        if ps.contains(lower_name@) {
            let k = choose|k: int| 0 <= k < ps.len() && ps[k] == lower_name@;
        }
    }
    let lp = lower_vec(&chars_of(exe_path));
    let ln = chars_of(lower_name.as_str());
    !(vec_starts(&lp, "c:\\windows\\system32") && vec_has(&ln, "svchost"))
}

/// A process worth asking its command line for.
pub struct CmdlineCandidate {
    pub pid: u32,
    pub name: String,
    pub exe_path: String,
    pub severity: Severity,
    /// It writes more than 20 MB per interval, or its CPU is at least 70% of
    /// the sustained-CPU threshold (measured where the floats live).
    pub busy: bool,
}

/// The process is critical, busy, runs from a temp or downloads folder, or is
/// a script engine.
pub open spec fn wants_cmdline(pid: u32, name: Seq<char>, exe_path: Seq<char>, severity: Severity, busy: bool) -> bool {
    let ln = lower(name);
    let lp = lower(exe_path);
    severity == Severity::Critical || busy || contains(lp, "\\temp\\"@) || contains(lp, "\\downloads\\"@)
        || contains(ln, "powershell"@) || contains(ln, "cmd.exe"@) || contains(ln, "wscript"@) || contains(
        ln,
        "cscript"@,
    ) || contains(ln, "mshta"@) || contains(ln, "python"@)
}

/// The PIDs of the candidates worth asking for, in order.
pub open spec fn cmdline_pids_of(cs: Seq<CmdlineCandidate>) -> Seq<u32>
    decreases cs.len(),
{
    if cs.len() == 0 {
        Seq::empty()
    } else {
        cmdline_pids_of(cs.drop_last()) + if wants_cmdline(
            cs.last().pid,
            cs.last().name@,
            cs.last().exe_path@,
            cs.last().severity,
            cs.last().busy,
        ) {
            seq![cs.last().pid]
        } else {
            Seq::empty()
        }
    }
}

/// The first twelve processes (in the order given) worth asking their
/// command line for.
pub fn cmdline_candidates(rows: &[CmdlineCandidate]) -> (r: Vec<u32>)
    ensures
        r@ == crate::etl::take(cmdline_pids_of(rows@), 12),
{
    let mut out: Vec<u32> = Vec::new();
    let mut i: usize = 0;
    while i < rows.len()
        invariant
            i <= rows@.len(),
            out@ == cmdline_pids_of(rows@.subrange(0, i as int)),
        decreases rows.len() - i,
    {
        proof {
            let pre = rows@.subrange(0, i + 1);
            assert(pre.drop_last() =~= rows@.subrange(0, i as int));
            assert(pre.last() == rows@[i as int]);
        }
        let c = &rows[i];
        let ln = lower_vec(&chars_of(c.name.as_str()));
        let lp = lower_vec(&chars_of(c.exe_path.as_str()));
        let wanted = c.severity == Severity::Critical || c.busy || vec_has(&lp, "\\temp\\") || vec_has(
            &lp,
            "\\downloads\\",
        ) || vec_has(&ln, "powershell") || vec_has(&ln, "cmd.exe") || vec_has(&ln, "wscript") || vec_has(
            &ln,
            "cscript",
        ) || vec_has(&ln, "mshta") || vec_has(&ln, "python");
        if wanted {
            out.push(c.pid);
        } else {
            assert(out@ =~= out@ + Seq::<u32>::empty());
        }
        i = i + 1;
    }
    assert(rows@.subrange(0, rows@.len() as int) =~= rows@);
    out.truncate(12);
    out
}

/// Read and write totals of a process at the previous snapshot.
#[derive(Debug, Clone, Copy, PartialEq, Eq, Structural)]
pub struct IoTotals {
    pub read_total_bytes: u64,
    pub write_total_bytes: u64,
}

/// Disk totals per PID, to turn the running totals into per-interval deltas.
pub struct IoBaselines {
    entries: Vec<(u32, IoTotals)>,
}

impl View for IoBaselines {
    type V = Seq<(u32, IoTotals)>;

    closed spec fn view(&self) -> Seq<(u32, IoTotals)> {
        self.entries@
    }
}

/// `a - b`, stopping at zero.
pub open spec fn sat_sub(a: u64, b: u64) -> u64 {
    if a >= b {
        (a - b) as u64
    } else {
        0
    }
}

impl IoBaselines {
    /// No process recorded yet.
    pub fn new() -> (r: IoBaselines)
        ensures
            r@ == Seq::<(u32, IoTotals)>::empty(),
            r.wf(),
    {
        IoBaselines { entries: Vec::new() }
    }

    /// No PID is recorded twice.
    pub open spec fn wf(&self) -> bool {
        keys_distinct(self@)
    }

    /// Records the totals of a process and returns how much it read and wrote
    /// since its previous record (everything, the first time).
    pub fn record(&mut self, pid: u32, read_total: u64, write_total: u64) -> (r: (u64, u64))
        requires
            old(self).wf(),
        ensures
            final(self).wf(),
            ({
                let prev = match lookup(old(self)@, pid) {
                    Some(t) => t,
                    None => IoTotals { read_total_bytes: 0, write_total_bytes: 0 },
                };
                r == (sat_sub(read_total, prev.read_total_bytes), sat_sub(write_total, prev.write_total_bytes))
            }),
            final(self)@ == upsert(old(self)@, pid, IoTotals { read_total_bytes: read_total, write_total_bytes: write_total }),
    {
        let ghost t = self@;
        proof {
            lemma_key_index(t, pid, 0);
        }
        let mut i: usize = 0;
        while i < self.entries.len() && self.entries[i].0 != pid
            invariant
                i <= self.entries@.len(),
                t == self.entries@,
                key_index(t, pid, 0) == key_index(t, pid, i as int),
            decreases self.entries.len() - i,
        {
            i = i + 1;
        }
        let prev = if i < self.entries.len() {
            self.entries[i].1
        } else {
            IoTotals { read_total_bytes: 0, write_total_bytes: 0 }
        };
        let now = IoTotals { read_total_bytes: read_total, write_total_bytes: write_total };
        if i < self.entries.len() {
            self.entries.set(i, (pid, now));
        } else {
            self.entries.push((pid, now));
        }
        proof {
            lemma_upsert_distinct(t, pid, now);
        }
        let read = if read_total >= prev.read_total_bytes {
            read_total - prev.read_total_bytes
        } else {
            0
        };
        let write = if write_total >= prev.write_total_bytes {
            write_total - prev.write_total_bytes
        } else {
            0
        };
        (read, write)
    }

    /// Forgets the PIDs that are no longer running.
    pub fn retain_active(&mut self, active: &[u32])
        requires
            old(self).wf(),
        ensures
            final(self).wf(),
            final(self)@ == keep(old(self)@, |e: (u32, IoTotals)| active@.contains(e.0)),
    {
        let ghost pred = |e: (u32, IoTotals)| active@.contains(e.0);
        let ghost t = self@;
        let mut out: Vec<(u32, IoTotals)> = Vec::new();
        let mut i: usize = 0;
        while i < self.entries.len()
            invariant
                i <= self.entries@.len(),
                t == self.entries@,
                pred == (|e: (u32, IoTotals)| active@.contains(e.0)),
                out@ == keep(t.subrange(0, i as int), pred),
            decreases self.entries.len() - i,
        {
            let e = self.entries[i];
            proof {
                let pre = t.subrange(0, i + 1);
                assert(pre.drop_last() =~= t.subrange(0, i as int));
                assert(pre.last() == e);
            }
            let mut found = false;
            let mut j: usize = 0;
            while j < active.len() && !found
                invariant
                    j <= active@.len(),
                    found == (exists|k: int| 0 <= k < j && active@[k] == e.0),
                decreases active.len() - j + (if found { 0int } else { 1int }),
            {
                if active[j] == e.0 {
                    found = true;
                }
                j = j + 1;
            }
            proof {
                if active@.contains(e.0) {
                    let k = choose|k: int| 0 <= k < active@.len() && active@[k] == e.0;
                }
            }
            if found {
                out.push(e);
            } else {
                assert(out@ =~= out@ + Seq::<(u32, IoTotals)>::empty());
            }
            i = i + 1;
        }
        assert(t.subrange(0, t.len() as int) =~= t);
        proof {
            lemma_keep_distinct(t, pred);
        }
        self.entries = out;
    }
}

// ---------------------------------------------------------------------------
// Keeping incidents
// ---------------------------------------------------------------------------

/// An incident is kept unless the last one kept has the same fingerprint: a
/// situation that persists is not recorded again at every snapshot.
pub fn is_new_incident(last_fingerprint: Option<&str>, fingerprint: &str) -> (r: bool)
    ensures
        r == match last_fingerprint {
            Some(last) => last@ != fingerprint@,
            None => true,
        },
{
    match last_fingerprint {
        Some(last) => !str_eq(last, fingerprint),
        None => true,
    }
}

// ---------------------------------------------------------------------------
// Joining the change events
// ---------------------------------------------------------------------------

/// The anomalies with the change events appended and everything sorted
/// again, when there is any change event.
pub open spec fn merge_change_events_spec(anomalies: Seq<AnomalyEventView>, changes: Seq<AnomalyEventView>) -> Seq<AnomalyEventView> {
    if changes.len() == 0 {
        anomalies
    } else {
        stable_sort(anomalies + changes, |a: AnomalyEventView, b: AnomalyEventView| event_less(a, b))
    }
}

/// Adds the change events (autostart, services, network) to the anomalies and
/// sorts by severity, score and kind, so that a severe change is not cut
/// from the alerts.
pub fn merge_change_events(anomalies: Vec<AnomalyEvent>, changes: Vec<AnomalyEvent>) -> (r: Vec<AnomalyEvent>)
    ensures
        crate::anomaly::events_view(r@) == merge_change_events_spec(
            crate::anomaly::events_view(anomalies@),
            crate::anomaly::events_view(changes@),
        ),
{
    if changes.len() == 0 {
        return anomalies;
    }
    let ghost a = crate::anomaly::events_view(anomalies@);
    let ghost c = crate::anomaly::events_view(changes@);
    let mut all = anomalies;
    let mut more = changes;
    all.append(&mut more);
    assert(crate::anomaly::events_view(all@) =~= a + c);
    sort_events(all)
}

// ---------------------------------------------------------------------------
// Precision mode
// ---------------------------------------------------------------------------

/// The state of the precision mode, from which tools are available, the
/// folders and files in use, and (when WPR is available) what WPR reported
/// about its status (the text, or the error of asking it) and whether a
/// capture is running.
pub fn precision_status_from(
    wpr_available: bool,
    wpa_available: bool,
    tracerpt_available: bool,
    traces_directory: String,
    last_trace_path: Option<String>,
    last_analysis_path: Option<String>,
    wpr_status: Result<String, String>,
    wpr_recording: bool,
) -> (r: PrecisionStatus)
    ensures
        r.wpr_available == wpr_available,
        r.wpa_available == wpa_available,
        r.tracerpt_available == tracerpt_available,
        r.is_recording == (wpr_available && wpr_recording),
        r.recommended_profile@ == "GeneralProfile -filemode"@,
        r.traces_directory@ == traces_directory@,
        opt_view(r.last_trace_path) == opt_view(last_trace_path),
        opt_view(r.last_analysis_path) == opt_view(last_analysis_path),
        r.analyzer_label@ == (if !wpr_available {
            if tracerpt_available {
                "tracerpt"@
            } else {
                "sin motor ETL"@
            }
        } else if tracerpt_available {
            "tracerpt + heurísticas RootCause"@
        } else {
            "sin análisis local ETL"@
        }),
        r.status_detail@ == (if !wpr_available {
            "WPR no está instalado o no está en PATH"@
        } else {
            match wpr_status {
                Ok(t) => t@,
                Err(e) => "No se pudo consultar WPR: "@ + e@,
            }
        }),
        r.guidance@ == (if !wpr_available {
            "Instala Windows Performance Toolkit para activar captura ETW desde la app. El resumen ETL automático usa tracerpt cuando está disponible."@
        } else if wpr_recording {
            "Reproduce el problema real y detén la captura apenas aparezca la lentitud para evitar ETL enormes."@
        } else if tracerpt_available {
            "Puedes iniciar captura, detenerla y luego resumir el ETL desde la propia interfaz para obtener una primera lectura."@
        } else {
            "Puedes capturar ETL con WPR, pero para resumirlo dentro de la app conviene disponer también de tracerpt/WPT."@
        }),
{
    if !wpr_available {
        return PrecisionStatus {
            wpr_available,
            wpa_available,
            tracerpt_available,
            is_recording: false,
            recommended_profile: owned("GeneralProfile -filemode"),
            traces_directory,
            last_trace_path,
            last_analysis_path,
            analyzer_label: if tracerpt_available {
                owned("tracerpt")
            } else {
                owned("sin motor ETL")
            },
            status_detail: owned("WPR no está instalado o no está en PATH"),
            guidance: owned(
                "Instala Windows Performance Toolkit para activar captura ETW desde la app. El resumen ETL automático usa tracerpt cuando está disponible.",
            ),
        };
    }
    let status_detail = match wpr_status {
        Ok(t) => t,
        Err(e) => concat2("No se pudo consultar WPR: ", e.as_str()),
    };
    PrecisionStatus {
        wpr_available,
        wpa_available,
        tracerpt_available,
        is_recording: wpr_recording,
        recommended_profile: owned("GeneralProfile -filemode"),
        traces_directory,
        last_trace_path,
        last_analysis_path,
        analyzer_label: if tracerpt_available {
            owned("tracerpt + heurísticas RootCause")
        } else {
            owned("sin análisis local ETL")
        },
        status_detail,
        guidance: if wpr_recording {
            owned("Reproduce el problema real y detén la captura apenas aparezca la lentitud para evitar ETL enormes.")
        } else if tracerpt_available {
            owned(
                "Puedes iniciar captura, detenerla y luego resumir el ETL desde la propia interfaz para obtener una primera lectura.",
            )
        } else {
            owned(
                "Puedes capturar ETL con WPR, pero para resumirlo dentro de la app conviene disponer también de tracerpt/WPT.",
            )
        },
    }
}

// ---------------------------------------------------------------------------
// The alert board
// ---------------------------------------------------------------------------

/// The headline severity and reason of a snapshot and its alerts.
pub struct AlertBoard {
    pub primary_severity: Severity,
    pub primary_reason: String,
    pub alerts: Vec<Alert>,
}

pub struct AlertBoardView {
    pub primary_severity: Severity,
    pub primary_reason: Seq<char>,
    pub alerts: Seq<AlertView>,
}

impl View for AlertBoard {
    type V = AlertBoardView;

    open spec fn view(&self) -> AlertBoardView {
        AlertBoardView {
            primary_severity: self.primary_severity,
            primary_reason: self.primary_reason@,
            alerts: alerts_view(self.alerts@),
        }
    }
}

/// The views of a list of alerts.
pub open spec fn alerts_view(v: Seq<Alert>) -> Seq<AlertView> {
    v.map_values(|a: Alert| a@)
}

/// The board once the agent's own health is shown: a stable agent adds a
/// healthy alert at the end; a recovered or degraded agent raises the
/// headline to at least a warning and puts its alert first. Then the alerts
/// are cut to `max_alerts`.
pub open spec fn with_agent_health(b: AlertBoardView, h: crate::models::AgentHealthView, max_alerts: usize) -> AlertBoardView {
    let raised = severity_rank(b.primary_severity) < severity_rank(Severity::Warning);
    let next = match h.status {
        AgentStatus::Healthy => AlertBoardView {
            alerts: b.alerts.push(
                AlertView {
                    severity: Severity::Healthy,
                    title: "Salud del agente estable"@,
                    detail: h.summary,
                    pid: None,
                    path: None,
                    hint: "Heartbeat local e integridad básica de configuración activos."@,
                },
            ),
            ..b
        },
        AgentStatus::Recovered => AlertBoardView {
            primary_severity: if raised {
                Severity::Warning
            } else {
                b.primary_severity
            },
            primary_reason: if raised {
                h.summary
            } else {
                b.primary_reason
            },
            alerts: seq![
                AlertView {
                    severity: Severity::Warning,
                    title: "Agente recuperado tras cierre abrupto"@,
                    detail: h.summary,
                    pid: None,
                    path: None,
                    hint: "Revisa incidentes y auditoría si la detención no fue esperada."@,
                },
            ] + b.alerts,
        },
        AgentStatus::Degraded => AlertBoardView {
            primary_severity: if raised {
                Severity::Warning
            } else {
                b.primary_severity
            },
            primary_reason: if raised {
                h.summary
            } else {
                b.primary_reason
            },
            alerts: seq![
                AlertView {
                    severity: Severity::Warning,
                    title: "Resiliencia del agente requiere revisión"@,
                    detail: h.summary,
                    pid: None,
                    path: None,
                    hint: "Valida cambios de configuración y evita reinicios repetidos hasta confirmar estabilidad."@,
                },
            ] + b.alerts,
        },
    };
    AlertBoardView { alerts: crate::etl::take(next.alerts, max_alerts as int), ..next }
}

fn alert(severity: Severity, title: String, detail: String, pid: Option<u32>, path: Option<String>, hint: String) -> (r: Alert)
    ensures
        r@ == (AlertView { severity, title: title@, detail: detail@, pid, path: opt_view(path), hint: hint@ }),
{
    Alert { severity, title, detail, pid, path, hint }
}

fn cut_alerts(alerts: &mut Vec<Alert>, max_alerts: usize)
    ensures
        alerts_view(final(alerts)@) == crate::etl::take(alerts_view(old(alerts)@), max_alerts as int),
{
    let ghost before = alerts_view(alerts@);
    alerts.truncate(max_alerts);
    assert(alerts_view(alerts@) =~= crate::etl::take(before, max_alerts as int));
}

/// Shows the agent's own health on the board.
pub fn apply_agent_health(board: &mut AlertBoard, health: &AgentHealth, max_alerts: usize)
    ensures
        final(board)@ == with_agent_health(old(board)@, health@, max_alerts),
{
    let raised = board.primary_severity.rank() < Severity::Warning.rank();
    let ghost before = alerts_view(board.alerts@);
    match health.status {
        AgentStatus::Healthy => {
            let a = alert(
                Severity::Healthy,
                owned("Salud del agente estable"),
                health.summary.clone(),
                None,
                None,
                owned("Heartbeat local e integridad básica de configuración activos."),
            );
            let ghost av = a@;
            board.alerts.push(a);
            assert(alerts_view(board.alerts@) =~= before.push(av));
        },
        AgentStatus::Recovered => {
            if raised {
                board.primary_severity = Severity::Warning;
                board.primary_reason = health.summary.clone();
            }
            let a = alert(
                Severity::Warning,
                owned("Agente recuperado tras cierre abrupto"),
                health.summary.clone(),
                None,
                None,
                owned("Revisa incidentes y auditoría si la detención no fue esperada."),
            );
            let ghost av = a@;
            board.alerts.insert(0, a);
            assert(alerts_view(board.alerts@) =~= seq![av] + before);
        },
        AgentStatus::Degraded => {
            if raised {
                board.primary_severity = Severity::Warning;
                board.primary_reason = health.summary.clone();
            }
            let a = alert(
                Severity::Warning,
                owned("Resiliencia del agente requiere revisión"),
                health.summary.clone(),
                None,
                None,
                owned("Valida cambios de configuración y evita reinicios repetidos hasta confirmar estabilidad."),
            );
            let ghost av = a@;
            board.alerts.insert(0, a);
            assert(alerts_view(board.alerts@) =~= seq![av] + before);
        },
    }
    cut_alerts(&mut board.alerts, max_alerts);
}

/// The board once the last trace analysis is shown: nothing without an
/// analysis or without findings; otherwise its first finding may raise the
/// headline and is put first as an alert, and the alerts are cut to
/// `max_alerts`.
pub open spec fn with_trace_analysis(
    b: AlertBoardView,
    analysis: Option<crate::models::TraceAnalysisSummaryView>,
    max_alerts: usize,
) -> AlertBoardView {
    match analysis {
        None => b,
        Some(a) => if a.findings.len() == 0 {
            b
        } else {
            let f = a.findings[0];
            let raised = severity_rank(f.severity) > severity_rank(b.primary_severity);
            AlertBoardView {
                primary_severity: if raised {
                    f.severity
                } else {
                    b.primary_severity
                },
                primary_reason: if raised {
                    "Traza ETL: "@ + a.headline
                } else {
                    b.primary_reason
                },
                alerts: crate::etl::take(
                    seq![
                        AlertView {
                            severity: f.severity,
                            title: "Resultado de ETL: "@ + f.title,
                            detail: f.detail,
                            pid: None,
                            path: Some(a.etl_path),
                            hint: "Evidencia: "@ + f.evidence,
                        },
                    ] + b.alerts,
                    max_alerts as int,
                ),
            }
        },
    }
}

/// Shows the first finding of the last trace analysis on the board.
pub fn apply_trace_analysis(board: &mut AlertBoard, analysis: &Option<TraceAnalysisSummary>, max_alerts: usize)
    ensures
        final(board)@ == with_trace_analysis(
            old(board)@,
            match analysis {
                Some(a) => Some(a@),
                None => None,
            },
            max_alerts,
        ),
{
    let a = match analysis {
        Some(a) => a,
        None => {
            return;
        },
    };
    if a.findings.len() == 0 {
        return;
    }
    let f = &a.findings[0];
    assert(a@.findings[0] == f@);
    if f.severity.rank() > board.primary_severity.rank() {
        board.primary_severity = f.severity;
        board.primary_reason = concat2("Traza ETL: ", a.headline.as_str());
    }
    let ghost before = alerts_view(board.alerts@);
    let item = alert(
        f.severity,
        concat2("Resultado de ETL: ", f.title.as_str()),
        f.detail.clone(),
        None,
        Some(a.etl_path.clone()),
        concat2("Evidencia: ", f.evidence.as_str()),
    );
    let ghost iv = item@;
    board.alerts.insert(0, item);
    assert(alerts_view(board.alerts@) =~= seq![iv] + before);
    cut_alerts(&mut board.alerts, max_alerts);
}


// ---------------------------------------------------------------------------
// Laws
// ---------------------------------------------------------------------------

/// Recording the totals of a process twice in a row reports, the second
/// time, nothing read and nothing written.
pub proof fn lemma_same_totals_twice(t: Seq<(u32, IoTotals)>, pid: u32, read_total: u64, write_total: u64)
    requires
        keys_distinct(t),
    ensures
        ({
            let after = upsert(t, pid, IoTotals { read_total_bytes: read_total, write_total_bytes: write_total });
            let prev = match lookup(after, pid) {
                Some(p) => p,
                None => IoTotals { read_total_bytes: 0, write_total_bytes: 0 },
            };
            sat_sub(read_total, prev.read_total_bytes) == 0 && sat_sub(write_total, prev.write_total_bytes) == 0
        }),
{
    lemma_upsert_distinct(t, pid, IoTotals { read_total_bytes: read_total, write_total_bytes: write_total });
}

/// Showing the agent's health never lowers the headline severity and leaves
/// at most `max_alerts` alerts.
pub proof fn lemma_agent_health_on_board(b: AlertBoardView, h: crate::models::AgentHealthView, max_alerts: usize)
    ensures
        severity_rank(with_agent_health(b, h, max_alerts).primary_severity) >= severity_rank(b.primary_severity),
        with_agent_health(b, h, max_alerts).alerts.len() <= max_alerts,
{
}

/// Showing a trace analysis never lowers the headline severity; when it adds
/// an alert, at most `max_alerts` alerts remain.
pub proof fn lemma_trace_analysis_on_board(
    b: AlertBoardView,
    analysis: Option<crate::models::TraceAnalysisSummaryView>,
    max_alerts: usize,
)
    ensures
        severity_rank(with_trace_analysis(b, analysis, max_alerts).primary_severity) >= severity_rank(
            b.primary_severity,
        ),
        with_trace_analysis(b, analysis, max_alerts) != b ==> with_trace_analysis(b, analysis, max_alerts).alerts.len()
            <= max_alerts,
{
}


/// Neither the idle and system processes, nor this application, nor a
/// protected name (in any ASCII case) may ever be terminated.
pub proof fn lemma_protected_never_terminated(
    pid: u32,
    name: Seq<char>,
    exe_path: Seq<char>,
    own_pid: u32,
    protected: Seq<Seq<char>>,
)
    requires
        pid == 0 || pid == 4 || pid == own_pid || protected.contains(lower(name)),
    ensures
        !can_terminate_spec(pid, name, exe_path, own_pid, protected),
{
}

proof fn lemma_entry_index(b: Seq<PersistenceEntryView>, key: Seq<char>, from: int)
    requires
        0 <= from <= b.len(),
    ensures
        from <= entry_index(b, key, from) <= b.len(),
        forall|m: int| from <= m < entry_index(b, key, from) ==> persistence_entry_key_spec(#[trigger] b[m]) != key,
        entry_index(b, key, from) < b.len() ==> persistence_entry_key_spec(b[entry_index(b, key, from)]) == key,
    decreases b.len() - from,
{
    if from < b.len() && persistence_entry_key_spec(b[from]) != key {
        lemma_entry_index(b, key, from + 1);
    }
}

/// Autostart entries compared with themselves as the baseline, their keys
/// distinct, are all marked unchanged and none is reported removed.
pub proof fn lemma_persistence_against_itself(es: Seq<PersistenceEntryView>)
    requires
        es.len() > 0,
        forall|i: int, j: int|
            0 <= i < j < es.len() ==> persistence_entry_key_spec(#[trigger] es[i]) != persistence_entry_key_spec(
                #[trigger] es[j],
            ),
    ensures
        diff_persistence_spec(es, es).0,
        diff_persistence_spec(es, es).1.len() == es.len(),
        forall|i: int|
            0 <= i < es.len() ==> #[trigger] diff_persistence_spec(es, es).1[i] == (PersistenceEntryView {
                change_status: PersistenceChange::Unchanged,
                ..es[i]
            }),
{
    let p = |x: PersistenceEntryView| !has_entry_key(es, persistence_entry_key_spec(x));
    assert forall|k: int| 0 <= k < es.len() implies !p(#[trigger] es[k]) by {
        assert(persistence_entry_key_spec(es[k]) == persistence_entry_key_spec(es[k]));
    }
    crate::tracker::lemma_keep_none(es, p);
    let marks = es.map_values(|e: PersistenceEntryView| marked_entry(es, e));
    assert(keep(es, p).map_values(|x: PersistenceEntryView| gone_entry(x)).len() == 0);
    assert(diff_persistence_spec(es, es).1 =~= marks);
    assert forall|i: int| 0 <= i < es.len() implies #[trigger] marks[i] == (PersistenceEntryView {
        change_status: PersistenceChange::Unchanged,
        ..es[i]
    }) by {
        lemma_entry_index(es, persistence_entry_key_spec(es[i]), 0);
        let j = entry_index(es, persistence_entry_key_spec(es[i]), 0);
        if j < i {
            assert(persistence_entry_key_spec(es[j]) == persistence_entry_key_spec(es[i]));
        }
        assert(j == i);
    }
}

} // verus!
