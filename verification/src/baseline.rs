//! Change detection of watched surfaces against a known-good baseline.
//!
//! Every watched surface (services, tasks, hosts, network devices...) gives a
//! list of [`WatchedItem`]s; they are compared with the reference list kept for
//! the surface and marked NEW / MODIFIED / REMOVED. An empty reference means
//! the first sample: the caller seeds the reference with it and nothing is
//! marked.

use crate::anomaly::risk_from_score_spec;
use crate::models::{
    change_label, millis, AnomalyEvent, AnomalyEventView, IncidentEvidence, IncidentEvidenceView,
    PersistenceChange, RiskLevel, Timestamp, WatchedItem, WatchedItemView,
};
use crate::text::{concat2, concat_all, int_text, int_text_exec, join_all, owned, str_eq};
use crate::tracker::{keep, lemma_keep_none};
use vstd::prelude::*;

verus! {

/// Texts of a watched surface for the events it raises.
pub struct SurfaceSpec {
    /// Short id: the anomaly kind is `<id>-change`.
    pub id: &'static str,
    /// Title of the event of a new item.
    pub title_added: &'static str,
    /// Title of the event of an item whose value changed.
    pub title_modified: &'static str,
    /// Title of the event of an item that disappeared.
    pub title_removed: &'static str,
    /// Noun with its article for the summary ("El servicio", "La tarea").
    pub summary_noun: &'static str,
}

/// The views of a list of watched items.
pub open spec fn items_view(v: Seq<WatchedItem>) -> Seq<WatchedItemView> {
    v.map_values(|i: WatchedItem| i@)
}

/// Index of the first reference item at or after `from` with key `key`, or the length.
pub open spec fn reference_index(b: Seq<WatchedItemView>, key: Seq<char>, from: int) -> int
    decreases b.len() - from,
{
    if from < 0 || from >= b.len() {
        b.len() as int
    } else if b[from].key == key {
        from
    } else {
        reference_index(b, key, from + 1)
    }
}

/// An item marked against the reference: new when its key is not there,
/// modified when the first reference item with its key has another value,
/// unchanged otherwise.
pub open spec fn marked(b: Seq<WatchedItemView>, it: WatchedItemView) -> WatchedItemView {
    let i = reference_index(b, it.key, 0);
    WatchedItemView {
        change_status: if i >= b.len() {
            PersistenceChange::Added
        } else if b[i].value != it.value {
            PersistenceChange::Modified
        } else {
            PersistenceChange::Unchanged
        },
        ..it
    }
}

/// Some item has this key.
pub open spec fn has_key(items: Seq<WatchedItemView>, key: Seq<char>) -> bool {
    exists|k: int| 0 <= k < items.len() && (#[trigger] items[k]).key == key
}

/// The reference items whose key is gone, marked removed, in reference order.
pub open spec fn removed_items(b: Seq<WatchedItemView>, items: Seq<WatchedItemView>) -> Seq<WatchedItemView> {
    keep(b, |x: WatchedItemView| !has_key(items, x.key)).map_values(
        |x: WatchedItemView| WatchedItemView { change_status: PersistenceChange::Removed, ..x },
    )
}

/// Whether there was a reference to compare with, and the items afterwards.
pub open spec fn diff_surface_spec(b: Seq<WatchedItemView>, items: Seq<WatchedItemView>) -> (bool, Seq<WatchedItemView>) {
    if b.len() == 0 {
        (false, items)
    } else {
        (true, items.map_values(|it: WatchedItemView| marked(b, it)) + removed_items(b, items))
    }
}

fn copy_item(it: &WatchedItem, status: PersistenceChange) -> (r: WatchedItem)
    ensures
        r@ == (WatchedItemView { change_status: status, ..it@ }),
{
    WatchedItem {
        key: it.key.clone(),
        value: it.value.clone(),
        label: it.label.clone(),
        detail: it.detail.clone(),
        change_status: status,
    }
}

fn reference_status(baseline: &[WatchedItem], it: &WatchedItem) -> (r: PersistenceChange)
    ensures
        r == marked(items_view(baseline@), it@).change_status,
{
    let ghost b = items_view(baseline@);
    let mut i: usize = 0;
    while i < baseline.len() && !str_eq(baseline[i].key.as_str(), it.key.as_str())
        invariant
            i <= baseline@.len(),
            b == items_view(baseline@),
            b.len() == baseline@.len(),
            reference_index(b, it@.key, 0) == reference_index(b, it@.key, i as int),
        decreases baseline.len() - i,
    {
        assert(b[i as int] == baseline@[i as int]@);
        i = i + 1;
    }
    if i >= baseline.len() {
        PersistenceChange::Added
    } else {
        assert(b[i as int] == baseline@[i as int]@);
        if !str_eq(baseline[i].value.as_str(), it.value.as_str()) {
            PersistenceChange::Modified
        } else {
            PersistenceChange::Unchanged
        }
    }
}

fn any_key(items: &Vec<WatchedItem>, key: &str) -> (r: bool)
    ensures
        r == has_key(items_view(items@), key@),
{
    let ghost v = items_view(items@);
    let mut found = false;
    let mut i: usize = 0;
    while i < items.len() && !found
        invariant
            i <= items@.len(),
            v == items_view(items@),
            v.len() == items@.len(),
            found == (exists|k: int| 0 <= k < i && (#[trigger] v[k]).key == key@),
        decreases items.len() - i + (if found { 0int } else { 1int }),
    {
        assert(v[i as int] == items@[i as int]@);
        if str_eq(items[i].key.as_str(), key) {
            found = true;
        }
        i = i + 1;
    }
    found
}

/// Marks `items` against the reference list of their surface and appends the
/// reference items that disappeared, marked removed. With an empty reference
/// (the first sample) nothing changes and the result is `false`: the caller
/// then keeps the items as the reference. Otherwise the result is `true`.
/// The reference is a list where a keyed map would hold each key once: it is
/// meant to hold distinct keys (as a reference saved from a sample does), and
/// should a key occur twice, the first item with it is the one compared.
pub fn diff_surface(baseline: &[WatchedItem], items: &mut Vec<WatchedItem>) -> (r: bool)
    ensures
        (r, items_view(final(items)@)) == diff_surface_spec(items_view(baseline@), items_view(old(items)@)),
{
    if baseline.len() == 0 {
        return false;
    }
    let ghost b = items_view(baseline@);
    let ghost orig = items_view(items@);
    let mut marked_items: Vec<WatchedItem> = Vec::new();
    let mut i: usize = 0;
    while i < items.len()
        invariant
            i <= items@.len(),
            b == items_view(baseline@),
            orig == items_view(items@),
            orig.len() == items@.len(),
            marked_items@.len() == i,
            forall|m: int| 0 <= m < i ==> (#[trigger] marked_items@[m])@ == marked(b, orig[m]),
        decreases items.len() - i,
    {
        let status = reference_status(baseline, &items[i]);
        marked_items.push(copy_item(&items[i], status));
        i = i + 1;
    }
    let ghost pred = |x: WatchedItemView| !has_key(orig, x.key);
    let mut removed: Vec<WatchedItem> = Vec::new();
    let mut j: usize = 0;
    while j < baseline.len()
        invariant
            j <= baseline@.len(),
            b == items_view(baseline@),
            b.len() == baseline@.len(),
            orig == items_view(items@),
            pred == (|x: WatchedItemView| !has_key(orig, x.key)),
            items_view(removed@) == keep(b.subrange(0, j as int), pred).map_values(
                |x: WatchedItemView| WatchedItemView { change_status: PersistenceChange::Removed, ..x },
            ),
        decreases baseline.len() - j,
    {
        proof {
            let pre = b.subrange(0, j + 1);
            assert(pre.drop_last() =~= b.subrange(0, j as int));
            assert(pre.last() == baseline@[j as int]@);
        }
        let ghost before = items_view(removed@);
        if !any_key(items, baseline[j].key.as_str()) {
            let gone = copy_item(&baseline[j], PersistenceChange::Removed);
            let ghost gv = gone@;
            removed.push(gone);
            assert(items_view(removed@) =~= before.push(gv));
            assert(keep(b.subrange(0, j + 1), pred) == keep(b.subrange(0, j as int), pred).push(b[j as int]));
            assert(items_view(removed@) =~= keep(b.subrange(0, j + 1), pred).map_values(
                |x: WatchedItemView| WatchedItemView { change_status: PersistenceChange::Removed, ..x },
            ));
        } else {
            assert(keep(b.subrange(0, j + 1), pred) =~= keep(b.subrange(0, j as int), pred));
        }
        j = j + 1;
    }
    assert(b.subrange(0, b.len() as int) =~= b);
    let ghost mv = items_view(marked_items@);
    assert(mv =~= orig.map_values(|it: WatchedItemView| marked(b, it)));
    marked_items.append(&mut removed);
    *items = marked_items;
    assert(items_view(items@) =~= orig.map_values(|it: WatchedItemView| marked(b, it)) + removed_items(b, orig));
    true
}

/// Severity, score, title and verb of the event of a changed item.
pub open spec fn change_terms(spec: SurfaceSpec, c: PersistenceChange) -> Option<(RiskLevel, u16, Seq<char>, Seq<char>)> {
    match c {
        PersistenceChange::Added => Some((RiskLevel::High, 72u16, spec.title_added@, "apareció"@)),
        PersistenceChange::Modified => Some((RiskLevel::High, 68u16, spec.title_modified@, "cambió"@)),
        PersistenceChange::Removed => Some((RiskLevel::Medium, 45u16, spec.title_removed@, "desapareció"@)),
        PersistenceChange::Unchanged => None,
    }
}

/// Every change of a watched item is reported, and only a change: an added
/// or modified item is a high-risk event titled as such (72 and 68), a
/// removed one a medium-risk event (45), all of the kind `<id>-change`.
pub proof fn lemma_every_change_is_reported(at: Timestamp, spec: SurfaceSpec, it: WatchedItemView)
    ensures
        surface_change_event_spec(at, spec, it) is Some <==> it.change_status != PersistenceChange::Unchanged,
        surface_change_event_spec(at, spec, it) matches Some(e) ==> e.kind == spec.id@ + "-change"@
            && e.detected_at == at,
        it.change_status == PersistenceChange::Added ==> (surface_change_event_spec(at, spec, it) matches Some(e)
            && e.title == spec.title_added@ && e.severity == RiskLevel::High && e.score == 72),
        it.change_status == PersistenceChange::Modified ==> (surface_change_event_spec(at, spec, it) matches Some(e)
            && e.title == spec.title_modified@ && e.severity == RiskLevel::High && e.score == 68),
        it.change_status == PersistenceChange::Removed ==> (surface_change_event_spec(at, spec, it) matches Some(e)
            && e.title == spec.title_removed@ && e.severity == RiskLevel::Medium && e.score == 45),
{
}

/// The event of a changed item of a surface; `None` for an unchanged item.
pub open spec fn surface_change_event_spec(at: Timestamp, spec: SurfaceSpec, it: WatchedItemView) -> Option<AnomalyEventView> {
    match change_terms(spec, it.change_status) {
        None => None,
        Some((severity, score, title, verb)) => Some(
            AnomalyEventView {
                event_id: "anom-"@ + int_text(millis(at)) + "-"@ + spec.id@ + "chg-"@ + it.key,
                detected_at: at,
                severity,
                score,
                status: "open"@,
                kind: spec.id@ + "-change"@,
                title,
                process_name: None,
                pid: None,
                parent_pid: None,
                parent_name: None,
                user: None,
                exe_path: Some(it.detail),
                sha256: None,
                cpu_percent_bits: None,
                memory_mb_bits: None,
                io_write_mb_delta_bits: None,
                unique_public_remotes: None,
                unique_private_remotes: None,
                summary: spec.summary_noun@ + " '"@ + it.label + "' "@ + verb + " respecto a la baseline conocida."@,
                root_cause_hypothesis: "cambio en una superficie vigilada respecto al estado bueno conocido"@,
                recommended_action: "Verificar el origen del cambio y aceptar la baseline solo si es legítimo."@,
                evidence: seq![
                    IncidentEvidenceView { kind: "item"@, label: "Elemento"@, value: it.label },
                    IncidentEvidenceView { kind: "detail"@, label: "Detalle"@, value: it.detail },
                    IncidentEvidenceView { kind: "change"@, label: "Cambio"@, value: change_label(it.change_status) },
                ],
            },
        ),
    }
}

/// The event of a changed item: any change is reported so that the user keeps
/// explicit control. `None` for an unchanged item.
pub fn surface_change_event(detected_at: Timestamp, spec: &SurfaceSpec, item: &WatchedItem) -> (r: Option<AnomalyEvent>)
    ensures
        match r {
            Some(e) => surface_change_event_spec(detected_at, *spec, item@) == Some(e@),
            None => surface_change_event_spec(detected_at, *spec, item@) is None,
        },
        r is Some <==> item.change_status != PersistenceChange::Unchanged,
        r matches Some(e) ==> e.kind@ == spec.id@ + "-change"@ && e.detected_at == detected_at,
        item.change_status == PersistenceChange::Added ==> (r matches Some(e) && e.title@ == spec.title_added@
            && e.severity == RiskLevel::High && e.score == 72),
        item.change_status == PersistenceChange::Modified ==> (r matches Some(e) && e.title@ == spec.title_modified@
            && e.severity == RiskLevel::High && e.score == 68),
        item.change_status == PersistenceChange::Removed ==> (r matches Some(e) && e.title@ == spec.title_removed@
            && e.severity == RiskLevel::Medium && e.score == 45),
{
    proof {
        lemma_every_change_is_reported(detected_at, *spec, item@);
    }
    let (severity, score, title, verb): (RiskLevel, u16, &str, &str) = match item.change_status {
        PersistenceChange::Added => (RiskLevel::High, 72, spec.title_added, "apareció"),
        PersistenceChange::Modified => (RiskLevel::High, 68, spec.title_modified, "cambió"),
        PersistenceChange::Removed => (RiskLevel::Medium, 45, spec.title_removed, "desapareció"),
        PersistenceChange::Unchanged => {
            return None;
        },
    };
    let stamp = int_text_exec(detected_at.millis());
    let event_id = join_all(&["anom-", stamp.as_str(), "-", spec.id, "chg-", item.key.as_str()]);
    let summary = join_all(
        &[spec.summary_noun, " '", item.label.as_str(), "' ", verb, " respecto a la baseline conocida."],
    );
    proof {
        reveal_with_fuel(concat_all, 7);
    }
    let mut evidence: Vec<IncidentEvidence> = Vec::new();
    evidence.push(IncidentEvidence::new("item", "Elemento", item.label.clone()));
    evidence.push(IncidentEvidence::new("detail", "Detalle", item.detail.clone()));
    evidence.push(IncidentEvidence::new("change", "Cambio", owned(item.change_status.label())));
    let e = AnomalyEvent {
        event_id,
        detected_at,
        severity,
        score,
        status: owned("open"),
        kind: concat2(spec.id, "-change"),
        title: owned(title),
        process_name: None,
        pid: None,
        parent_pid: None,
        parent_name: None,
        user: None,
        exe_path: Some(item.detail.clone()),
        sha256: None,
        cpu_percent_bits: None,
        memory_mb_bits: None,
        io_write_mb_delta_bits: None,
        unique_public_remotes: None,
        unique_private_remotes: None,
        summary,
        root_cause_hypothesis: owned("cambio en una superficie vigilada respecto al estado bueno conocido"),
        recommended_action: owned("Verificar el origen del cambio y aceptar la baseline solo si es legítimo."),
        evidence,
    };
    proof {
        let want = surface_change_event_spec(detected_at, *spec, item@).unwrap();
        assert(e@.evidence =~= want.evidence);
        assert(e@.event_id =~= want.event_id);
        assert(e@.summary =~= want.summary);
    }
    Some(e)
}


// ---------------------------------------------------------------------------
// Laws
// ---------------------------------------------------------------------------

proof fn lemma_reference_index(b: Seq<WatchedItemView>, key: Seq<char>, from: int)
    requires
        0 <= from <= b.len(),
    ensures
        from <= reference_index(b, key, from) <= b.len(),
        forall|m: int| from <= m < reference_index(b, key, from) ==> (#[trigger] b[m]).key != key,
        reference_index(b, key, from) < b.len() ==> b[reference_index(b, key, from)].key == key,
    decreases b.len() - from,
{
    if from < b.len() && b[from].key != key {
        lemma_reference_index(b, key, from + 1);
    }
}

/// A sample compared with itself as the reference, its keys distinct, has
/// every item marked unchanged and nothing reported removed.
pub proof fn lemma_diff_against_itself(items: Seq<WatchedItemView>)
    requires
        items.len() > 0,
        forall|i: int, j: int| 0 <= i < j < items.len() ==> (#[trigger] items[i]).key != (#[trigger] items[j]).key,
    ensures
        diff_surface_spec(items, items).0,
        diff_surface_spec(items, items).1.len() == items.len(),
        forall|i: int|
            0 <= i < items.len() ==> #[trigger] diff_surface_spec(items, items).1[i] == (WatchedItemView {
                change_status: PersistenceChange::Unchanged,
                ..items[i]
            }),
{
    let p = |x: WatchedItemView| !has_key(items, x.key);
    assert forall|k: int| 0 <= k < items.len() implies !p(#[trigger] items[k]) by {
        assert(items[k].key == items[k].key);
    }
    lemma_keep_none(items, p);
    let marks = items.map_values(|it: WatchedItemView| marked(items, it));
    assert(removed_items(items, items).len() == 0);
    assert(diff_surface_spec(items, items).1 =~= marks);
    assert forall|i: int| 0 <= i < items.len() implies #[trigger] marks[i] == (WatchedItemView {
        change_status: PersistenceChange::Unchanged,
        ..items[i]
    }) by {
        lemma_reference_index(items, items[i].key, 0);
        let j = reference_index(items, items[i].key, 0);
        if j < i {
            assert(items[j].key == items[i].key);
        }
        assert(j == i);
    }
}

} // verus!
