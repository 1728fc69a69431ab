//! Temporary folders and caches: where to look, how to describe what was
//! found, and which entries a cleaning may remove.

use crate::models::{strings_view, Timestamp};
use crate::text::{chars_of, contains, lower, lower_vec, owned, vec_has};
use vstd::prelude::*;

verus! {

/// The folders scanned for temporary files: the user's `TEMP` (when set),
/// then the Windows temp folder, the Windows Update downloads and the
/// Delivery Optimization cache.
pub open spec fn candidate_roots_spec(user_temp: Option<Seq<char>>) -> Seq<Seq<char>> {
    (match user_temp {
        Some(t) => seq![t],
        None => Seq::empty(),
    }) + seq![
        "C:\\Windows\\Temp"@,
        "C:\\Windows\\SoftwareDistribution\\Download"@,
        "C:\\ProgramData\\Microsoft\\Windows\\DeliveryOptimization\\Cache"@,
    ]
}

/// The folders scanned for temporary files, given the user's `TEMP` folder.
pub fn candidate_roots(user_temp: Option<String>) -> (r: Vec<String>)
    ensures
        strings_view(r@) == candidate_roots_spec(crate::models::opt_view(user_temp)),
{
    let ghost ut = crate::models::opt_view(user_temp);
    let mut roots: Vec<String> = Vec::new();
    match user_temp {
        Some(t) => {
            roots.push(t);
        },
        None => {},
    }
    roots.push(owned("C:\\Windows\\Temp"));
    roots.push(owned("C:\\Windows\\SoftwareDistribution\\Download"));
    roots.push(owned("C:\\ProgramData\\Microsoft\\Windows\\DeliveryOptimization\\Cache"));
    assert(strings_view(roots@) =~= candidate_roots_spec(ut));
    roots
}

/// The note shown for a temporary entry, from its path and size.
pub open spec fn note_for_path_spec(path: Seq<char>, size_bytes: u64) -> Seq<char> {
    let l = lower(path);
    if contains(l, "softwaredistribution"@) {
        "Descargas de Windows Update; pueden explicar actividad de disco y red en segundo plano"@
    } else if contains(l, "deliveryoptimization"@) {
        "Caché de Delivery Optimization; puede crecer cuando Windows comparte o descarga actualizaciones"@
    } else if contains(l, "temp"@) && size_bytes > 500 * 1024 * 1024 {
        "Volumen temporal alto; revisar si quedó basura de instaladores, compresiones o exportaciones"@
    } else {
        "Elemento temporal/caché observado en el escaneo actual"@
    }
}

/// The note shown for a temporary entry.
pub fn note_for_path(path: &str, size_bytes: u64) -> (r: String)
    ensures
        r@ == note_for_path_spec(path@, size_bytes),
{
    let l = lower_vec(&chars_of(path));
    if vec_has(&l, "softwaredistribution") {
        return owned("Descargas de Windows Update; pueden explicar actividad de disco y red en segundo plano");
    }
    if vec_has(&l, "deliveryoptimization") {
        return owned("Caché de Delivery Optimization; puede crecer cuando Windows comparte o descarga actualizaciones");
    }
    if vec_has(&l, "temp") && size_bytes > 500 * 1024 * 1024 {
        return owned("Volumen temporal alto; revisar si quedó basura de instaladores, compresiones o exportaciones");
    }
    owned("Elemento temporal/caché observado en el escaneo actual")
}

// ---------------------------------------------------------------------------
// Cleaning the user's temporary folder
// ---------------------------------------------------------------------------

/// `a` is a later instant than `b`.
pub open spec fn later(a: Timestamp, b: Timestamp) -> bool {
    a.secs > b.secs || (a.secs == b.secs && a.nanos > b.nanos)
}

/// An entry is left alone when its modification time is unknown, when there
/// is no cutoff, or when it was modified after the cutoff: nothing is removed
/// blindly.
pub open spec fn too_recent_spec(modified: Option<Timestamp>, cutoff: Option<Timestamp>) -> bool {
    match (modified, cutoff) {
        (Some(m), Some(c)) => later(m, c),
        _ => true,
    }
}

/// What a cleaning does with one entry of the temporary folder.
#[derive(Debug, Clone, Copy, PartialEq, Eq, Structural)]
pub enum TempEntryPlan {
    /// Too recent (or of unknown age): skipped and counted as such.
    SkipRecent,
    /// Old enough, in a dry run: counted as if deleted, left in place.
    CountOnly,
    /// Old enough: to be removed.
    Remove,
}

/// The plan for an entry given its modification time, the cutoff and
/// whether the cleaning is a dry run.
pub open spec fn temp_entry_plan_spec(modified: Option<Timestamp>, cutoff: Option<Timestamp>, dry_run: bool) -> TempEntryPlan {
    if too_recent_spec(modified, cutoff) {
        TempEntryPlan::SkipRecent
    } else if dry_run {
        TempEntryPlan::CountOnly
    } else {
        TempEntryPlan::Remove
    }
}

/// Decides what a cleaning does with one entry: the age guard first, then
/// the dry run.
pub fn temp_entry_plan(modified: Option<Timestamp>, cutoff: Option<Timestamp>, dry_run: bool) -> (r: TempEntryPlan)
    ensures
        r == temp_entry_plan_spec(modified, cutoff, dry_run),
{
    let too_recent = match (modified, cutoff) {
        (Some(m), Some(c)) => m.secs > c.secs || (m.secs == c.secs && m.nanos > c.nanos),
        _ => true,
    };
    if too_recent {
        TempEntryPlan::SkipRecent
    } else if dry_run {
        TempEntryPlan::CountOnly
    } else {
        TempEntryPlan::Remove
    }
}

/// What became of one entry.
#[derive(Debug, Clone, Copy, PartialEq, Eq, Structural)]
pub enum TempEntryOutcome {
    /// Skipped by the age guard.
    SkippedRecent,
    /// Deleted, or counted as deleted in a dry run.
    Deleted,
    /// Could not be removed because it is in use.
    InUse,
    /// Could not be removed for another reason.
    Failed,
}

/// The counters of a cleaning.
#[derive(Debug, Clone, Copy, PartialEq, Eq, Structural)]
pub struct TempCleanCounts {
    pub dry_run: bool,
    pub deleted_count: u32,
    pub skipped_recent: u32,
    pub skipped_in_use: u32,
    pub error_count: u32,
}

/// `x + 1`, held at the largest `u32`.
pub open spec fn bump(x: u32) -> u32 {
    if x == u32::MAX { x } else { (x + 1) as u32 }
}

/// The counters after one more entry: its counter goes up by one, held at
/// the largest value.
pub open spec fn tally_spec(c: TempCleanCounts, o: TempEntryOutcome) -> TempCleanCounts {
    match o {
        TempEntryOutcome::SkippedRecent => TempCleanCounts { skipped_recent: bump(c.skipped_recent), ..c },
        TempEntryOutcome::Deleted => TempCleanCounts { deleted_count: bump(c.deleted_count), ..c },
        TempEntryOutcome::InUse => TempCleanCounts { skipped_in_use: bump(c.skipped_in_use), ..c },
        TempEntryOutcome::Failed => TempCleanCounts { error_count: bump(c.error_count), ..c },
    }
}

impl TempCleanCounts {
    /// A cleaning that has seen nothing yet.
    pub fn new(dry_run: bool) -> (r: TempCleanCounts)
        ensures
            r == (TempCleanCounts { dry_run, deleted_count: 0, skipped_recent: 0, skipped_in_use: 0, error_count: 0 }),
    {
        TempCleanCounts { dry_run, deleted_count: 0, skipped_recent: 0, skipped_in_use: 0, error_count: 0 }
    }

    /// Counts what became of one entry.
    pub fn tally(&mut self, outcome: TempEntryOutcome)
        ensures
            *final(self) == tally_spec(*old(self), outcome),
    {
        match outcome {
            TempEntryOutcome::SkippedRecent => self.skipped_recent = self.skipped_recent.saturating_add(1),
            TempEntryOutcome::Deleted => self.deleted_count = self.deleted_count.saturating_add(1),
            TempEntryOutcome::InUse => self.skipped_in_use = self.skipped_in_use.saturating_add(1),
            TempEntryOutcome::Failed => self.error_count = self.error_count.saturating_add(1),
        }
    }
}

} // verus!
