use rootcause::models::Timestamp;
use rootcause::storage::{
    candidate_roots, note_for_path, temp_entry_plan, TempCleanCounts, TempEntryOutcome, TempEntryPlan,
};

#[test]
fn incluye_rutas_clave_de_windows() {
    let roots = candidate_roots(None);
    let text = roots.iter().map(|p| p.to_ascii_lowercase()).collect::<Vec<_>>().join("\n");
    assert!(text.contains("windows\\temp"));
    assert!(text.contains("softwaredistribution"));
    assert!(text.contains("deliveryoptimization"));
}

#[test]
fn user_temp_comes_first() {
    let roots = candidate_roots(Some(r"C:\Users\a\AppData\Local\Temp".to_owned()));
    assert_eq!(roots.len(), 4);
    assert_eq!(roots[0], r"C:\Users\a\AppData\Local\Temp");
}

#[test]
fn notes_by_path_and_size() {
    assert_eq!(
        note_for_path(r"C:\Windows\SoftwareDistribution\Download", 1),
        "Descargas de Windows Update; pueden explicar actividad de disco y red en segundo plano"
    );
    assert_eq!(
        note_for_path(r"C:\Temp\big.zip", 600 * 1024 * 1024),
        "Volumen temporal alto; revisar si quedó basura de instaladores, compresiones o exportaciones"
    );
    assert_eq!(
        note_for_path(r"C:\Temp\small.zip", 10),
        "Elemento temporal/caché observado en el escaneo actual"
    );
}

#[test]
fn cleaning_skips_recent_and_unknown_entries() {
    let cutoff = Some(Timestamp { secs: 1_000, nanos: 0 });
    let old = Some(Timestamp { secs: 500, nanos: 0 });
    let recent = Some(Timestamp { secs: 1_000, nanos: 1 });
    assert_eq!(temp_entry_plan(recent, cutoff, false), TempEntryPlan::SkipRecent);
    assert_eq!(temp_entry_plan(None, cutoff, false), TempEntryPlan::SkipRecent);
    assert_eq!(temp_entry_plan(old, None, false), TempEntryPlan::SkipRecent);
    assert_eq!(temp_entry_plan(cutoff, cutoff, false), TempEntryPlan::Remove);
    assert_eq!(temp_entry_plan(old, cutoff, true), TempEntryPlan::CountOnly);
}

#[test]
fn cleaning_counts_each_outcome() {
    let mut counts = TempCleanCounts::new(true);
    counts.tally(TempEntryOutcome::SkippedRecent);
    counts.tally(TempEntryOutcome::Deleted);
    counts.tally(TempEntryOutcome::Deleted);
    counts.tally(TempEntryOutcome::InUse);
    counts.tally(TempEntryOutcome::Failed);
    assert!(counts.dry_run);
    assert_eq!((counts.deleted_count, counts.skipped_recent, counts.skipped_in_use, counts.error_count), (2, 1, 1, 1));
    let mut full = TempCleanCounts { deleted_count: u32::MAX, ..TempCleanCounts::new(false) };
    full.tally(TempEntryOutcome::Deleted);
    assert_eq!(full.deleted_count, u32::MAX);
}
