use vessel::jobs::{
    next_scan_action, queued_progress, starting_progress, terminal_meta_status, truncate_chars,
    walk_batch_size, JobManager, ScanAction, ScanEvent, ScanOutcome, ScanRun, ScanTally,
};
use vessel::scan::{
    build_globset, glob_candidate_path, is_excluded, path_for_glob,
    validate_globs, GlobError, ScannedFile, WalkBatcher,
};
use vessel::windows_explorer::{explorer_select_params, path_string_for_explorer_select};
use vessel::job_types::{EXTRACT_METADATA, HASH_CONTENT, SCAN};

fn file(p: &str) -> ScannedFile {
    ScannedFile { rel_path: p.to_string(), size: 1, mtime_ns: 2 }
}

#[test]
fn path_for_glob_uses_forward_slashes() {
    assert_eq!(path_for_glob("C:\\Users\\me\\x"), "C:/Users/me/x");
    assert_eq!(glob_candidate_path("/r", ""), "/r");
    assert_eq!(glob_candidate_path("/r", "a/b"), "/r/a/b");
}

#[test]
fn globs_validate_and_match() {
    let pats = vec!["**/node_modules/**".to_string(), "**/.git/**".to_string()];
    assert!(validate_globs(&pats).is_ok());
    let set = build_globset(&pats).expect("globs build");
    assert!(is_excluded(&set, "/r", "app/node_modules/x.js"));
    assert!(!is_excluded(&set, "/r", "app/src/x.js"));
    assert!(is_excluded(&set, "/r", ".git/config"));
    assert!(!is_excluded(&set, "/r", "docs/a.txt"));
    let bad = vec!["ok".to_string(), "[".to_string()];
    match build_globset(&bad) {
        Err(GlobError::Invalid { pattern, .. }) => assert_eq!(pattern, "["),
        _ => panic!("expected invalid glob"),
    }
    let empty = build_globset(&vec![]).expect("empty set");
    assert!(!is_excluded(&empty, "/anything", ""));
}

#[test]
fn walk_batcher_flushes_full_batches_in_order() {
    let mut w = WalkBatcher::new(2);
    assert!(w.add_file(file("a")).is_none());
    let b = w.add_file(file("b")).expect("full batch");
    assert_eq!(b.iter().map(|f| f.rel_path.as_str()).collect::<Vec<_>>(), vec!["a", "b"]);
    assert!(w.add_file(file("c")).is_none());
    assert_eq!(w.pending_len(), 1);
    w.walk_error();
    w.metadata_error();
    let (rest, summary) = w.finish();
    assert_eq!(rest.unwrap()[0].rel_path, "c");
    assert_eq!(summary.seen, 3);
    assert!(summary.completed);
    assert_eq!(summary.walk_errors, 1);
    assert_eq!(summary.metadata_errors, 1);
}

#[test]
fn walk_batcher_with_zero_max_hands_out_each_file() {
    let mut w = WalkBatcher::new(0);
    assert_eq!(w.add_file(file("a")).expect("flushed").len(), 1);
    assert_eq!(w.add_file(file("b")).expect("flushed").len(), 1);
    let (rest, summary) = w.finish();
    assert!(rest.is_none());
    assert_eq!(summary.seen, 2);
}

#[test]
fn walk_batcher_drops_tail_after_cancel() {
    let mut w = WalkBatcher::new(10);
    w.add_file(file("a"));
    w.mark_cancelled();
    let (rest, summary) = w.finish();
    assert!(rest.is_none());
    assert!(!summary.completed);
    assert_eq!(summary.seen, 1);
}

#[test]
fn job_manager_tracks_active_scan() {
    let mut m: JobManager<u32> = JobManager::new();
    assert!(!m.has_active_scan());
    let (id, _token) = m.begin_scan(true);
    assert_eq!(id.len(), 36);
    assert!(m.has_active_scan());
    let (snap_id, p) = m.get_scan_snapshot().expect("active scan");
    assert_eq!(snap_id, id);
    assert_eq!(p.phase, "queued");
    assert!(p.content_indexing_enabled);
    let mut p2 = queued_progress(false);
    p2.files_seen = 5;
    m.set_scan_progress("other", p2.clone());
    assert_eq!(m.get_scan_snapshot().unwrap().1.files_seen, 0);
    m.set_scan_progress(&id, p2);
    assert_eq!(m.get_scan_snapshot().unwrap().1.files_seen, 5);
    assert!(m.cancel(&id));
    assert!(!m.cancel("missing"));
    m.add_handle(id.clone(), 9);
    m.clear_active_scan("other");
    assert!(m.get_scan_snapshot().is_some());
    m.clear_active_scan(&id);
    assert!(m.get_scan_snapshot().is_none());
    assert!(m.has_active_scan());
    m.finish_job(&id);
    assert!(!m.has_active_scan());
    assert!(!m.cancel(&id));
}

#[test]
fn cancel_signals_the_worker_token() {
    let mut m: JobManager<()> = JobManager::new();
    let (id, token) = m.begin_scan(false);
    assert!(!token.is_cancelled());
    m.cancel(&id);
    assert!(token.is_cancelled());
}

#[test]
fn scan_tally_reports_progress() {
    let mut t = ScanTally::new(2, true);
    let long = "x".repeat(300);
    let p = t.after_batch(3, 4, Some(&long), 0);
    assert_eq!(p.phase, "indexing");
    assert_eq!(p.files_seen, 4);
    assert_eq!(p.files_upserted, 3);
    assert_eq!(p.current_path.unwrap().chars().count(), 200);
    let p = t.after_root(2, 1);
    assert_eq!(p.files_deleted, 2);
    assert_eq!(p.roots_done, 1);
    assert!(p.current_path.is_none());
    let p = t.completed();
    assert_eq!(p.phase, "completed");
    assert_eq!(p.roots_done, 2);
    assert_eq!(starting_progress(true).phase, "starting");
    assert_eq!(truncate_chars("héllo", 2), "hé");
}

#[test]
fn batch_sizes_are_clamped() {
    assert_eq!(walk_batch_size(0), 256);
    assert_eq!(walk_batch_size(2000), 2000);
    assert_eq!(walk_batch_size(100_000), 4096);
    assert_eq!(walk_batch_size(300), 300);
}

#[test]
fn terminal_status_maps_to_meta() {
    assert_eq!(terminal_meta_status("completed"), "completed");
    assert_eq!(terminal_meta_status("failed"), "failed");
    assert_eq!(terminal_meta_status("cancelled"), "cancelled");
    assert_eq!(terminal_meta_status("weird"), "idle");
}

#[test]
fn explorer_paths_drop_verbatim_prefixes() {
    assert_eq!(path_string_for_explorer_select("\\\\?\\C:\\Program Files\\x.txt"), "C:\\Program Files\\x.txt");
    assert_eq!(path_string_for_explorer_select("\\\\?\\UNC\\server\\share\\f"), "\\\\server\\share\\f");
    assert_eq!(path_string_for_explorer_select("/tmp/x"), "/tmp/x");
    assert_eq!(explorer_select_params("C:\\a \"b\".txt"), "/select,\"C:\\a b.txt\"");
}

#[test]
fn job_type_labels() {
    assert_eq!(SCAN, "scan");
    assert_eq!(HASH_CONTENT, "hash_content");
    assert_eq!(EXTRACT_METADATA, "extract_metadata");
}

#[test]
fn valid_globs_always_build() {
    let pats = vec!["**/*.tmp".to_string(), "**/build/**".to_string()];
    let set = build_globset(&pats).expect("valid globs build");
    assert!(is_excluded(&set, "/r", "a/b.tmp"));
    assert!(is_excluded(&set, "/r", "x/build/y.o"));
    assert!(!is_excluded(&set, "/r", "x/src/y.rs"));
}

#[test]
fn walk_batcher_reports_counts() {
    let mut w = WalkBatcher::new(3);
    w.add_file(file("a"));
    w.walk_error();
    let s = w.summary();
    assert_eq!((s.seen, s.walk_errors, s.metadata_errors, s.completed), (1, 1, 0, true));
}

#[test]
fn late_handle_of_an_ended_job_is_dropped() {
    let mut m: JobManager<u32> = JobManager::new();
    let (id, _token) = m.begin_scan(false);
    m.clear_active_scan(&id);
    m.finish_job(&id);
    assert!(!m.add_handle(id.clone(), 7));
    assert!(!m.has_active_scan());
    let (id2, _t2) = m.begin_scan(false);
    assert!(m.add_handle(id2.clone(), 8));
    m.clear_active_scan(&id2);
    assert!(m.has_active_scan());
    m.finish_job(&id2);
    assert!(!m.has_active_scan());
}

fn step(run: &mut ScanRun, e: ScanEvent, cancelled: bool) -> ScanAction {
    assert!(run.accepts(&e));
    next_scan_action(run, e, cancelled)
}

#[test]
fn scan_run_walks_every_root_then_completes() {
    let mut run = ScanRun::new();
    assert!(matches!(step(&mut run, ScanEvent::Begin, false), ScanAction::LoadSettings));
    match step(&mut run, ScanEvent::SettingsLoaded { content_indexing_enabled: true }, false) {
        ScanAction::Report { progress } => {
            assert_eq!(progress.phase, "starting");
            assert!(progress.content_indexing_enabled);
        }
        other => panic!("unexpected {:?}", other),
    }
    assert!(matches!(step(&mut run, ScanEvent::Reported, false), ScanAction::ListRoots));
    assert!(matches!(step(&mut run, ScanEvent::RootsListed { count: 2 }, false), ScanAction::WalkRoot { index: 0 }));
    assert!(matches!(step(&mut run, ScanEvent::BatchReady, false), ScanAction::WriteBatch));
    let written = ScanEvent::BatchWritten { upserted: 2, len: 3, last_rel: Some("a/b.txt".into()), report_due: true };
    match step(&mut run, written, false) {
        ScanAction::EmitProgress { progress } => {
            assert_eq!((progress.files_seen, progress.files_upserted, progress.roots_done), (3, 2, 0));
            assert_eq!(progress.current_path.as_deref(), Some("a/b.txt"));
        }
        other => panic!("unexpected {:?}", other),
    }
    let quiet = ScanEvent::BatchWritten { upserted: 0, len: 1, last_rel: None, report_due: false };
    assert!(matches!(step(&mut run, quiet, false), ScanAction::Continue));
    assert!(matches!(step(&mut run, ScanEvent::RootWalked, false), ScanAction::Reconcile { index: 0 }));
    match step(&mut run, ScanEvent::RootReconciled { removed: 1 }, false) {
        ScanAction::Report { progress } => {
            assert_eq!((progress.files_deleted, progress.roots_done, progress.roots_total), (1, 1, 2));
            assert_eq!(progress.phase, "indexing");
        }
        other => panic!("unexpected {:?}", other),
    }
    assert!(matches!(step(&mut run, ScanEvent::Reported, false), ScanAction::WalkRoot { index: 1 }));
    assert!(matches!(step(&mut run, ScanEvent::RootWalked, false), ScanAction::Reconcile { index: 1 }));
    assert!(matches!(step(&mut run, ScanEvent::RootReconciled { removed: 0 }, false), ScanAction::Report { .. }));
    match step(&mut run, ScanEvent::Reported, true) {
        ScanAction::Finish { outcome: ScanOutcome::Completed, progress: Some(p) } => {
            assert_eq!(p.phase, "completed");
            assert_eq!((p.files_seen, p.files_upserted, p.files_deleted, p.roots_done), (4, 2, 1, 2));
        }
        other => panic!("unexpected {:?}", other),
    }
    assert!(!run.accepts(&ScanEvent::Failed));
}

#[test]
fn scan_run_honours_cancellation_and_failure() {
    let mut run = ScanRun::new();
    assert!(matches!(step(&mut run, ScanEvent::Begin, true), ScanAction::Finish { outcome: ScanOutcome::Cancelled, progress: None }));

    let mut run = ScanRun::new();
    step(&mut run, ScanEvent::Begin, false);
    step(&mut run, ScanEvent::SettingsLoaded { content_indexing_enabled: false }, true);
    assert!(matches!(step(&mut run, ScanEvent::Reported, true), ScanAction::Finish { outcome: ScanOutcome::Cancelled, .. }));

    let mut run = ScanRun::new();
    step(&mut run, ScanEvent::Begin, false);
    step(&mut run, ScanEvent::SettingsLoaded { content_indexing_enabled: false }, false);
    step(&mut run, ScanEvent::Reported, false);
    match step(&mut run, ScanEvent::RootsListed { count: 0 }, false) {
        ScanAction::Finish { outcome: ScanOutcome::Completed, progress: Some(p) } => assert_eq!(p.phase, "completed"),
        other => panic!("unexpected {:?}", other),
    }

    let mut run = ScanRun::new();
    step(&mut run, ScanEvent::Begin, false);
    step(&mut run, ScanEvent::SettingsLoaded { content_indexing_enabled: false }, false);
    step(&mut run, ScanEvent::Reported, false);
    step(&mut run, ScanEvent::RootsListed { count: 3 }, false);
    assert!(matches!(step(&mut run, ScanEvent::BatchReady, true), ScanAction::SkipBatch));
    assert!(matches!(step(&mut run, ScanEvent::RootWalked, true), ScanAction::Finish { outcome: ScanOutcome::Cancelled, .. }));

    let mut run = ScanRun::new();
    step(&mut run, ScanEvent::Begin, false);
    assert!(!run.accepts(&ScanEvent::Reported));
    assert!(matches!(step(&mut run, ScanEvent::Failed, false), ScanAction::Finish { outcome: ScanOutcome::Failed, progress: None }));
    assert_eq!(ScanOutcome::Cancelled.label(), "cancelled");
}
