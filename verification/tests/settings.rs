use vessel::commands::{
    check_start_scan, content_reset_needed, count_enabled_roots, indexing_status,
    is_within_root, is_within_roots, prepare_settings_for_save, requested_file_path,
    roots_to_probe, SettingsError, StartScanError,
};
use vessel::config::{default_batch, default_exclusions, ConfigFile};
use vessel::dto::{
    default_content_indexing_enabled, default_content_max_bytes_per_file,
    default_onboarding_completed_true, default_root_read_only, default_theme,
    default_vessel_name, AppSettings, JobProgress, RootConfig,
};

fn root(path: &str, enabled: bool) -> RootConfig {
    RootConfig { path: path.to_string(), display_name: None, enabled, read_only: false }
}

fn settings() -> AppSettings {
    AppSettings {
        roots: vec![root(" '/data/a' ", true)],
        exclusion_globs: vec!["**/.git/**".to_string()],
        batch_size: 2000,
        vessel_name: "  Aurora ".to_string(),
        onboarding_completed: true,
        theme: " light ".to_string(),
        content_indexing_enabled: true,
        content_index_extensions: vec![],
        content_max_bytes_per_file: 1,
    }
}

#[test]
fn defaults_match_documentation() {
    assert_eq!(default_vessel_name(), "Vessel");
    assert_eq!(default_theme(), "dark");
    assert!(!default_root_read_only());
    assert!(default_onboarding_completed_true());
    assert!(!default_content_indexing_enabled());
    assert_eq!(default_content_max_bytes_per_file(), 10 * 1024 * 1024);
    assert_eq!(default_batch(), 2000);
    assert_eq!(default_exclusions(), vec!["**/node_modules/**", "**/.git/**", "**/target/**"]);
}

#[test]
fn config_default_is_first_run() {
    let c = ConfigFile::default();
    assert!(c.roots.is_empty());
    assert_eq!(c.batch_size, 2000);
    assert_eq!(c.vessel_name, "Vessel");
    assert!(!c.onboarding_completed);
    assert_eq!(c.exclusion_globs.len(), 3);
}

#[test]
fn config_read_fills_defaults() {
    let mut c = ConfigFile::default();
    c.vessel_name = "   ".to_string();
    c.exclusion_globs = vec![];
    c.onboarding_completed = true;
    let s = AppSettings::from_config(c);
    assert_eq!(s.vessel_name, "Vessel");
    assert_eq!(s.exclusion_globs, vec!["**/node_modules/**", "**/.git/**", "**/target/**"]);
    assert!(s.onboarding_completed);
}

#[test]
fn config_save_then_load_round_trips() {
    let mut s = settings();
    s.vessel_name = "Aurora".to_string();
    let c = ConfigFile::from_settings(s.clone());
    let back = AppSettings::from_config(c);
    assert_eq!(back.vessel_name, "Aurora");
    assert_eq!(back.exclusion_globs, s.exclusion_globs);
    assert_eq!(back.theme, s.theme);
    assert_eq!(back.content_max_bytes_per_file, s.content_max_bytes_per_file);
    assert_eq!(back.roots[0].path, s.roots[0].path);
}

#[test]
fn prepare_settings_normalizes_and_clamps() {
    let s = prepare_settings_for_save(settings()).expect("valid settings");
    assert_eq!(s.vessel_name, "Aurora");
    assert_eq!(s.roots[0].path, "/data/a");
    assert_eq!(s.theme, "light");
    assert_eq!(s.content_max_bytes_per_file, 256 * 1024);
    let mut big = settings();
    big.content_max_bytes_per_file = u32::MAX;
    assert_eq!(prepare_settings_for_save(big).unwrap().content_max_bytes_per_file, 100 * 1024 * 1024);
}

#[test]
fn prepare_settings_reports_each_error() {
    let mut s = settings();
    s.vessel_name = "  ".to_string();
    assert!(matches!(prepare_settings_for_save(s), Err(SettingsError::EmptyVesselName)));
    let mut s = settings();
    s.vessel_name = "x".repeat(121);
    assert!(matches!(prepare_settings_for_save(s), Err(SettingsError::VesselNameTooLong)));
    let mut s = settings();
    s.vessel_name = "é".repeat(120);
    assert!(prepare_settings_for_save(s).is_ok());
    let mut s = settings();
    s.batch_size = 199;
    assert!(matches!(prepare_settings_for_save(s), Err(SettingsError::BatchSizeOutOfRange)));
    let mut s = settings();
    s.batch_size = 20_001;
    assert!(matches!(prepare_settings_for_save(s), Err(SettingsError::BatchSizeOutOfRange)));
    let mut s = settings();
    s.roots.push(root(" '' ", true));
    assert!(matches!(prepare_settings_for_save(s), Err(SettingsError::EmptyRootPath)));
    let mut s = settings();
    s.exclusion_globs = vec!["ok/**".to_string(), "a[".to_string(), "b{".to_string()];
    match prepare_settings_for_save(s) {
        Err(SettingsError::InvalidGlob { pattern, reason }) => {
            assert_eq!(pattern, "a[");
            assert!(!reason.is_empty());
        }
        other => panic!("unexpected {:?}", other),
    }
    let mut s = settings();
    s.theme = "blue".to_string();
    assert!(matches!(prepare_settings_for_save(s), Err(SettingsError::InvalidTheme)));
}

#[test]
fn content_reset_follows_switch() {
    assert!(content_reset_needed(None, false));
    assert!(content_reset_needed(Some(true), false));
    assert!(!content_reset_needed(Some(true), true));
}

#[test]
fn start_scan_checks_in_order() {
    let roots = vec![root("/a", true), root("  ", true), root("/b", false)];
    assert_eq!(count_enabled_roots(&roots), 1);
    assert!(matches!(check_start_scan(true, &roots, 3), Err(StartScanError::AlreadyRunning)));
    assert!(matches!(check_start_scan(false, &roots, 0), Err(StartScanError::RootsNotSaved)));
    assert!(matches!(check_start_scan(false, &vec![root("/b", false)], 0), Err(StartScanError::NoEnabledRoots)));
    assert!(check_start_scan(false, &roots, 1).is_ok());
    assert_eq!(roots_to_probe(&vec!["'/x'".to_string(), "/y".to_string()]), vec!["/x", "/y"]);
}

fn progress() -> JobProgress {
    JobProgress {
        phase: "indexing".to_string(),
        files_seen: 3,
        files_upserted: 2,
        files_deleted: 0,
        current_path: Some("a.txt".to_string()),
        roots_total: 1,
        roots_done: 0,
        content_indexing_enabled: false,
    }
}

#[test]
fn indexing_status_states() {
    let st = indexing_status(true, 42, Some("t".to_string()), "failed".to_string(), Some("boom".to_string()), None);
    assert_eq!(st.state, "error");
    assert_eq!(st.last_error.as_deref(), Some("boom"));
    assert_eq!(st.files_indexed, 42);
    assert!(st.content_indexing_enabled);
    let st = indexing_status(false, 1, None, "completed".to_string(), None, None);
    assert_eq!(st.state, "idle");
    assert!(st.active_job_id.is_none());
    let st = indexing_status(false, 1, None, "failed".to_string(), Some("old".to_string()), Some(("job".to_string(), progress())));
    assert_eq!(st.state, "scanning");
    assert_eq!(st.active_job_id.as_deref(), Some("job"));
    assert!(st.last_error.is_none());
    assert_eq!(st.progress.unwrap().files_seen, 3);
    assert_eq!(st.last_scan_status, "failed");
}

#[test]
fn requested_file_path_trims() {
    assert_eq!(requested_file_path("  /a/b.txt "), Some("/a/b.txt".to_string()));
    assert_eq!(requested_file_path("   "), None);
}

#[test]
fn scope_checks_respect_path_boundaries() {
    assert!(is_within_root("/data/a/x.txt", "/data/a"));
    assert!(is_within_root("/data/a", "/data/a"));
    assert!(!is_within_root("/data/ab/x.txt", "/data/a"));
    assert!(is_within_root("C:\\x\\y.txt", "C:\\"));
    assert!(!is_within_root("/data", ""));
    let roots = vec!["/srv".to_string(), "/data/a".to_string()];
    assert!(is_within_roots("/data/a/b", &roots));
    assert!(!is_within_roots("/etc/passwd", &roots));
}
