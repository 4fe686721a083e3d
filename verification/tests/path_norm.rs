use vessel::dto::{AppSettings, RootConfig};
use vessel::path_norm::{join_root_rel, normalize_app_settings, normalize_root_path};

fn root(path: &str) -> RootConfig {
    RootConfig { path: path.to_string(), display_name: Some("Docs".to_string()), enabled: true, read_only: false }
}

fn settings(name: &str, roots: Vec<RootConfig>) -> AppSettings {
    AppSettings {
        roots,
        exclusion_globs: vec!["**/.git/**".to_string()],
        batch_size: 2000,
        vessel_name: name.to_string(),
        onboarding_completed: true,
        theme: "dark".to_string(),
        content_indexing_enabled: false,
        content_index_extensions: vec![],
        content_max_bytes_per_file: 10 * 1024 * 1024,
    }
}

#[test]
fn normalize_root_path_strips_quotes_and_whitespace() {
    assert_eq!(normalize_root_path("  \"C:\\Users\\me\\Docs\"  "), "C:\\Users\\me\\Docs");
    assert_eq!(normalize_root_path("'/tmp/a b'"), "/tmp/a b");
    assert_eq!(normalize_root_path(" \" ' /srv/share ' \" "), "/srv/share");
}

#[test]
fn normalize_root_path_keeps_unmatched_quotes() {
    assert_eq!(normalize_root_path("\"/tmp/x'"), "\"/tmp/x'");
    assert_eq!(normalize_root_path("\""), "\"");
    assert_eq!(normalize_root_path("''"), "");
    assert_eq!(normalize_root_path("   "), "");
}

#[test]
fn normalize_root_path_stops_after_four_layers() {
    assert_eq!(normalize_root_path("\"\"\"\"\"x\"\"\"\"\""), "\"x\"");
    assert_eq!(normalize_root_path("\"\"\"\"x\"\"\"\""), "x");
}

#[test]
fn normalize_root_path_is_idempotent_on_ordinary_input() {
    for s in ["  'a'  ", "\"b\"", "c", " \" d \" ", "e'"] {
        let once = normalize_root_path(s);
        assert_eq!(normalize_root_path(&once), once);
    }
}

#[test]
fn normalize_app_settings_reports_changes() {
    let mut s = settings("  My Vessel ", vec![root("'/data/a'"), root("/data/b")]);
    assert!(normalize_app_settings(&mut s));
    assert_eq!(s.vessel_name, "My Vessel");
    assert_eq!(s.roots[0].path, "/data/a");
    assert_eq!(s.roots[1].path, "/data/b");
    assert_eq!(s.roots[0].display_name.as_deref(), Some("Docs"));
    assert!(!normalize_app_settings(&mut s));
}

#[test]
fn normalize_app_settings_detects_root_change_only() {
    let mut s = settings("Vessel", vec![root("/data/a"), root(" /data/b")]);
    assert!(normalize_app_settings(&mut s));
    assert_eq!(s.roots[1].path, "/data/b");
    assert_eq!(s.vessel_name, "Vessel");
}

#[test]
fn normalize_app_settings_ignores_name_only_change() {
    let mut s = settings(" ", vec![]);
    assert!(!normalize_app_settings(&mut s));
    assert_eq!(s.vessel_name, "");
    let mut s = settings("  Vessel ", vec![root("/data/a")]);
    assert!(!normalize_app_settings(&mut s));
    assert_eq!(s.vessel_name, "Vessel");
}

#[test]
fn join_root_rel_uses_platform_separator() {
    let sep = std::path::MAIN_SEPARATOR;
    assert_eq!(join_root_rel("/tmp/root", "docs/logbook.txt"), format!("/tmp/root{sep}docs{sep}logbook.txt"));
    assert_eq!(join_root_rel("/tmp/root", "a.txt"), format!("/tmp/root{sep}a.txt"));
}
