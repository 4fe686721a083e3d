use rusqlite::Connection;
use vessel::db::{fts_files_has_v2_shape, str_contains};
use vessel::index::{plan_stale_removal, plan_upsert, BatchApply, ExistingFile, UpsertAction};
use vessel::roots::{plan_root_path_migration, plan_root_sync, RootPathFix};
use vessel::dto::RootConfig;
use vessel::scan::WalkSummary;

fn fts_columns(conn: &Connection) -> Vec<String> {
    let mut stmt = conn.prepare("SELECT name FROM pragma_table_info('fts_files')").expect("prepare");
    let cols = stmt
        .query_map([], |row| row.get(0))
        .expect("query")
        .collect::<Result<Vec<String>, _>>()
        .expect("collect");
    cols
}

#[test]
fn fts_v2_shape_detection_requires_all_columns() {
    let conn = Connection::open_in_memory().expect("open sqlite in-memory");
    conn.execute_batch(
        "CREATE VIRTUAL TABLE fts_files USING fts5(path, full_path, content, tokenize='unicode61');",
    )
    .expect("create fts");
    let cols = fts_columns(&conn);
    assert!(fts_files_has_v2_shape(
        "CREATE VIRTUAL TABLE fts_files USING fts5(path, full_path, content, tokenize='unicode61')",
        &cols
    ));
}

#[test]
fn fts_v2_shape_detection_rejects_legacy_shape() {
    let conn = Connection::open_in_memory().expect("open sqlite in-memory");
    conn.execute_batch("CREATE VIRTUAL TABLE fts_files USING fts5(path, tokenize='unicode61');")
        .expect("create legacy fts");
    let cols = fts_columns(&conn);
    assert!(!fts_files_has_v2_shape(
        "CREATE VIRTUAL TABLE fts_files USING fts5(path, tokenize='unicode61')",
        &cols
    ));
}

#[test]
fn fts_shape_needs_columns_as_well_as_sql() {
    let cols = vec!["path".to_string(), "full_path".to_string()];
    assert!(!fts_files_has_v2_shape("fts5(path, full_path, content)", &cols));
    assert!(str_contains("abcabd", "abd"));
    assert!(!str_contains("abcab", "abd"));
    assert!(str_contains("x", ""));
}

#[test]
fn plan_upsert_inserts_updates_and_skips() {
    match plan_upsert(None, 10, 100) {
        UpsertAction::Insert { sig } => assert_eq!(sig, "10:100"),
        other => panic!("unexpected {:?}", other),
    }
    let same = ExistingFile { id: 4, quick_sig: Some("10:100".to_string()) };
    assert!(matches!(plan_upsert(Some(same), 10, 100), UpsertAction::Unchanged));
    let changed = ExistingFile { id: 4, quick_sig: Some("10:99".to_string()) };
    match plan_upsert(Some(changed), 10, 100) {
        UpsertAction::Update { id, sig } => {
            assert_eq!(id, 4);
            assert_eq!(sig, "10:100");
        }
        other => panic!("unexpected {:?}", other),
    }
    let unsigned = ExistingFile { id: 5, quick_sig: None };
    assert!(matches!(plan_upsert(Some(unsigned), 1, 1), UpsertAction::Update { id: 5, .. }));
}

#[test]
fn rescanning_an_applied_batch_writes_nothing() {
    let files = [(10i64, 100i64), (0, 0), (-3, 7)];
    let mut first = BatchApply::new();
    let mut stored = Vec::new();
    for (size, mtime) in files {
        match first.step(None, size, mtime) {
            UpsertAction::Insert { sig } => stored.push(sig),
            other => panic!("unexpected {:?}", other),
        }
    }
    assert_eq!(first.upserted, 3);
    let mut second = BatchApply::new();
    for (i, (size, mtime)) in files.into_iter().enumerate() {
        let existing = ExistingFile { id: i as i64, quick_sig: Some(stored[i].clone()) };
        assert!(matches!(second.step(Some(existing), size, mtime), UpsertAction::Unchanged));
    }
    assert_eq!(second.upserted, 0);
}

#[test]
fn batch_apply_counts_written_rows() {
    let mut b = BatchApply::new();
    b.step(None, 1, 1);
    b.step(Some(ExistingFile { id: 1, quick_sig: Some("2:2".to_string()) }), 2, 2);
    b.step(Some(ExistingFile { id: 2, quick_sig: Some("2:2".to_string()) }), 3, 2);
    assert_eq!(b.upserted, 2);
}

#[test]
fn stale_rows_removed_only_after_complete_walk() {
    let rows = vec![(1, true), (2, false), (3, true), (4, false)];
    let clean = WalkSummary { seen: 2, completed: true, walk_errors: 0, metadata_errors: 0 };
    assert_eq!(plan_stale_removal(&rows, &clean, false), vec![2, 4]);
    assert!(plan_stale_removal(&rows, &clean, true).is_empty());
    let cut = WalkSummary { completed: false, ..clean.clone() };
    assert!(plan_stale_removal(&rows, &cut, false).is_empty());
}

#[test]
fn walk_errors_block_stale_removal() {
    let rows = vec![(1, true), (2, false)];
    let clean = WalkSummary { seen: 1, completed: true, walk_errors: 0, metadata_errors: 0 };
    let unreadable = WalkSummary { walk_errors: 1, ..clean.clone() };
    let no_metadata = WalkSummary { metadata_errors: 1, ..clean.clone() };
    assert!(plan_stale_removal(&rows, &unreadable, false).is_empty());
    assert!(plan_stale_removal(&rows, &no_metadata, false).is_empty());
    assert_eq!(plan_stale_removal(&rows, &clean, false), vec![2]);
}

#[test]
fn root_path_migration_updates_and_deletes_duplicates() {
    let rows = vec![
        (1, "'/data/a'".to_string()),
        (2, "/data/b".to_string()),
        (3, "/data/a".to_string()),
        (4, " \"/data/b\" ".to_string()),
    ];
    let fixes = plan_root_path_migration(&rows);
    assert_eq!(fixes.len(), 3);
    assert!(matches!(fixes[0], RootPathFix::Delete { id: 3 }));
    assert!(matches!(fixes[1], RootPathFix::Delete { id: 4 }));
    match &fixes[2] {
        RootPathFix::Update { id, path } => {
            assert_eq!(*id, 1);
            assert_eq!(path, "/data/a");
        }
        other => panic!("unexpected {:?}", other),
    }
}

#[test]
fn root_path_migration_applies_under_unique_paths() {
    let conn = Connection::open_in_memory().expect("open sqlite in-memory");
    conn.execute_batch(
        "CREATE TABLE roots (id INTEGER PRIMARY KEY, path TEXT NOT NULL UNIQUE);
         INSERT INTO roots(id, path) VALUES (1, '\"/data/a\"'), (2, '/data/a');",
    )
    .expect("create roots");
    let rows = vec![(1, "\"/data/a\"".to_string()), (2, "/data/a".to_string())];
    for fix in plan_root_path_migration(&rows) {
        match fix {
            RootPathFix::Delete { id } => {
                conn.execute("DELETE FROM roots WHERE id = ?1", [id]).expect("delete");
            }
            RootPathFix::Update { id, path } => {
                conn.execute("UPDATE roots SET path = ?1 WHERE id = ?2", (&path, id))
                    .expect("update");
            }
        }
    }
    let left: Vec<(i64, String)> = conn
        .prepare("SELECT id, path FROM roots ORDER BY id")
        .unwrap()
        .query_map([], |r| Ok((r.get(0)?, r.get(1)?)))
        .unwrap()
        .collect::<Result<_, _>>()
        .unwrap();
    assert_eq!(left, vec![(1, "/data/a".to_string())]);
}

#[test]
fn root_sync_normalizes_and_dedups() {
    let roots = vec![
        RootConfig { path: " /data/a ".to_string(), display_name: None, enabled: true, read_only: false },
        RootConfig { path: "'/data/a'".to_string(), display_name: Some("A".to_string()), enabled: false, read_only: true },
        RootConfig { path: "/data/c".to_string(), display_name: None, enabled: true, read_only: false },
    ];
    let (upserts, keep) = plan_root_sync(&roots);
    assert_eq!(upserts.len(), 3);
    assert_eq!(upserts[1].path, "/data/a");
    assert_eq!(upserts[1].display_name.as_deref(), Some("A"));
    assert!(upserts[1].read_only);
    assert_eq!(keep, vec!["/data/a", "/data/c"]);
    let (u, k) = plan_root_sync(&vec![]);
    assert!(u.is_empty() && k.is_empty());
}
