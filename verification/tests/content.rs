use vessel::content_extract::{
    content_indexing_params, ext_matches, lowercase_extension, normalize_extension,
    normalize_text, normalized_extension_list, plain_text_from_bytes, plan_content_indexing,
    quick_sig, ContentAction, ContentRow, MAX_STORED_CONTENT_CHARS,
};
use vessel::dto::AppSettings;

fn settings(exts: Vec<&str>, enabled: bool) -> AppSettings {
    AppSettings {
        roots: vec![],
        exclusion_globs: vec![],
        batch_size: 2000,
        vessel_name: "Vessel".to_string(),
        onboarding_completed: true,
        theme: "dark".to_string(),
        content_indexing_enabled: enabled,
        content_index_extensions: exts.into_iter().map(String::from).collect(),
        content_max_bytes_per_file: 1024,
    }
}

#[test]
fn quick_sig_formats_size_and_time() {
    assert_eq!(quick_sig(10, 100), "10:100");
    assert_eq!(quick_sig(0, -5), "0:-5");
    assert_eq!(quick_sig(i64::MIN, i64::MAX), "-9223372036854775808:9223372036854775807");
}

#[test]
fn quick_sig_differs_when_metadata_differs() {
    assert_ne!(quick_sig(1, 23), quick_sig(12, 3));
    assert_ne!(quick_sig(-1, 0), quick_sig(1, 0));
}

#[test]
fn normalize_text_collapses_whitespace() {
    assert_eq!(normalize_text("  hello \n\t world  "), "hello world");
    assert_eq!(normalize_text("a\u{3000}\u{a0}b"), "a b");
    assert_eq!(normalize_text(""), "");
    assert_eq!(normalize_text(" \n "), "");
}

#[test]
fn normalize_text_caps_length() {
    let long = "ab ".repeat(MAX_STORED_CONTENT_CHARS);
    let out = normalize_text(&long);
    assert!(out.len() <= MAX_STORED_CONTENT_CHARS + 4);
    assert!(out.len() >= MAX_STORED_CONTENT_CHARS - 1);
    assert!(!out.ends_with(' '));
}

#[test]
fn normalize_text_is_idempotent_on_sample() {
    let once = normalize_text("  x  y\r\nz ");
    assert_eq!(normalize_text(&once), once);
    let long = "é  ab\t".repeat(200_000);
    let capped = normalize_text(&long);
    assert!(capped.len() < 512 * 1024 + 4);
    assert_eq!(normalize_text(&capped), capped);
}

#[test]
fn extension_list_defaults_when_empty() {
    let l = normalized_extension_list(&settings(vec![], true));
    assert_eq!(l, vec!["pdf", "txt", "md", "csv", "json", "log"]);
}

#[test]
fn extension_list_normalizes_entries() {
    let l = normalized_extension_list(&settings(vec![" .PDF", "Txt ", "  ", "."], true));
    assert_eq!(l, vec!["pdf", "txt"]);
    assert_eq!(normalize_extension(" ..Md "), ".md");
}

#[test]
fn ext_matches_is_case_insensitive() {
    let allowed = vec!["pdf".to_string(), "txt".to_string()];
    assert!(ext_matches("/data/Report.PDF", &allowed));
    assert!(ext_matches("notes.txt", &allowed));
    assert!(!ext_matches("image.png", &allowed));
    assert!(!ext_matches(".txt", &allowed));
    assert!(!ext_matches("README", &allowed));
    assert_eq!(lowercase_extension("a/b/C.JSON").as_deref(), Some("json"));
}

fn row(sig: Option<&str>, content: Option<&str>) -> Option<ContentRow> {
    Some(ContentRow { file_id: 7, quick_sig: sig.map(String::from), content_sig: content.map(String::from) })
}

#[test]
fn plan_content_indexing_decides_per_file() {
    let allowed = vec!["pdf".to_string(), "txt".to_string(), "png".to_string()];
    assert!(matches!(plan_content_indexing(None, 10, 5, Some("pdf"), &allowed, 100), ContentAction::Skip));
    assert!(matches!(plan_content_indexing(row(Some("9:5"), None), 10, 5, Some("pdf"), &allowed, 100), ContentAction::Skip));
    assert!(matches!(plan_content_indexing(row(Some("10:5"), Some("10:5")), 10, 5, Some("pdf"), &allowed, 100), ContentAction::Skip));
    match plan_content_indexing(row(Some("10:5"), None), 10, 5, Some("pdf"), &allowed, 100) {
        ContentAction::ExtractPdf { file_id, sig } => {
            assert_eq!(file_id, 7);
            assert_eq!(sig, "10:5");
        }
        other => panic!("unexpected {:?}", other),
    }
    assert!(matches!(plan_content_indexing(row(Some("10:5"), Some("1:1")), 10, 5, Some("txt"), &allowed, 100), ContentAction::ExtractPlainText { .. }));
    assert!(matches!(plan_content_indexing(row(Some("10:5"), None), 10, 5, Some("md"), &allowed, 100), ContentAction::StoreEmpty { .. }));
    assert!(matches!(plan_content_indexing(row(Some("10:5"), None), 10, 5, Some("png"), &allowed, 100), ContentAction::StoreEmpty { .. }));
    assert!(matches!(plan_content_indexing(row(Some("500:5"), None), 500, 5, Some("pdf"), &allowed, 100), ContentAction::StoreEmpty { .. }));
    assert!(matches!(plan_content_indexing(row(Some("10:5"), None), 10, 5, None, &allowed, 100), ContentAction::StoreEmpty { .. }));
}

#[test]
fn plain_text_from_bytes_decodes_and_caps() {
    assert_eq!(plain_text_from_bytes(12, b"hello\n\nworld", 100).as_deref(), Some("hello world"));
    assert_eq!(plain_text_from_bytes(5, b"hello world", 5).as_deref(), Some("hello"));
    assert_eq!(plain_text_from_bytes(3, &[0x61, 0xff, 0x62], 10).as_deref(), Some("a\u{fffd}b"));
    assert_eq!(plain_text_from_bytes(11, b"hello world", 5), None);
}

#[test]
fn content_params_follow_settings() {
    assert!(content_indexing_params(&settings(vec![], false)).is_none());
    let (allowed, cap) = content_indexing_params(&settings(vec!["log"], true)).unwrap();
    assert_eq!(allowed, vec!["log"]);
    assert_eq!(cap, 1024);
}
