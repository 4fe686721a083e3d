use vessel::search::{
    build_fts_query, extension_like_pattern, normalize_search_request, plan_search,
    search_hit_from_row, QueryError, SearchError, SearchPlan,
};

#[test]
fn build_fts_query_quotes_and_ands_terms() {
    let q = build_fts_query("captain report").expect("query should build");
    assert_eq!(q, "\"captain\" AND \"report\"");
}

#[test]
fn extension_like_pattern_handles_dots_and_empty() {
    assert_eq!(extension_like_pattern(Some(".PDF")), "%.pdf");
    assert_eq!(extension_like_pattern(Some("  ")), "");
    assert_eq!(extension_like_pattern(None), "");
}

#[test]
fn build_fts_query_escapes_quotes_and_collapses_whitespace() {
    let q = build_fts_query("  say \"hi\"\t\n there ").expect("query should build");
    assert_eq!(q, "\"say\" AND \"\"\"hi\"\"\" AND \"there\"");
}

#[test]
fn build_fts_query_single_word() {
    assert_eq!(build_fts_query("engine").unwrap(), "\"engine\"");
}

#[test]
fn build_fts_query_rejects_blank_input() {
    assert_eq!(build_fts_query(""), Err(QueryError::EmptyQuery));
    assert_eq!(build_fts_query(" \t\u{3000} "), Err(QueryError::EmptyQuery));
}

#[test]
fn extension_like_pattern_trims_and_keeps_inner_dots() {
    assert_eq!(extension_like_pattern(Some("  tar.GZ ")), "%.tar.gz");
    assert_eq!(extension_like_pattern(Some("..txt")), "%..txt");
    assert_eq!(extension_like_pattern(Some("")), "");
}

#[test]
fn plan_search_browses_on_blank_query() {
    match plan_search("   ", Some("pdf")) {
        SearchPlan::Browse { ext_pattern } => assert_eq!(ext_pattern, "%.pdf"),
        other => panic!("expected browse, got {:?}", other),
    }
}

#[test]
fn plan_search_uses_full_text_for_words() {
    match plan_search(" captain  report ", None) {
        SearchPlan::FullText { fts_query, ext_pattern } => {
            assert_eq!(fts_query, "\"captain\" AND \"report\"");
            assert_eq!(ext_pattern, "");
        }
        other => panic!("expected full text, got {:?}", other),
    }
}

#[test]
fn search_request_clamps_window_and_trims_filter() {
    let r = normalize_search_request(0, -5, Some("  pdf ".to_string()), None, None).unwrap();
    assert_eq!(r.limit, 1);
    assert_eq!(r.offset, 0);
    assert_eq!(r.extension_filter.as_deref(), Some("pdf"));
    let r = normalize_search_request(5000, 7, Some("   ".to_string()), Some(5), None).unwrap();
    assert_eq!(r.limit, 2000);
    assert_eq!(r.offset, 7);
    assert_eq!(r.extension_filter, None);
    assert_eq!(r.modified_from_ns, Some(5));
    let r = normalize_search_request(50, 0, None, Some(10), Some(10)).unwrap();
    assert_eq!(r.limit, 50);
    assert_eq!(r.extension_filter, None);
    assert_eq!(r.modified_to_ns, Some(10));
}

#[test]
fn search_request_rejects_inverted_date_range() {
    let r = normalize_search_request(10, 0, None, Some(200), Some(100));
    assert!(matches!(r, Err(SearchError::InvalidDateRange)));
}

#[test]
fn search_hit_joins_root_and_relative_path() {
    let h = search_hit_from_row(2, "reports/engine.pdf".to_string(), 20, 200, "/tmp/root".to_string());
    assert_eq!(h.id, 2);
    assert_eq!(h.path, "reports/engine.pdf");
    assert_eq!(h.size, 20);
    assert_eq!(h.mtime_ns, 200);
    assert_eq!(h.root_path, "/tmp/root");
    let sep = std::path::MAIN_SEPARATOR;
    assert_eq!(h.full_path, format!("/tmp/root{sep}reports{sep}engine.pdf"));
}
