use hyperlinked::listing::{
    build_fts_match_query, build_hyperlink_sql_parts, clamp_page, escape_like,
    hyperlinks_index_href, index_status, page_offset, resolve_page, select_match_snippet,
    total_pages, HyperlinkFetchQuery, HyperlinkFetchResults, IndexStatus, JobRef, JobState,
};
use hyperlinked::query::{ClickToken, OrderToken, ParsedHyperlinkQuery, StatusToken};
use hyperlinked::search::SearchTerm;

const JOB_TYPE: &str = "hyperlinked::queue::ProcessingTask";

fn fuzzy(value: &str) -> SearchTerm {
    SearchTerm { value: value.to_string(), exact: false }
}

fn exact(value: &str) -> SearchTerm {
    SearchTerm { value: value.to_string(), exact: true }
}

#[test]
fn build_hyperlink_sql_parts_applies_unclicked_filter() {
    let mut parsed = ParsedHyperlinkQuery::default();
    parsed.clicks.push(ClickToken::Unclicked);

    let sql_parts = build_hyperlink_sql_parts(&parsed, &[], OrderToken::Newest, true, JOB_TYPE);
    assert!(sql_parts.where_sql.contains("h.clicks_count = 0"));
}

#[test]
fn build_hyperlink_sql_parts_skips_unclicked_filter_by_default() {
    let parsed = ParsedHyperlinkQuery::default();
    let sql_parts = build_hyperlink_sql_parts(&parsed, &[], OrderToken::Newest, true, JOB_TYPE);
    assert!(!sql_parts.where_sql.contains("h.clicks_count = 0"));
}

#[test]
fn build_hyperlink_sql_parts_processing_status_requires_active_queue_row() {
    let mut parsed = ParsedHyperlinkQuery::default();
    parsed.statuses.push(StatusToken::Processing);

    let sql_parts = build_hyperlink_sql_parts(&parsed, &[], OrderToken::Newest, true, JOB_TYPE);
    assert!(sql_parts.where_sql.contains("EXISTS ("));
    assert!(
        sql_parts
            .where_sql
            .contains("queue_job.status IN ('queued', 'processing')")
    );
    assert_eq!(sql_parts.values.len(), 1);
}

#[test]
fn build_hyperlink_sql_parts_processing_status_without_queue_table_returns_no_matches() {
    let mut parsed = ParsedHyperlinkQuery::default();
    parsed.statuses.push(StatusToken::Processing);

    let sql_parts = build_hyperlink_sql_parts(&parsed, &[], OrderToken::Newest, false, JOB_TYPE);
    assert!(sql_parts.where_sql.contains("0 = 1"));
    assert!(!sql_parts.where_sql.contains("FROM jobs queue_job"));
    assert_eq!(sql_parts.values.len(), 0);
}

#[test]
fn sql_parts_for_free_text_bind_values_in_order() {
    let parsed = ParsedHyperlinkQuery::default();
    let terms = [fuzzy("50%_off"), exact("rust")];
    let parts = build_hyperlink_sql_parts(&parsed, &terms, OrderToken::Relevance, true, JOB_TYPE);
    assert!(parts.with_clause.contains("WITH fts_matches AS ("));
    assert_eq!(
        parts.joins_sql,
        "LEFT JOIN fts_matches fts ON fts.hyperlink_id = h.id\nLEFT JOIN hyperlink_search_doc sd ON sd.hyperlink_id = h.id"
    );
    assert_eq!(
        parts.values,
        vec![
            "\"50%_off\" AND \"rust\"".to_string(),
            "%50\\%\\_off%".to_string(),
            "%50\\%\\_off%".to_string(),
            "rust".to_string(),
            "*[^0-9a-z]rust[^0-9a-z]*".to_string(),
            "rust[^0-9a-z]*".to_string(),
            "*[^0-9a-z]rust".to_string(),
            "rust".to_string(),
            "*[^0-9a-z]rust[^0-9a-z]*".to_string(),
            "rust[^0-9a-z]*".to_string(),
            "*[^0-9a-z]rust".to_string(),
        ]
    );
    assert!(parts.where_sql.ends_with(" AND h.discovery_depth = 0"));
    assert_eq!(parts.order_sql, "COALESCE(fts.score, 1000000000) ASC, h.created_at DESC, h.id DESC");
    let plain = build_hyperlink_sql_parts(&parsed, &[], OrderToken::Relevance, true, JOB_TYPE);
    assert_eq!(plain.order_sql, "h.created_at DESC, h.id DESC");
    assert_eq!(plain.where_sql, "h.discovery_depth = 0");
    assert_eq!(plain.with_clause, "");
}

#[test]
fn fts_query_and_like_escapes() {
    assert_eq!(build_fts_match_query(&[]), None);
    assert_eq!(
        build_fts_match_query(&[fuzzy("say \"hi\""), exact("x")]).as_deref(),
        Some("\"say \"\"hi\"\"\" AND \"x\"")
    );
    assert_eq!(escape_like(r"a\b%c_d"), r"a\\b\%c\_d");
}

#[test]
fn paging_math() {
    assert_eq!(resolve_page(None), 1);
    assert_eq!(resolve_page(Some(0)), 1);
    assert_eq!(resolve_page(Some(7)), 7);
    assert_eq!(total_pages(0, 100), 1);
    assert_eq!(total_pages(100, 100), 1);
    assert_eq!(total_pages(101, 100), 2);
    assert_eq!(total_pages(5, 0), 5);
    assert_eq!(page_offset(3, 100), 200);
    assert_eq!(page_offset(0, 100), 0);
    assert_eq!(page_offset(u64::MAX, 100), u64::MAX);
    assert_eq!(clamp_page(9, 3), 3);
    assert_eq!(clamp_page(2, 3), 2);
    assert_eq!(clamp_page(2, 0), 1);
}

#[test]
fn fetch_plan_orders_by_relevance_for_free_text() {
    let q = HyperlinkFetchQuery { q: Some("rust order:oldest".to_string()), page: Some(0) };
    let plan = q.plan();
    assert_eq!(plan.order, OrderToken::Oldest);
    assert_eq!(plan.requested_page, 1);
    assert_eq!(plan.search_terms, vec![fuzzy("rust")]);
    let q2 = HyperlinkFetchQuery { q: Some("rust".to_string()), page: None };
    assert_eq!(q2.plan().order, OrderToken::Relevance);
    let q3 = HyperlinkFetchQuery { q: None, page: Some(4) };
    let p3 = q3.plan();
    assert_eq!(p3.order, OrderToken::Newest);
    assert_eq!(p3.requested_page, 4);
}

#[test]
fn hit_snippet_falls_back_to_title_then_url() {
    let terms = [fuzzy("rust")];
    assert_eq!(
        select_match_snippet("Learn **Rust** today", "t", "u", &terms).as_deref(),
        Some("Learn <em>Rust</em> today")
    );
    assert_eq!(
        select_match_snippet("", "  The   Rust\nbook ", "u", &terms).as_deref(),
        Some("The <em>Rust</em> book")
    );
    assert_eq!(
        select_match_snippet("", "title", "https://rust-lang.org", &terms).as_deref(),
        Some("https://<em>rust</em>-lang.org")
    );
    assert_eq!(select_match_snippet("", "a", "b", &terms), None);
}

#[test]
fn index_href_and_page_links() {
    assert_eq!(hyperlinks_index_href("rust lang", 2), "/hyperlinks?q=rust+lang&page=2");
    assert_eq!(hyperlinks_index_href("", 3), "/hyperlinks?page=3");
    let results = HyperlinkFetchResults {
        hyperlink_ids: vec![1, 2],
        active_processing_job_ids: vec![10],
        thumbnail_hyperlink_ids: vec![2],
        dark_thumbnail_hyperlink_ids: vec![],
        parsed_query: ParsedHyperlinkQuery::default(),
        ignored_tokens: vec![],
        free_text: "  ".to_string(),
        raw_q: "x".to_string(),
        page: 2,
        total_pages: 2,
    };
    assert_eq!(results.prev_page_href().as_deref(), Some("/hyperlinks?q=x&page=1"));
    assert_eq!(results.next_page_href(), None);
    assert!(!results.has_free_text());
    assert!(!results.has_effective_filter());
    assert_eq!(results.status_select_value(), "all");
    assert_eq!(results.type_select_value(), "all");
    assert_eq!(results.order_select_value(), "newest");
    assert!(!results.mobile_filters_open());
    assert_eq!(
        results.thumbnail_inline_path(2).as_deref(),
        Some("/hyperlinks/2/artifacts/screenshot_thumb_webp/inline")
    );
    assert_eq!(results.thumbnail_dark_inline_path(2), None);
    assert_eq!(
        results.index_status(Some(JobRef { id: 10, state: JobState::Running })),
        Some(IndexStatus::Processing)
    );
    assert_eq!(results.index_status(Some(JobRef { id: 11, state: JobState::Queued })), None);
    assert_eq!(index_status(Some(JobRef { id: 11, state: JobState::Queued }), None), Some(IndexStatus::Processing));
    assert_eq!(index_status(Some(JobRef { id: 11, state: JobState::Failed }), None), Some(IndexStatus::Failed));
    assert_eq!(index_status(None, None), None);
}

#[test]
fn index_filters_reflect_the_query() {
    let mut parsed = ParsedHyperlinkQuery::default();
    parsed.statuses.push(StatusToken::Failed);
    parsed.types.push(hyperlinked::query::TypeToken::Pdf);
    parsed.scopes.push(hyperlinked::query::ScopeToken::Discovered);
    parsed.orders.push(OrderToken::Relevance);
    let results = HyperlinkFetchResults {
        hyperlink_ids: vec![],
        active_processing_job_ids: vec![],
        thumbnail_hyperlink_ids: vec![],
        dark_thumbnail_hyperlink_ids: vec![],
        parsed_query: parsed,
        ignored_tokens: vec![],
        free_text: "".to_string(),
        raw_q: "".to_string(),
        page: 1,
        total_pages: 1,
    };
    assert_eq!(results.status_select_value(), "failed");
    assert_eq!(results.type_select_value(), "pdf");
    assert_eq!(results.order_select_value(), "newest");
    assert!(results.show_discovered_links_checked());
    assert!(results.mobile_filters_open());
    assert!(results.has_effective_filter());
    assert_eq!(results.prev_page_href(), None);
}
