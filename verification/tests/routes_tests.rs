use hyperlinked::artifact_routes::{
    attachment_disposition, attachment_file_name, delete_artifact_message, fetch_artifact_message,
    fetch_artifact_outcome, fetch_needs_pdf_source, lookup_response, missing_artifact_message,
    pdf_source_preview_html, FetchArtifactOutcome,
};
use hyperlinked::artifacts::{FetchJobKind, HyperlinkArtifactKind, HyperlinkSourceType};
use hyperlinked::chromium::command_to_resolve;
use hyperlinked::display::{select_show_title_text, OgSummary};
use hyperlinked::jobs::{
    job_row_view, job_row_views, LinkInfo, ProcessingJobInfo, QueueJobRow, clear_all_message, clear_failed_by_ids_sql, clear_selected_message, orphan_failure_message,
    OrphanRecoverySummary,
};
use hyperlinked::maintenance::{
    backup_file_name, content_type_for_path, matches_backup_file_name, retry_backoff_secs,
    sanitize_asset_path, u64_setting, HyperlinkChangeType,
};
use hyperlinked::requests::{
    artifact_inline_url,    derive_request_base_url, first_header_value, search_query_argument, should_log_body,
    summarize_query,
};
use hyperlinked::timestamps::{
    format_datetime, format_graphql_datetime, parse_datetime, parse_naive_datetime,
    parse_optional_datetime, parse_updated_at_cursor, render_relative_time, Timestamp,
};

fn ts(year: i32, month: u32, day: u32, hour: u32, minute: u32, second: u32, nanosecond: u32) -> Timestamp {
    Timestamp { year, month, day, hour, minute, second, nanosecond }
}

#[test]
fn resolve_command_path_returns_none_for_blank_value() {
    assert!(command_to_resolve("   ").is_none());
}

#[test]
fn format_datetime_writes_fraction_only_when_needed() {
    assert_eq!(format_datetime(&ts(2026, 2, 19, 0, 0, 0, 0)), "2026-02-19T00:00:00Z");
    assert_eq!(format_datetime(&ts(2026, 2, 19, 7, 8, 9, 123_000_000)), "2026-02-19T07:08:09.123Z");
    assert_eq!(format_datetime(&ts(2026, 2, 19, 7, 8, 9, 123_456_000)), "2026-02-19T07:08:09.123456Z");
    assert_eq!(format_datetime(&ts(2026, 2, 19, 7, 8, 9, 1)), "2026-02-19T07:08:09.000000001Z");
    assert_eq!(format_datetime(&ts(2016, 12, 31, 23, 59, 59, 1_500_000_000)), "2016-12-31T23:59:60.500Z");
    assert_eq!(format_datetime(&ts(10000, 1, 1, 0, 0, 0, 0)), "+10000-01-01T00:00:00Z");
    assert_eq!(format_datetime(&ts(-1, 1, 1, 0, 0, 0, 0)), "-0001-01-01T00:00:00Z");
}

#[test]
fn graphql_datetime_has_milliseconds() {
    assert_eq!(format_graphql_datetime(&ts(2026, 2, 19, 0, 0, 0, 0)), "2026-02-19T00:00:00.000Z");
    assert_eq!(format_graphql_datetime(&ts(2026, 2, 19, 1, 2, 3, 123_456_789)), "2026-02-19T01:02:03.123Z");
}

#[test]
fn relative_time_element_has_machine_and_human_forms() {
    assert_eq!(
        render_relative_time(&ts(2026, 2, 19, 13, 5, 9, 0)),
        "<relative-time datetime=\"2026-02-19T13:05:09Z\">Feb 19, 2026 13:05 UTC</relative-time>"
    );
    assert!(render_relative_time(&ts(2025, 12, 1, 0, 0, 0, 0)).contains(">Dec 01, 2025 00:00 UTC<"));
}

#[test]
fn parse_datetime_accepts_archive_layouts() {
    assert_eq!(parse_datetime("2026-02-19T10:11:12Z"), Ok(ts(2026, 2, 19, 10, 11, 12, 0)));
    assert_eq!(parse_datetime(" 2026-02-19 10:11:12.5 "), Ok(ts(2026, 2, 19, 10, 11, 12, 500_000_000)));
    assert_eq!(parse_datetime("2026-02-19T10:11:12.000123"), Ok(ts(2026, 2, 19, 10, 11, 12, 123_000)));
    assert_eq!(parse_naive_datetime("2026-02-19 10:11:12"), Some(ts(2026, 2, 19, 10, 11, 12, 0)));
    assert_eq!(parse_naive_datetime("2026-02-19"), None);
    assert_eq!(parse_datetime("   "), Err("value is empty".to_string()));
    assert_eq!(parse_datetime("yesterday"), Err("unsupported datetime format: yesterday".to_string()));
    assert_eq!(parse_datetime("junkZ"), Err("unsupported datetime format: junk".to_string()));
}

#[test]
fn parse_optional_datetime_treats_blank_as_absent() {
    assert_eq!(parse_optional_datetime(None), Ok(None));
    assert_eq!(parse_optional_datetime(Some("  ")), Ok(None));
    assert_eq!(parse_optional_datetime(Some(" 2026-02-19 10:11:12 ")), Ok(Some(ts(2026, 2, 19, 10, 11, 12, 0))));
    assert_eq!(parse_optional_datetime(Some("nope")), Err("unsupported datetime format: nope".to_string()));
}

#[test]
fn updated_at_cursor_is_rfc3339_moved_to_utc() {
    assert_eq!(parse_updated_at_cursor(" 2026-02-19T10:11:12+02:00 "), Ok(ts(2026, 2, 19, 8, 11, 12, 0)));
    assert_eq!(parse_updated_at_cursor("2026-02-19T10:11:12.250Z"), Ok(ts(2026, 2, 19, 10, 11, 12, 250_000_000)));
    let message = "updatedAt must be RFC3339 timestamp".to_string();
    assert_eq!(parse_updated_at_cursor(""), Err(message.clone()));
    assert_eq!(parse_updated_at_cursor("2026-02-19 10:11:12"), Err(message));
}

#[test]
fn fetch_artifact_kind_blocks_pdf_screenshots_until_source_exists() {
    let thumb = HyperlinkArtifactKind::ScreenshotThumbWebp;
    assert!(fetch_needs_pdf_source(&thumb, &HyperlinkSourceType::Pdf));
    assert!(!fetch_needs_pdf_source(&thumb, &HyperlinkSourceType::Html));
    assert!(!fetch_needs_pdf_source(&HyperlinkArtifactKind::ReadableText, &HyperlinkSourceType::Pdf));
    let blocked = fetch_artifact_outcome(&thumb, &HyperlinkSourceType::Pdf, true, false);
    assert_eq!(blocked, FetchArtifactOutcome::NeedsPdfSource);
    assert_eq!(
        fetch_artifact_message(&blocked, &thumb),
        "Fetch PDF Source first before requesting screenshot or thumbnail artifacts."
    );
    assert_eq!(
        fetch_artifact_outcome(&thumb, &HyperlinkSourceType::Pdf, true, true),
        FetchArtifactOutcome::Enqueue(FetchJobKind::Snapshot)
    );
}

#[test]
fn fetch_artifact_kind_enqueues_the_producing_job() {
    let html = HyperlinkSourceType::Html;
    assert_eq!(
        fetch_artifact_outcome(&HyperlinkArtifactKind::ScreenshotWebp, &html, true, false),
        FetchArtifactOutcome::Enqueue(FetchJobKind::Snapshot)
    );
    assert_eq!(
        fetch_artifact_outcome(&HyperlinkArtifactKind::OgMeta, &html, true, false),
        FetchArtifactOutcome::Enqueue(FetchJobKind::Og)
    );
    let readable = fetch_artifact_outcome(&HyperlinkArtifactKind::ReadableText, &html, true, false);
    assert_eq!(readable, FetchArtifactOutcome::Enqueue(FetchJobKind::Readability));
    assert_eq!(
        fetch_artifact_message(&readable, &HyperlinkArtifactKind::ReadableText),
        "Queued fetch for Readable Markdown."
    );
    let unsupported = fetch_artifact_outcome(&HyperlinkArtifactKind::OembedMeta, &html, true, false);
    assert_eq!(unsupported, FetchArtifactOutcome::UnsupportedKind);
    assert_eq!(
        fetch_artifact_message(&unsupported, &HyperlinkArtifactKind::OembedMeta),
        "unsupported artifact fetch kind"
    );
}

#[test]
fn fetch_artifact_kind_without_queue_enqueues_nothing() {
    let outcome = fetch_artifact_outcome(
        &HyperlinkArtifactKind::ReadableText,
        &HyperlinkSourceType::Html,
        false,
        false,
    );
    assert_eq!(outcome, FetchArtifactOutcome::QueueUnavailable);
    assert_eq!(
        fetch_artifact_message(&outcome, &HyperlinkArtifactKind::ReadableText),
        "Queue workers are unavailable in this environment."
    );
}

#[test]
fn delete_and_missing_artifact_messages() {
    let kind = HyperlinkArtifactKind::ReadableText;
    assert_eq!(delete_artifact_message(&kind, 2), "Deleted Readable Markdown artifact(s).");
    assert_eq!(delete_artifact_message(&kind, 0), "No Readable Markdown artifacts to delete.");
    assert_eq!(
        missing_artifact_message(7, &HyperlinkArtifactKind::SnapshotWarc),
        "no snapshot_warc artifact available for hyperlink 7"
    );
}

#[test]
fn download_names_keep_legacy_snapshot_extension() {
    let warc = HyperlinkArtifactKind::SnapshotWarc;
    assert_eq!(attachment_file_name(3, &warc, false), "hyperlink-3-snapshot_warc.warc");
    assert_eq!(attachment_file_name(3, &warc, true), "hyperlink-3-snapshot_warc.warc.gz");
    assert_eq!(
        attachment_disposition(3, &HyperlinkArtifactKind::OgMeta, true),
        "attachment; filename=\"hyperlink-3-og_meta.json\""
    );
}

#[test]
fn pdf_preview_embeds_the_inline_source() {
    let html = pdf_source_preview_html(4);
    assert!(html.starts_with("<!DOCTYPE html>\n<html lang=\"en\">"));
    assert!(html.contains("<embed src=\"/hyperlinks/4/artifacts/pdf_source/inline#zoom=page-width\" type=\"application/pdf\">"));
    assert!(html.ends_with("</html>\n"));
}

#[test]
fn lookup_reports_root_discovered_missing_and_invalid() {
    let invalid = lookup_response(None, Some((1, 0)));
    assert_eq!(invalid.status, "invalid_url");
    assert_eq!(invalid.id, None);
    assert_eq!(invalid.canonical_url, None);
    let url = "https://example.com/".to_string();
    let root = lookup_response(Some(url.clone()), Some((5, 0)));
    assert_eq!(root.status, "root");
    assert_eq!(root.id, Some(5));
    assert_eq!(root.canonical_url.as_deref(), Some("https://example.com/"));
    assert_eq!(lookup_response(Some(url.clone()), Some((6, 2))).status, "discovered");
    let missing = lookup_response(Some(url), None);
    assert_eq!(missing.status, "not_found");
    assert_eq!(missing.canonical_url.as_deref(), Some("https://example.com/"));
}

#[test]
fn base_url_prefers_forwarded_headers() {
    assert_eq!(first_header_value(Some(" a.example , b.example")), Some("a.example".to_string()));
    assert_eq!(first_header_value(Some("  , x")), None);
    assert_eq!(first_header_value(None), None);
    assert_eq!(
        derive_request_base_url(Some("proxy.example"), Some("internal:3000"), Some("https"), None),
        Some("https://proxy.example".to_string())
    );
    assert_eq!(
        derive_request_base_url(None, Some("localhost:3000/"), None, None),
        Some("http://localhost:3000".to_string())
    );
    assert_eq!(
        derive_request_base_url(None, Some("h.example"), None, Some("https:")),
        Some("https://h.example".to_string())
    );
    assert_eq!(derive_request_base_url(None, Some("h.example"), Some(":"), None), None);
    assert_eq!(derive_request_base_url(None, None, Some("https"), None), None);
}

#[test]
fn request_log_shows_small_text_bodies_and_decoded_queries() {
    assert!(should_log_body("POST", Some("application/JSON"), Some(10)));
    assert!(should_log_body("PUT", Some("text/plain"), Some(65536)));
    assert!(!should_log_body("PUT", Some("text/plain"), Some(65537)));
    assert!(!should_log_body("GET", Some("application/json"), Some(10)));
    assert!(!should_log_body("HEAD", Some("application/json"), Some(10)));
    assert!(!should_log_body("POST", Some("image/png"), Some(10)));
    assert!(!should_log_body("POST", None, Some(10)));
    assert!(!should_log_body("POST", Some("application/x-www-form-urlencoded"), None));
    assert_eq!(summarize_query(None), "");
    assert_eq!(summarize_query(Some("a=1&b=two%20words")), "a=1&b=two words");
    assert_eq!(summarize_query(Some("q=x+y&flag")), "q=x y&flag=");
}

#[test]
fn show_title_prefers_usable_open_graph_title_for_url_like_titles() {
    let og = OgSummary {
        title: Some("A Much Better Descriptive Title".to_string()),
        description: None,
        og_type: None,
        url: None,
        image_url: None,
        site_name: None,
    };
    let url = "https://example.com/post";
    assert_eq!(select_show_title_text(url, url, url, Some(&og)), "A Much Better Descriptive Title");
    assert_eq!(select_show_title_text("Good Existing Title", url, url, Some(&og)), "Good Existing Title");
    assert_eq!(select_show_title_text(url, url, url, None), url);
}

#[test]
fn queue_clearing_and_orphan_messages() {
    assert_eq!(clear_selected_message(1, 2), "Cleared 1 failed queue row(s) out of 2 selected.");
    assert_eq!(clear_all_message(3), "Cleared 3 failed queue row(s).");
    assert_eq!(orphan_failure_message(Some("worker crashed")), "worker crashed");
    assert_eq!(
        orphan_failure_message(Some("   ")),
        "marked failed by admin recover-orphans: orphaned running job"
    );
    assert_eq!(
        orphan_failure_message(None),
        "marked failed by admin recover-orphans: orphaned running job"
    );
    let mut summary = OrphanRecoverySummary::new();
    summary.record_recovered(true);
    summary.record_recovered(false);
    assert_eq!(
        summary.message(),
        "Recovered orphans: found=2, marked_failed=2, requeued=1, requeue_errors=1"
    );
    let sql = clear_failed_by_ids_sql(3);
    assert!(sql.starts_with("UPDATE jobs\n         SET status = ?,"));
    assert!(sql.ends_with("AND id IN (?, ?, ?)"));
    assert!(clear_failed_by_ids_sql(1).ends_with("AND id IN (?)"));
}

#[test]
fn gc_retry_backoff_doubles_up_to_sixteen_minutes() {
    assert_eq!(retry_backoff_secs(0), 15);
    assert_eq!(retry_backoff_secs(1), 15);
    assert_eq!(retry_backoff_secs(2), 30);
    assert_eq!(retry_backoff_secs(3), 60);
    assert_eq!(retry_backoff_secs(7), 960);
    assert_eq!(retry_backoff_secs(100), 960);
}

#[test]
fn numeric_settings_fall_back_and_clamp() {
    assert_eq!(u64_setting(Some("30"), 10, 1, 60), 30);
    assert_eq!(u64_setting(Some("+30"), 10, 1, 60), 30);
    assert_eq!(u64_setting(Some("abc"), 10, 1, 60), 10);
    assert_eq!(u64_setting(Some(" 30"), 10, 1, 60), 10);
    assert_eq!(u64_setting(Some("1000"), 10, 1, 60), 60);
    assert_eq!(u64_setting(Some("0"), 10, 1, 60), 1);
    assert_eq!(u64_setting(None, 100, 1, 60), 60);
}

#[test]
fn asset_paths_stay_inside_the_asset_directory() {
    assert_eq!(sanitize_asset_path("css/app.css"), Some("css/app.css".to_string()));
    assert_eq!(sanitize_asset_path("./css//app.css"), Some("css/app.css".to_string()));
    assert_eq!(sanitize_asset_path("../secret"), None);
    assert_eq!(sanitize_asset_path("css/../../x"), None);
    assert_eq!(sanitize_asset_path("/etc/passwd"), None);
    assert_eq!(sanitize_asset_path(""), None);
    assert_eq!(sanitize_asset_path("./"), None);
    assert_eq!(content_type_for_path("css/app.CSS"), "text/css; charset=utf-8");
    assert_eq!(content_type_for_path("fonts/x.woff2"), "font/woff2");
    assert_eq!(content_type_for_path("img/photo.JPEG"), "image/jpeg");
    assert_eq!(content_type_for_path("noext"), "application/octet-stream");
    assert_eq!(content_type_for_path(".hidden"), "application/octet-stream");
}

#[test]
fn backup_file_names_are_recognised() {
    let name = backup_file_name(123, 45, 6, 7);
    assert_eq!(name, "hyperlinked-backup-123-45-6-7.zip");
    assert!(matches_backup_file_name(&name));
    assert!(!matches_backup_file_name("other.zip"));
    assert!(!matches_backup_file_name("hyperlinked-backup-1.tar"));
}

#[test]
fn change_types_name_and_order() {
    assert_eq!(HyperlinkChangeType::Updated.graphql_name(), "UPDATED");
    assert_eq!(HyperlinkChangeType::Deleted.graphql_name(), "DELETED");
    assert!(HyperlinkChangeType::Updated.sort_rank() < HyperlinkChangeType::Deleted.sort_rank());
}

#[test]
fn job_rows_join_processing_job_and_link() {
    let row = QueueJobRow {
        queue_id: 12,
        queue_status: "failed".to_string(),
        payload: "{\"processing_job_id\":3}".to_string(),
        attempts: 2,
        max_attempts: 5,
        last_error: Some("timeout".to_string()),
        queued_ms_total: 40,
        queued_ms_last: Some(10),
        processing_ms_total: 900,
        processing_ms_last: None,
        processing_job_id: Some(3),
    };
    let job = ProcessingJobInfo {
        hyperlink_id: 8,
        state_name: "failed".to_string(),
        kind_name: "snapshot".to_string(),
        error_message: Some("fetch failed".to_string()),
    };
    let link = LinkInfo { title: "Example".to_string(), url: "https://example.com".to_string() };
    let view = job_row_view(&row, Some(&job), Some(&link));
    assert_eq!(view.queue_id, 12);
    assert!(view.selectable_failed);
    assert_eq!(view.processing_state.as_deref(), Some("failed"));
    assert_eq!(view.processing_kind.as_deref(), Some("snapshot"));
    assert_eq!(view.hyperlink_id, Some(8));
    assert_eq!(view.hyperlink_title.as_deref(), Some("Example"));
    assert_eq!(view.hyperlink_url.as_deref(), Some("https://example.com"));
    assert_eq!(view.attempts_display, "2/5");
    assert_eq!(view.queued_timing_display, "40 ms total | 10 ms last");
    assert_eq!(view.processing_timing_display, "900 ms total | 0 ms last");
    assert_eq!(view.error_display.as_deref(), Some("fetch failed (queue: timeout)"));
    assert_eq!(view.payload_excerpt, "{\"processing_job_id\":3}");
    assert!(!view.payload_unmapped);

    let unmapped = QueueJobRow { processing_job_id: None, queue_status: "queued".to_string(), ..row };
    let view = job_row_view(&unmapped, None, None);
    assert!(!view.selectable_failed);
    assert!(view.payload_unmapped);
    assert_eq!(view.hyperlink_title, None);
    assert_eq!(view.error_display.as_deref(), Some("timeout"));
}

#[test]
fn graphql_search_argument_ignores_null_and_blank() {
    assert_eq!(search_query_argument(None), None);
    assert_eq!(search_query_argument(Some(None)), None);
    assert_eq!(search_query_argument(Some(Some("   "))), None);
    assert_eq!(search_query_argument(Some(Some("  rust  "))), Some("rust".to_string()));
}

#[test]
fn change_feed_artifact_urls_are_absolute() {
    let thumb = HyperlinkArtifactKind::ScreenshotThumbWebp;
    assert_eq!(
        artifact_inline_url(Some("https://links.example//"), 5, &thumb),
        Some("https://links.example/hyperlinks/5/artifacts/screenshot_thumb_webp/inline".to_string())
    );
    assert_eq!(artifact_inline_url(Some("///"), 5, &thumb), None);
    assert_eq!(artifact_inline_url(None, 5, &thumb), None);
}

fn queue_row(queue_id: i64, processing_job_id: Option<i32>) -> QueueJobRow {
    QueueJobRow {
        queue_id,
        queue_status: "queued".to_string(),
        payload: "{}".to_string(),
        attempts: 0,
        max_attempts: 3,
        last_error: None,
        queued_ms_total: 0,
        queued_ms_last: None,
        processing_ms_total: 0,
        processing_ms_last: None,
        processing_job_id,
    }
}

fn processing_job(hyperlink_id: i32, state: &str) -> ProcessingJobInfo {
    ProcessingJobInfo {
        hyperlink_id,
        state_name: state.to_string(),
        kind_name: "snapshot".to_string(),
        error_message: None,
    }
}

#[test]
fn job_rows_look_up_jobs_and_links_by_id() {
    let rows = vec![queue_row(1, Some(10)), queue_row(2, None), queue_row(3, Some(11)), queue_row(4, Some(99))];
    let jobs = vec![(10, processing_job(5, "queued")), (11, processing_job(6, "running"))];
    let links = vec![(5, LinkInfo { title: "Five".to_string(), url: "https://five.test".to_string() })];
    let views = job_row_views(&rows, &jobs, &links);
    assert_eq!(views.len(), 4);
    assert_eq!(views[0].queue_id, 1);
    assert_eq!(views[0].processing_state.as_deref(), Some("queued"));
    assert_eq!(views[0].hyperlink_id, Some(5));
    assert_eq!(views[0].hyperlink_title.as_deref(), Some("Five"));
    assert_eq!(views[1].processing_state, None);
    assert!(views[1].payload_unmapped);
    assert_eq!(views[2].processing_state.as_deref(), Some("running"));
    assert_eq!(views[2].hyperlink_id, Some(6));
    assert_eq!(views[2].hyperlink_url, None);
    assert_eq!(views[3].processing_state, None);
    assert_eq!(views[3].hyperlink_id, None);
    assert!(!views[3].payload_unmapped);
}

#[test]
fn job_rows_take_the_later_of_two_pairs_with_one_id() {
    let rows = vec![queue_row(1, Some(10))];
    let jobs = vec![(10, processing_job(5, "queued")), (10, processing_job(5, "failed"))];
    let views = job_row_views(&rows, &jobs, &Vec::new());
    assert_eq!(views[0].processing_state.as_deref(), Some("failed"));
}
