use hyperlinked::artifacts::{
    hyperlink_internal_error, hyperlink_not_found, json_error_body, show_lookup_reply,
    artifact_delete_path, artifact_download_file_extension, artifact_download_path,
    artifact_fetch_job_kind, artifact_fetch_path, artifact_inline_path, artifact_kind_info,
    artifact_kind_label, artifact_pdf_preview_path, artifact_kind_slug, is_readability_artifact_kind,
    is_screenshot_fetch_artifact_kind, latest_source_artifact_kind, missing_artifact_kinds,
    parse_artifact_kind, parse_id_and_kind, pdf_preview_path, present_artifact_kinds,
    required_show_artifact_kinds, show_artifact_kinds, show_path, stored_inline_path,
    thumbnail_path_for, FetchJobKind, HyperlinkArtifactKind, HyperlinkSourceType,
    LatestArtifact, ResponseKind,
};
use hyperlinked::numbers::{format_i32, format_i64, format_u64, parse_i32, parse_i64};

fn art(kind: HyperlinkArtifactKind, id: i32, secs: i64) -> LatestArtifact {
    LatestArtifact { kind, id, created_secs: secs, created_nanos: 0 }
}

#[test]
fn decimal_text_round_trips() {
    assert_eq!(format_i32(0), "0");
    assert_eq!(format_i32(-42), "-42");
    assert_eq!(format_i32(i32::MIN), "-2147483648");
    assert_eq!(format_i64(i64::MIN), "-9223372036854775808");
    assert_eq!(format_u64(u64::MAX), "18446744073709551615");
    for n in [0, 7, -7, 1234567, i32::MAX, i32::MIN] {
        let text: Vec<char> = format_i32(n).chars().collect();
        assert_eq!(parse_i32(&text), Some(n));
    }
    let p = |s: &str| parse_i32(&s.chars().collect());
    assert_eq!(p("+12"), Some(12));
    assert_eq!(p("007"), Some(7));
    assert_eq!(p("-"), None);
    assert_eq!(p(""), None);
    assert_eq!(p("2147483648"), None);
    assert_eq!(p("-2147483648"), Some(i32::MIN));
    assert_eq!(p("1a"), None);
    assert_eq!(parse_i64(&"99999999999999999999".chars().collect()), None);
}

#[test]
fn slugs_labels_and_paths() {
    assert_eq!(
        artifact_kind_info(&HyperlinkArtifactKind::ScreenshotThumbDarkWebp),
        ("screenshot_thumb_dark_webp", "Screenshot Thumbnail Dark", "webp", false)
    );
    assert_eq!(artifact_kind_label(&HyperlinkArtifactKind::ReadableText), "Readable Markdown");
    for kind in show_artifact_kinds() {
        assert_eq!(parse_artifact_kind(artifact_kind_slug(&kind)), Some(kind));
    }
    assert_eq!(parse_artifact_kind("tag_meta"), None);
    assert_eq!(parse_artifact_kind("nope"), None);
    assert_eq!(show_path(7), "/hyperlinks/7");
    assert_eq!(
        artifact_download_path(7, &HyperlinkArtifactKind::SnapshotWarc),
        "/hyperlinks/7/artifacts/snapshot_warc"
    );
    assert_eq!(
        artifact_inline_path(7, &HyperlinkArtifactKind::OgImage),
        "/hyperlinks/7/artifacts/og_image/inline"
    );
    assert_eq!(
        artifact_delete_path(-3, &HyperlinkArtifactKind::OgMeta),
        "/hyperlinks/-3/artifacts/og_meta/delete"
    );
    assert_eq!(
        artifact_fetch_path(7, &HyperlinkArtifactKind::ReadableMeta),
        "/hyperlinks/7/artifacts/readable_meta/fetch"
    );
    assert_eq!(artifact_pdf_preview_path(7), "/hyperlinks/7/artifacts/pdf_source/preview");
    assert_eq!(artifact_download_file_extension(&HyperlinkArtifactKind::SnapshotWarc, true), "warc.gz");
    assert_eq!(artifact_download_file_extension(&HyperlinkArtifactKind::SnapshotWarc, false), "warc");
    assert_eq!(artifact_download_file_extension(&HyperlinkArtifactKind::PdfSource, true), "pdf");
}

#[test]
fn fetch_job_kinds() {
    assert_eq!(artifact_fetch_job_kind(&HyperlinkArtifactKind::ScreenshotError), Some(FetchJobKind::Snapshot));
    assert_eq!(artifact_fetch_job_kind(&HyperlinkArtifactKind::OgImage), Some(FetchJobKind::Og));
    assert_eq!(artifact_fetch_job_kind(&HyperlinkArtifactKind::ReadableError), Some(FetchJobKind::Readability));
    assert_eq!(artifact_fetch_job_kind(&HyperlinkArtifactKind::TagMeta), None);
    assert!(is_readability_artifact_kind(&HyperlinkArtifactKind::ReadableMeta));
    assert!(!is_readability_artifact_kind(&HyperlinkArtifactKind::OgMeta));
    assert!(is_screenshot_fetch_artifact_kind(&HyperlinkArtifactKind::ScreenshotDarkWebp));
    assert!(!is_screenshot_fetch_artifact_kind(&HyperlinkArtifactKind::SnapshotWarc));
}

#[test]
fn required_and_missing_kinds() {
    let arts = vec![
        art(HyperlinkArtifactKind::SnapshotWarc, 1, 100),
        art(HyperlinkArtifactKind::PdfSource, 2, 200),
        art(HyperlinkArtifactKind::OgMeta, 3, 50),
    ];
    assert_eq!(latest_source_artifact_kind(&arts), Some(HyperlinkArtifactKind::PdfSource));
    let tie = vec![art(HyperlinkArtifactKind::SnapshotWarc, 5, 100), art(HyperlinkArtifactKind::PdfSource, 4, 100)];
    assert_eq!(latest_source_artifact_kind(&tie), Some(HyperlinkArtifactKind::SnapshotWarc));
    assert_eq!(latest_source_artifact_kind(&[]), None);
    assert_eq!(
        required_show_artifact_kinds(&HyperlinkSourceType::Unknown, &arts),
        vec![
            HyperlinkArtifactKind::PdfSource,
            HyperlinkArtifactKind::OgMeta,
            HyperlinkArtifactKind::ReadableText,
            HyperlinkArtifactKind::ReadableMeta,
            HyperlinkArtifactKind::ScreenshotWebp,
            HyperlinkArtifactKind::ScreenshotDarkWebp,
            HyperlinkArtifactKind::ScreenshotThumbWebp,
            HyperlinkArtifactKind::ScreenshotThumbDarkWebp,
        ]
    );
    assert_eq!(
        required_show_artifact_kinds(&HyperlinkSourceType::Pdf, &[]),
        vec![
            HyperlinkArtifactKind::PdfSource,
            HyperlinkArtifactKind::OgMeta,
            HyperlinkArtifactKind::ReadableText,
            HyperlinkArtifactKind::ReadableMeta,
        ]
    );
    assert_eq!(
        missing_artifact_kinds(&HyperlinkSourceType::Pdf, &arts),
        vec![
            HyperlinkArtifactKind::ReadableText,
            HyperlinkArtifactKind::ReadableMeta,
            HyperlinkArtifactKind::ScreenshotThumbWebp,
            HyperlinkArtifactKind::ScreenshotThumbDarkWebp,
        ]
    );
    assert_eq!(
        present_artifact_kinds(&arts),
        vec![HyperlinkArtifactKind::SnapshotWarc, HyperlinkArtifactKind::PdfSource, HyperlinkArtifactKind::OgMeta]
    );
    assert_eq!(
        stored_inline_path(9, &arts, HyperlinkArtifactKind::OgMeta).as_deref(),
        Some("/hyperlinks/9/artifacts/og_meta/inline")
    );
    assert_eq!(stored_inline_path(9, &arts, HyperlinkArtifactKind::ScreenshotWebp), None);
    assert_eq!(pdf_preview_path(9, &arts).as_deref(), Some("/hyperlinks/9/artifacts/pdf_source/preview"));
    assert_eq!(
        thumbnail_path_for(9, &arts, &vec![12], 12, HyperlinkArtifactKind::ScreenshotThumbWebp).as_deref(),
        Some("/hyperlinks/12/artifacts/screenshot_thumb_webp/inline")
    );
    assert_eq!(thumbnail_path_for(9, &arts, &vec![12], 9, HyperlinkArtifactKind::ScreenshotThumbWebp), None);
}

#[test]
fn id_and_kind_from_paths() {
    let ok = parse_id_and_kind("42.json").ok().unwrap();
    assert_eq!(ok, (42, ResponseKind::Json));
    assert_eq!(parse_id_and_kind("-5").ok().unwrap(), (-5, ResponseKind::Text));
    let empty = parse_id_and_kind(".json").err().unwrap();
    assert_eq!(empty.kind, ResponseKind::Json);
    assert_eq!(empty.status, 400);
    assert_eq!(empty.message, "invalid hyperlink id");
    let bad = parse_id_and_kind("abc").err().unwrap();
    assert_eq!(bad.kind, ResponseKind::Text);
    assert_eq!(bad.message, "invalid hyperlink id: abc");
}

#[test]
fn show_lookup_answers() {
    assert!(show_lookup_reply(ResponseKind::Text, 5, Ok(true)).is_none());
    let missing = show_lookup_reply(ResponseKind::Json, 5, Ok(false)).unwrap();
    assert_eq!(missing.kind, ResponseKind::Json);
    assert_eq!(missing.status, 404);
    assert_eq!(missing.message, "hyperlink 5 not found");
    let failed = show_lookup_reply(ResponseKind::Text, 9, Err("db down".to_string())).unwrap();
    assert_eq!(failed.kind, ResponseKind::Text);
    assert_eq!(failed.status, 500);
    assert_eq!(failed.message, "failed to fetch hyperlink 9: db down");
    let not_found = hyperlink_not_found(ResponseKind::Text, -3);
    assert_eq!((not_found.status, not_found.message.as_str()), (404, "hyperlink -3 not found"));
    let visit = hyperlink_internal_error(ResponseKind::Text, 4, "visit", "timeout");
    assert_eq!((visit.status, visit.message.as_str()), (500, "failed to visit hyperlink 4: timeout"));
}

#[test]
fn json_error_bodies() {
    assert_eq!(json_error_body("hyperlink 5 not found"), "{\"error\":\"hyperlink 5 not found\"}");
    assert_eq!(
        json_error_body("say \"hi\"\\\n\u{1}"),
        "{\"error\":\"say \\\"hi\\\"\\\\\\n\\u0001\"}"
    );
}
