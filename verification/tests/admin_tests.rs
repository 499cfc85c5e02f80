use hyperlinked::admin::{
    artifact_storage_breakdown, plan_missing_artifacts, validate_archive_entry_path,
    ArtifactStorageByKind, SqliteDiskStats,
};
use hyperlinked::artifacts::{FetchJobKind, HyperlinkArtifactKind};
use hyperlinked::chromium::{
    chromium_path, command_to_resolve, has_path_separator, is_direct_command, pathext_suffixes,
    ChromiumDiagnostics,
};
use hyperlinked::display::{
    decode_html_entities, decode_html_entity, decode_numeric_html_entity, load_og_summary,
    looks_like_url_title, metadata_title_candidate_is_usable, normalize_display_text,
    normalize_text_value, normalize_url_value, should_prefer_metadata_title, word_count, OgFields,
};
use hyperlinked::jobs::{
    attempts_display, error_display, format_timing, jobs_href, page_offset, range_end,
    range_start, resolve_limit, selected_queue_ids, status_filter_clause, total_pages, truncate,
    QueueStatusFilter,
};
use hyperlinked::mdns::{advertisement_command, split_service_type_and_domain, MdnsOptions};
use hyperlinked::storage::{
    build_relative_path, format_hex, sha256_hex, stored_artifact, unique_suffix_text,
    validated_relative_path, DateTimeParts,
};

#[test]
fn missing_artifacts_plan_counts_and_queues() {
    let ids = vec![1, 2, 3, 4];
    let arts = vec![
        (2, HyperlinkArtifactKind::SnapshotWarc),
        (3, HyperlinkArtifactKind::PdfSource),
        (3, HyperlinkArtifactKind::OgMeta),
        (3, HyperlinkArtifactKind::ReadableText),
        (4, HyperlinkArtifactKind::SnapshotWarc),
        (4, HyperlinkArtifactKind::ReadableText),
        (4, HyperlinkArtifactKind::ReadableMeta),
    ];
    let active = vec![(1, FetchJobKind::Snapshot), (2, FetchJobKind::Og)];
    let plan = plan_missing_artifacts(&ids, &arts, &active);
    assert_eq!(plan.summary.total_hyperlinks, 4);
    assert_eq!(plan.summary.missing_source, 1);
    assert_eq!(plan.summary.snapshot_already_processing, 1);
    assert!(plan.snapshot_hyperlink_ids.is_empty());
    assert_eq!(plan.summary.missing_og, 2);
    assert_eq!(plan.summary.og_already_processing, 1);
    assert_eq!(plan.og_hyperlink_ids, vec![4]);
    assert_eq!(plan.summary.missing_readability, 2);
    assert_eq!(plan.readability_hyperlink_ids, vec![2, 3]);
    assert_eq!(plan.summary.readability_will_queue, 2);
}

#[test]
fn storage_totals_saturate_and_clamp() {
    let rows = vec![
        ArtifactStorageByKind { kind: "a".to_string(), saved_size_bytes: i64::MAX, saved_artifact_count: 1, discovered_size_bytes: -4, discovered_artifact_count: 2 },
        ArtifactStorageByKind { kind: "b".to_string(), saved_size_bytes: 10, saved_artifact_count: 2, discovered_size_bytes: 5, discovered_artifact_count: 0 },
    ];
    let b = artifact_storage_breakdown(&rows);
    assert_eq!(b.saved_total_bytes, i64::MAX);
    assert_eq!(b.saved_total_count, 3);
    assert_eq!(b.discovered_total_bytes, 5);
    assert_eq!(b.by_kind[0].discovered_size_bytes, 0);
    assert_eq!(b.by_kind[1].kind, "b");
    let stats = SqliteDiskStats { main_bytes: u64::MAX, wal_bytes: 1, shm_bytes: 2 };
    assert_eq!(stats.total_bytes(), u64::MAX);
    assert_eq!(SqliteDiskStats { main_bytes: 1, wal_bytes: 2, shm_bytes: 3 }.total_bytes(), 6);
}

#[test]
fn archive_paths_must_be_plain_and_relative() {
    assert!(validate_archive_entry_path("artifacts/1/a.bin").is_ok());
    assert_eq!(validate_archive_entry_path("  ").err().unwrap(), "artifact payload path is empty");
    assert_eq!(validate_archive_entry_path("/etc/passwd").err().unwrap(), "artifact payload path must be relative: /etc/passwd");
    assert_eq!(validate_archive_entry_path("a/../b").err().unwrap(), "artifact payload path is unsafe: a/../b");
    assert!(validate_archive_entry_path("./a").is_err());
    assert!(validate_archive_entry_path("a/./b").is_ok());
}

#[test]
fn entities_and_display_text() {
    assert_eq!(decode_html_entities("Tom &amp; Jerry &lt;3 &#65;&#x42;&#X43; &nbsp;x &bogus; & end"), "Tom & Jerry <3 ABC \u{a0}x &bogus; & end");
    assert_eq!(decode_html_entity("QUOT"), Some('"'));
    assert_eq!(decode_numeric_html_entity("#xD800"), None);
    assert_eq!(decode_numeric_html_entity("#+10"), Some('\n'));
    assert_eq!(decode_numeric_html_entity("#x"), None);
    assert_eq!(decode_numeric_html_entity("#99999999999"), None);
    assert_eq!(normalize_display_text("  A &amp;\n  B  "), "A & B");
    assert_eq!(normalize_text_value(Some("  ")), None);
    assert_eq!(normalize_text_value(None), None);
    assert_eq!(normalize_url_value(Some(" https://x ")).as_deref(), Some("https://x"));
    let fields = OgFields {
        og_title: Some(" Title ".to_string()),
        og_description: None,
        og_type: Some("   ".to_string()),
        og_url: None,
        og_image_url: None,
        og_site_name: None,
    };
    let summary = load_og_summary(&fields).unwrap();
    assert_eq!(summary.title(), Some("Title"));
    assert_eq!(summary.og_type(), None);
    assert!(summary.has_values());
    let empty = OgFields { og_title: None, og_description: None, og_type: None, og_url: Some(" ".to_string()), og_image_url: None, og_site_name: None };
    assert!(load_og_summary(&empty).is_none());
}

#[test]
fn title_choice() {
    assert!(looks_like_url_title("", "u", "r"));
    assert!(looks_like_url_title("HTTPS://Example.com/x", "https://example.com/x", "r"));
    assert!(looks_like_url_title("http://other", "a", "b"));
    assert!(!looks_like_url_title("A title", "https://a", "https://a"));
    assert!(should_prefer_metadata_title("https://a.com", "https://a.com", "https://a.com", "A Real Title"));
    assert!(should_prefer_metadata_title("Short", "u", "r", "A much longer descriptive title"));
    assert!(should_prefer_metadata_title("Word", "u", "r", "Two words"));
    assert!(!should_prefer_metadata_title("A perfectly fine title", "u", "r", "Another one here too"));
    assert!(metadata_title_candidate_is_usable(" ok "));
    assert!(!metadata_title_candidate_is_usable(&"x".repeat(201)));
    assert_eq!(word_count(" a  b c "), 3);
}

#[test]
fn jobs_dashboard_values() {
    assert_eq!(QueueStatusFilter::from_query(Some("failed")), QueueStatusFilter::Failed);
    assert_eq!(QueueStatusFilter::from_query(Some("bogus")), QueueStatusFilter::All);
    assert_eq!(QueueStatusFilter::from_query(None).as_str(), "all");
    assert_eq!(resolve_limit(None), 50);
    assert_eq!(resolve_limit(Some(0)), 1);
    assert_eq!(resolve_limit(Some(999)), 200);
    assert_eq!(total_pages(-3, 50), 1);
    assert_eq!(total_pages(101, 50), 3);
    assert_eq!(page_offset(3, 50), 100);
    assert_eq!(jobs_href(QueueStatusFilter::Cleared, 50, 2), "/admin/jobs?status=cleared&limit=50&page=2");
    assert_eq!(range_start(0, 1, 50), 0);
    assert_eq!(range_start(120, 3, 50), 101);
    assert_eq!(range_end(101, 20), 120);
    assert_eq!(range_end(101, 0), 0);
    assert_eq!(truncate("abcdef", 3), "abc...");
    assert_eq!(truncate("abc", 3), "abc");
    assert_eq!(truncate("ééé", 2), "éé...");
    assert_eq!(format_timing(12, None), "12 ms total | 0 ms last");
    assert_eq!(format_timing(-1, Some(5)), "-1 ms total | 5 ms last");
    assert_eq!(attempts_display(1, 3), "1/3");
    assert_eq!(error_display(Some("x"), Some("x")).as_deref(), Some("x"));
    assert_eq!(error_display(Some("x"), Some("y")).as_deref(), Some("x (queue: y)"));
    assert_eq!(error_display(None, Some("y")).as_deref(), Some("y"));
    assert_eq!(error_display(None, None), None);
    let (sql, values) = status_filter_clause(QueueStatusFilter::Failed);
    assert_eq!(sql, " AND (j.status = ? OR hpj.state = ?)");
    assert_eq!(values, vec!["failed", "failed"]);
    assert_eq!(selected_queue_ids(b"queue_id=5&queue_id=2&other=1&queue_id=5&queue_id=x"), vec![2, 5]);
    assert!(selected_queue_ids(b"").is_empty());
}

#[test]
fn mdns_service_types() {
    let ok = split_service_type_and_domain("_hyperlinked._tcp.local.").ok().unwrap();
    assert_eq!(ok, ("_hyperlinked._tcp".to_string(), "local.".to_string()));
    let custom = split_service_type_and_domain(" _web._UDP.example.com.. ").ok().unwrap();
    assert_eq!(custom, ("_web._UDP".to_string(), "example.com.".to_string()));
    assert_eq!(split_service_type_and_domain("_x._tcp").ok().unwrap(), ("_x._tcp".to_string(), "local.".to_string()));
    assert_eq!(split_service_type_and_domain(" ... ").err().unwrap(), "mDNS service type cannot be empty");
    assert_eq!(
        split_service_type_and_domain("web._tcp.local").err().unwrap(),
        "invalid mDNS service type `web._tcp`: service name must start with `_`"
    );
    assert_eq!(
        split_service_type_and_domain("_web").err().unwrap(),
        "invalid mDNS service type `_web`: expected `_<name>._tcp` or `_<name>._tcp.<domain>`"
    );
    let options = MdnsOptions::new(true, "  ".to_string(), " ".to_string(), "host".to_string());
    assert_eq!(options.service_name, "host");
    assert_eq!(options.service_type, "_hyperlinked._tcp.local.");
    assert_eq!(MdnsOptions::default_service_type(), "_hyperlinked._tcp.local.");
    assert_eq!(MdnsOptions::default_service_name(Some("  "), Some(" box \n")), "box");
    assert_eq!(MdnsOptions::default_service_name(None, None), "hyperlinked");
    assert!(MdnsOptions::needs_default_name(" "));
    let (program, args) = advertisement_command(&MdnsOptions::new(true, " Lab ".to_string(), "_h._tcp.local.".to_string(), "x".to_string()), 8080, false).ok().unwrap();
    assert_eq!(program, "avahi-publish-service");
    assert_eq!(args, vec!["--no-fail", "--domain=local", "Lab", "_h._tcp", "8080"]);
    let (program, args) = advertisement_command(&MdnsOptions::new(true, "Lab".to_string(), "_h._tcp".to_string(), "x".to_string()), 80, true).ok().unwrap();
    assert_eq!(program, "dns-sd");
    assert_eq!(args, vec!["-R", "Lab", "_h._tcp", "local.", "80"]);
}

#[test]
fn chromium_lookup() {
    assert_eq!(chromium_path(Some("  ")), "chromium");
    assert_eq!(chromium_path(Some(" /opt/chrome ")), " /opt/chrome ");
    assert_eq!(chromium_path(None), "chromium");
    assert!(has_path_separator("a/b") && has_path_separator("a\\b") && !has_path_separator("ab"));
    assert_eq!(command_to_resolve("   "), None);
    assert_eq!(command_to_resolve(" chromium ").as_deref(), Some("chromium"));
    assert!(is_direct_command("bin/x", false) && is_direct_command("x", true) && !is_direct_command("x", false));
    assert_eq!(pathext_suffixes(".COM; exe ;;.BAT"), vec![".COM", ".exe", ".BAT"]);
    let d = ChromiumDiagnostics::from_resolution("chromium".to_string(), None);
    assert!(d.has_missing_binary());
}

#[test]
fn storage_paths_and_checksums() {
    let t = DateTimeParts { year: 2024, month: 3, day: 7, hour: 9, minute: 5, second: 0 };
    assert_eq!(
        build_relative_path(12, &HyperlinkArtifactKind::ReadableText, &t, "ff-1"),
        "12/readable_text/2024/03/07/20240307T090500Z-ff-1.md"
    );
    let far = DateTimeParts { year: 12345, month: 12, day: 31, hour: 23, minute: 59, second: 59 };
    assert!(build_relative_path(1, &HyperlinkArtifactKind::OgImage, &far, "u").starts_with("1/og_image/+12345/12/31/+123451231T235959Z-u.img"));
    assert_eq!(format_hex(0), "0");
    assert_eq!(format_hex(255), "ff");
    assert_eq!(unique_suffix_text(4096, 10), "1000-a");
    assert_eq!(sha256_hex(b"abc"), "ba7816bf8f01cfea414140de5dae2223b00361a396177a9cb410ff61f20015ad");
    let stored = stored_artifact("1/x".to_string(), b"");
    assert_eq!(stored.checksum_sha256, "e3b0c44298fc1c149afbf4c8996fb92427ae41e4649b934ca495991b7852b855");
    assert_eq!(validated_relative_path("1/a/./b.md").ok().unwrap(), "1/a/./b.md");
    assert_eq!(validated_relative_path("/abs").err().unwrap(), "artifact storage path must be relative");
    assert_eq!(validated_relative_path("a/../b").err().unwrap(), "artifact storage path contains unsafe components");
}
