use hyperlinked::admin::{
    backup_count_error, backup_version_error, check_backup_contents, queued_jobs_message,
    ArchiveArtifactEntry, SeenArtifactIds,
};
use hyperlinked::change_feed::{order_hyperlink_changes, server_updated_at, HyperlinkChange};
use hyperlinked::maintenance::{gc_retry_schedule, HyperlinkChangeType};
use hyperlinked::maintenance::BackupProgressStage;
use hyperlinked::packing::{
    backup_payload_path, loading_records_progress, PackingSchedule, BACKUP_ARTIFACT_READ_CONCURRENCY,
};
use hyperlinked::process_stats::{parse_ps_columns, resident_memory_bytes, PsOutputError};
use hyperlinked::timestamps::Timestamp;

fn at(second: u32) -> Timestamp {
    Timestamp { year: 2026, month: 2, day: 19, hour: 0, minute: 0, second, nanosecond: 0 }
}

fn change(id: i32, change_type: HyperlinkChangeType, second: u32) -> HyperlinkChange {
    HyperlinkChange { id, change_type, updated_at: at(second) }
}

#[test]
fn change_feed_orders_by_time_then_id_then_update_first() {
    let updated = vec![(3, at(5)), (1, at(9)), (2, at(5))];
    let deleted = vec![(2, at(5)), (7, at(1))];
    let feed = order_hyperlink_changes(&updated, &deleted);
    assert_eq!(
        feed,
        vec![
            change(7, HyperlinkChangeType::Deleted, 1),
            change(2, HyperlinkChangeType::Updated, 5),
            change(2, HyperlinkChangeType::Deleted, 5),
            change(3, HyperlinkChangeType::Updated, 5),
            change(1, HyperlinkChangeType::Updated, 9),
        ]
    );
    assert_eq!(server_updated_at(&feed, at(30)), at(9));
    assert_eq!(server_updated_at(&Vec::new(), at(30)), at(30));
}

#[test]
fn change_feed_orders_fractions_of_a_second() {
    let early = Timestamp { nanosecond: 1, ..at(5) };
    let feed = order_hyperlink_changes(&vec![(1, early), (2, at(5))], &Vec::new());
    assert_eq!(feed[0].id, 2);
    assert_eq!(feed[1].id, 1);
}

#[test]
fn packing_writes_payloads_in_list_order() {
    let mut schedule = PackingSchedule::new(6);
    let first = schedule.start_reads();
    assert_eq!(first, vec![0, 1, 2, 3]);
    assert_eq!(first.len(), BACKUP_ARTIFACT_READ_CONCURRENCY);
    assert!(schedule.start_reads().is_empty());
    assert!(schedule.finish_read(2).is_empty());
    assert_eq!(schedule.start_reads(), vec![4]);
    assert!(schedule.finish_read(1).is_empty());
    assert_eq!(schedule.finish_read(0), vec![0, 1, 2]);
    assert_eq!(schedule.start_reads(), vec![5]);
    assert!(schedule.finish_read(5).is_empty());
    assert!(schedule.finish_read(4).is_empty());
    assert!(!schedule.is_complete());
    assert_eq!(schedule.finish_read(3), vec![3, 4, 5]);
    assert!(schedule.is_complete());
    assert!(schedule.start_reads().is_empty());
    assert!(PackingSchedule::new(0).is_complete());
    assert_eq!(backup_payload_path(42), "artifacts/42.bin");
}

#[test]
fn backup_archives_are_checked_against_their_manifest() {
    assert_eq!(backup_version_error(1), None);
    assert_eq!(backup_version_error(2).as_deref(), Some("unsupported backup version 2; expected 1"));
    assert_eq!(backup_count_error((2, 1, 3), (2, 1, 3)), None);
    assert_eq!(
        backup_count_error((2, 1, 3), (2, 0, 4)).as_deref(),
        Some("relations count mismatch: manifest says 1, file contains 0")
    );
    assert_eq!(
        backup_count_error((2, 1, 3), (2, 1, 4)).as_deref(),
        Some("artifacts count mismatch: manifest says 3, file contains 4")
    );
    let mut seen = SeenArtifactIds::new();
    assert_eq!(seen.record(4), Ok(()));
    assert_eq!(seen.record(9), Ok(()));
    assert_eq!(seen.record(4), Err("duplicate artifact id 4 in artifacts.json".to_string()));
    assert_eq!(
        queued_jobs_message(2, 1, 0),
        "Queued 2 snapshot job(s), 1 og job(s), and 0 readability job(s)."
    );
}

#[test]
fn gc_retry_waits_longer_after_each_failure() {
    assert_eq!(gc_retry_schedule(0), (1, "+15 seconds".to_string()));
    assert_eq!(gc_retry_schedule(1), (2, "+30 seconds".to_string()));
    assert_eq!(gc_retry_schedule(20), (21, "+960 seconds".to_string()));
    assert_eq!(gc_retry_schedule(i64::MAX).0, i64::MAX);
}

#[test]
fn ps_output_is_read_for_the_expected_process() {
    let columns = parse_ps_columns(1234, "\n   \n  1234  0.5  2048\n").expect("line for the process");
    assert_eq!(columns.pid, 1234);
    assert_eq!(columns.cpu_text, "0.5");
    assert_eq!(columns.rss_text, "2048");
    assert_eq!(parse_ps_columns(1234, "+1234 1 2").map(|c| c.pid), Ok(1234));
    assert_eq!(parse_ps_columns(1234, "").err(), Some(PsOutputError::Empty));
    assert_eq!(parse_ps_columns(1234, " \n \n").err(), Some(PsOutputError::Empty));
    assert_eq!(parse_ps_columns(1234, "1234 0.5").err(), Some(PsOutputError::TooFewColumns(2)));
    assert_eq!(
        parse_ps_columns(1234, "abc 0.5 1").err(),
        Some(PsOutputError::InvalidPid("abc".to_string()))
    );
    assert_eq!(parse_ps_columns(1234, "99 0 1").err(), Some(PsOutputError::OtherProcess(99)));
    assert_eq!(resident_memory_bytes(2048), 2_097_152);
    assert_eq!(resident_memory_bytes(u64::MAX), u64::MAX);
}

fn archive_entry(id: i32, path: &str, read_error: Option<&str>) -> ArchiveArtifactEntry {
    ArchiveArtifactEntry {
        id,
        payload_path: path.to_string(),
        read_error: read_error.map(|e| e.to_string()),
    }
}

#[test]
fn backup_contents_accepted_when_consistent() {
    let artifacts = vec![archive_entry(1, "artifacts/1.bin", None), archive_entry(2, "artifacts/2.bin", None)];
    assert_eq!(check_backup_contents(1, (3, 1, 2), 3, 1, &artifacts), Ok(()));
    assert_eq!(check_backup_contents(1, (0, 0, 0), 0, 0, &Vec::new()), Ok(()));
}

#[test]
fn backup_contents_errors_in_order() {
    let artifacts = vec![archive_entry(1, "../escape", None), archive_entry(1, "artifacts/1.bin", None)];
    assert_eq!(
        check_backup_contents(2, (9, 9, 9), 0, 0, &artifacts),
        Err("unsupported backup version 2; expected 1".to_string())
    );
    assert_eq!(
        check_backup_contents(1, (3, 1, 3), 3, 1, &artifacts),
        Err("artifacts count mismatch: manifest says 3, file contains 2".to_string())
    );
    assert_eq!(
        check_backup_contents(1, (3, 1, 2), 3, 1, &artifacts),
        Err("artifact payload path is unsafe: ../escape".to_string())
    );
    let unreadable = vec![archive_entry(4, "artifacts/4.bin", Some("missing artifacts/4.bin in backup zip"))];
    assert_eq!(
        check_backup_contents(1, (0, 0, 1), 0, 0, &unreadable),
        Err("missing artifacts/4.bin in backup zip".to_string())
    );
    let duplicated = vec![
        archive_entry(7, "artifacts/a.bin", None),
        archive_entry(7, "artifacts/b.bin", None),
        archive_entry(8, "/abs", None),
    ];
    assert_eq!(
        check_backup_contents(1, (0, 0, 3), 0, 0, &duplicated),
        Err("duplicate artifact id 7 in artifacts.json".to_string())
    );
}

#[test]
fn backup_progress_reports_and_summary() {
    let loading = loading_records_progress();
    assert_eq!(loading.stage, BackupProgressStage::LoadingRecords);
    assert_eq!((loading.artifacts_done, loading.artifacts_total), (0, 0));

    let mut schedule = PackingSchedule::new(3);
    let start = schedule.packing_progress();
    assert_eq!(start.stage, BackupProgressStage::PackingArtifacts);
    assert_eq!((start.artifacts_done, start.artifacts_total), (0, 3));

    assert_eq!(schedule.start_reads(), vec![0, 1, 2]);
    let none = schedule.finish_read(1);
    assert!(schedule.write_reports(&none).is_empty());
    let written = schedule.finish_read(0);
    assert_eq!(written, vec![0, 1]);
    let reports = schedule.write_reports(&written);
    assert_eq!(reports.len(), 2);
    assert_eq!((reports[0].artifacts_done, reports[0].artifacts_total), (1, 3));
    assert_eq!((reports[1].artifacts_done, reports[1].artifacts_total), (2, 3));
    assert_eq!(reports[1].stage, BackupProgressStage::PackingArtifacts);
    let last = schedule.finish_read(2);
    let reports = schedule.write_reports(&last);
    assert_eq!((reports[0].artifacts_done, reports[0].artifacts_total), (3, 3));
    assert_eq!(schedule.packing_progress().artifacts_done, 3);

    let finalizing = schedule.finalizing_progress();
    assert_eq!(finalizing.stage, BackupProgressStage::Finalizing);
    assert_eq!((finalizing.artifacts_done, finalizing.artifacts_total), (3, 3));
    let summary = schedule.summary(7, 2);
    assert_eq!((summary.hyperlinks, summary.relations, summary.artifacts), (7, 2, 3));
}
