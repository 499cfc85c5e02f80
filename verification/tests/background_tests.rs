use hyperlinked::background::{
    AdminBackupState, AdminImportState, AdminTagReclassifyState, BackupCompletionSummary,
    BackupDownloadError, BackupProgress, ImportCompletionSummary, ImportProgress,
    TagReclassifyCompletionSummary, TagReclassifyProgress,
};
use hyperlinked::maintenance::{BackupProgressStage, ImportProgressStage};
use hyperlinked::timestamps::Timestamp;

fn at(hour: u32, minute: u32, second: u32) -> Timestamp {
    Timestamp { year: 2026, month: 2, day: 19, hour, minute, second, nanosecond: 0 }
}

#[test]
fn backup_state_starts_idle_and_reports_download_readiness() {
    let state = AdminBackupState::new();
    let status = state.status_to_response(false);
    assert_eq!(status.state, "idle");
    assert_eq!(status.job_id, None);
    assert!(!status.download_ready);
    assert!(state.status_to_response(true).download_ready);
}

#[test]
fn backup_start_refuses_a_second_export_while_one_runs() {
    let mut state = AdminBackupState::new();
    let first = state.start_job(at(10, 0, 0), "/tmp/a.zip".to_string(), false);
    assert!(first.started);
    assert_eq!(first.status.state, "running");
    assert_eq!(first.status.job_id, Some(1));
    assert_eq!(first.status.started_at.as_deref(), Some("2026-02-19T10:00:00Z"));
    assert_eq!(first.status.stage.as_deref(), Some("loading_records"));
    assert_eq!(first.status.artifacts_done, Some(0));
    assert_eq!(first.status.artifacts_total, Some(0));

    let second = state.start_job(at(10, 0, 5), "/tmp/b.zip".to_string(), false);
    assert!(!second.started);
    assert_eq!(second.status.job_id, Some(1));
    assert_eq!(state.next_job_id, 2);
}

#[test]
fn backup_progress_from_other_jobs_is_ignored() {
    let mut state = AdminBackupState::new();
    state.start_job(at(10, 0, 0), "/tmp/a.zip".to_string(), false);
    let progress = BackupProgress {
        stage: BackupProgressStage::PackingArtifacts,
        artifacts_done: 3,
        artifacts_total: 10,
    };
    state.update_progress(7, progress);
    assert_eq!(state.status_to_response(false).stage.as_deref(), Some("loading_records"));
    state.update_progress(1, progress);
    let status = state.status_to_response(false);
    assert_eq!(status.stage.as_deref(), Some("packing_artifacts"));
    assert_eq!(status.artifacts_done, Some(3));
    assert_eq!(status.artifacts_total, Some(10));
}

#[test]
fn backup_ready_replaces_the_previous_export_file() {
    let mut state = AdminBackupState::new();
    let summary = BackupCompletionSummary { hyperlinks: 5, relations: 2, artifacts: 10 };
    state.start_job(at(10, 0, 0), "/tmp/a.zip".to_string(), false);
    assert!(state.mark_ready(9, summary, at(10, 1, 0)).is_none());
    let files = state.mark_ready(1, summary, at(10, 1, 0)).expect("running export finishes");
    assert_eq!(files.latest, "/tmp/a.zip");
    assert_eq!(files.superseded, None);

    let status = state.status_to_response(true);
    assert_eq!(status.state, "ready");
    assert_eq!(status.job_id, Some(1));
    assert_eq!(status.finished_at.as_deref(), Some("2026-02-19T10:01:00Z"));
    assert_eq!(status.hyperlinks, Some(5));
    assert_eq!(status.relations, Some(2));
    assert_eq!(status.artifacts, Some(10));
    assert_eq!(status.stage, None);
    assert!(status.download_ready);

    let next = state.start_job(at(11, 0, 0), "/tmp/b.zip".to_string(), true);
    assert!(next.started);
    assert_eq!(next.status.job_id, Some(2));
    let files = state.mark_ready(2, summary, at(11, 2, 0)).expect("second export finishes");
    assert_eq!(files.latest, "/tmp/b.zip");
    assert_eq!(files.superseded.as_deref(), Some("/tmp/a.zip"));
}

#[test]
fn backup_failure_and_cancel_hand_back_the_partial_file() {
    let mut state = AdminBackupState::new();
    state.start_job(at(10, 0, 0), "/tmp/a.zip".to_string(), false);
    assert_eq!(state.mark_failed(4, "boom".to_string(), at(10, 0, 1)), None);
    assert_eq!(
        state.mark_failed(1, "disk full".to_string(), at(10, 0, 2)).as_deref(),
        Some("/tmp/a.zip")
    );
    let status = state.status_to_response(false);
    assert_eq!(status.state, "failed");
    assert_eq!(status.error.as_deref(), Some("disk full"));

    assert_eq!(state.cancel_running(at(10, 0, 3)), None);
    state.start_job(at(10, 5, 0), "/tmp/b.zip".to_string(), false);
    assert_eq!(state.cancel_running(at(10, 5, 1)).as_deref(), Some("/tmp/b.zip"));
    let status = state.status_to_response(false);
    assert_eq!(status.state, "cancelled");
    assert_eq!(status.job_id, Some(2));
    assert_eq!(status.error, None);
    let summary = BackupCompletionSummary { hyperlinks: 1, relations: 0, artifacts: 0 };
    assert!(state.mark_ready(2, summary, at(10, 6, 0)).is_none());
    assert_eq!(state.status_to_response(false).state, "cancelled");
}

#[test]
fn backup_download_needs_a_payload() {
    let mut state = AdminBackupState::new();
    assert_eq!(state.download_file_path(None), Err(BackupDownloadError::NotReady));
    assert_eq!(
        state.download_file_path(Some("/tmp/old.zip".to_string())),
        Ok("/tmp/old.zip".to_string())
    );
    state.start_job(at(10, 0, 0), "/tmp/a.zip".to_string(), false);
    let summary = BackupCompletionSummary { hyperlinks: 0, relations: 0, artifacts: 0 };
    state.mark_ready(1, summary, at(10, 0, 1));
    assert_eq!(state.download_file_path(None), Err(BackupDownloadError::MissingPayload));
}

#[test]
fn import_reports_progress_and_completion_counts() {
    let mut state = AdminImportState::new();
    assert_eq!(state.status_to_response().state, "idle");
    let started = state.start_job("/tmp/upload.zip".to_string(), at(9, 0, 0));
    assert!(started.started);
    assert_eq!(started.status.job_id, Some(1));
    assert_eq!(started.status.stage.as_deref(), Some("validating"));
    assert_eq!(started.status.hyperlinks_total, Some(0));

    let refused = state.start_job("/tmp/other.zip".to_string(), at(9, 0, 1));
    assert!(!refused.started);
    assert_eq!(refused.status.job_id, Some(1));

    let progress = ImportProgress {
        stage: ImportProgressStage::RestoringRelations,
        hyperlinks_done: 4,
        hyperlinks_total: 4,
        relations_done: 1,
        relations_total: 3,
        artifacts_done: 0,
        artifacts_total: 8,
    };
    state.update_progress(1, progress);
    let status = state.status_to_response();
    assert_eq!(status.stage.as_deref(), Some("restoring_relations"));
    assert_eq!(status.relations_done, Some(1));
    assert_eq!(status.relations_total, Some(3));

    let summary = ImportCompletionSummary { hyperlinks: 4, relations: 3, artifacts: 8 };
    assert_eq!(state.mark_ready(2, summary, at(9, 1, 0)), None);
    assert_eq!(state.mark_ready(1, summary, at(9, 1, 0)).as_deref(), Some("/tmp/upload.zip"));
    let status = state.status_to_response();
    assert_eq!(status.state, "ready");
    assert_eq!(status.hyperlinks_done, Some(4));
    assert_eq!(status.hyperlinks_total, Some(4));
    assert_eq!(status.relations_done, Some(3));
    assert_eq!(status.artifacts_total, Some(8));
    assert_eq!(status.artifacts, Some(8));
}

#[test]
fn import_failure_and_cancel_release_the_archive() {
    let mut state = AdminImportState::new();
    state.start_job("/tmp/a.zip".to_string(), at(9, 0, 0));
    assert_eq!(
        state.mark_failed(1, "bad manifest".to_string(), at(9, 0, 1)).as_deref(),
        Some("/tmp/a.zip")
    );
    let status = state.status_to_response();
    assert_eq!(status.state, "failed");
    assert_eq!(status.error.as_deref(), Some("bad manifest"));
    assert_eq!(status.hyperlinks_done, None);

    state.start_job("/tmp/b.zip".to_string(), at(9, 2, 0));
    assert_eq!(state.cancel_running(at(9, 2, 1)).as_deref(), Some("/tmp/b.zip"));
    assert_eq!(state.status_to_response().state, "cancelled");
    assert_eq!(state.status_to_response().job_id, Some(2));
    assert_eq!(state.cancel_running(at(9, 2, 2)), None);
}

#[test]
fn tag_reclassify_takes_the_larger_job_number() {
    let mut state = AdminTagReclassifyState::new();
    let started = state.start_job(5, at(8, 0, 0));
    assert!(started.started);
    assert_eq!(started.status.job_id, Some(5));
    assert_eq!(started.status.processed, Some(0));
    assert_eq!(started.status.total, Some(0));
    assert_eq!(state.next_job_id, 6);
    assert!(!state.start_job(9, at(8, 0, 1)).started);

    state.update_progress(5, TagReclassifyProgress { processed: 2, total: 7 });
    assert_eq!(state.status_to_response().processed, Some(2));
    state.mark_ready(5, TagReclassifyCompletionSummary { processed: 7, total: 7 }, at(8, 1, 0));
    let status = state.status_to_response();
    assert_eq!(status.state, "ready");
    assert_eq!(status.processed, Some(7));

    let again = state.start_job(2, at(8, 2, 0));
    assert_eq!(again.status.job_id, Some(6));
    assert_eq!(state.next_job_id, 7);
}

#[test]
fn tag_reclassify_cancel_and_failure_keep_progress() {
    let mut state = AdminTagReclassifyState::new();
    state.start_job(1, at(8, 0, 0));
    state.update_progress(1, TagReclassifyProgress { processed: 3, total: 9 });
    assert!(state.cancel_running(at(8, 0, 5)));
    let status = state.status_to_response();
    assert_eq!(status.state, "cancelled");
    assert_eq!(status.processed, Some(3));
    assert_eq!(status.total, Some(9));
    assert!(!state.cancel_running(at(8, 0, 6)));

    state.start_job(1, at(8, 1, 0));
    state.mark_failed(
        2,
        "classifier offline".to_string(),
        TagReclassifyProgress { processed: 4, total: 9 },
        at(8, 1, 1),
    );
    state.mark_failed(
        state.status_to_response().job_id.unwrap(),
        "classifier offline".to_string(),
        TagReclassifyProgress { processed: 4, total: 9 },
        at(8, 1, 1),
    );
    let status = state.status_to_response();
    assert_eq!(status.state, "failed");
    assert_eq!(status.error.as_deref(), Some("classifier offline"));
    assert_eq!(status.processed, Some(4));
}
