//! The admin's background jobs (backup export, backup import, tag
//! reclassification): the state each keeps, how a report from the worker
//! moves it, and the status the admin page polls.
//!
//! Each state lives behind a lock in the server together with the handle of
//! the running task; the methods here decide, and hand back the files that
//! the caller then writes or removes.
use vstd::prelude::*;

use crate::maintenance::{BackupProgressStage, ImportProgressStage};
use crate::search::opt_string_view;
use crate::timestamps::{datetime_text, format_datetime, Timestamp};

verus! {

/// The text of a backup stage in a status report.
pub open spec fn backup_stage_text(s: BackupProgressStage) -> Seq<char> {
    match s {
        BackupProgressStage::LoadingRecords => "loading_records"@,
        BackupProgressStage::PackingArtifacts => "packing_artifacts"@,
        BackupProgressStage::Finalizing => "finalizing"@,
    }
}

/// The text of an import stage in a status report.
pub open spec fn import_stage_text(s: ImportProgressStage) -> Seq<char> {
    match s {
        ImportProgressStage::Validating => "validating"@,
        ImportProgressStage::RestoringHyperlinks => "restoring_hyperlinks"@,
        ImportProgressStage::RestoringRelations => "restoring_relations"@,
        ImportProgressStage::RestoringArtifacts => "restoring_artifacts"@,
        ImportProgressStage::Finalizing => "finalizing"@,
    }
}

fn time_text(t: &Timestamp) -> (r: Option<String>)
    ensures
        opt_string_view(r) == Some(datetime_text(*t)),
{
    Some(format_datetime(t))
}

fn clone_text(e: &Option<String>) -> (r: Option<String>)
    ensures
        r == *e,
{
    match e {
        Some(s) => Some(s.clone()),
        None => None,
    }
}

// ===========================================================================
// Backup export
// ===========================================================================

/// How far a running export has come.
#[derive(Clone, Copy, Debug)]
pub struct BackupProgress {
    pub stage: BackupProgressStage,
    pub artifacts_done: usize,
    pub artifacts_total: usize,
}

/// What a finished export holds.
#[derive(Clone, Copy, Debug)]
pub struct BackupCompletionSummary {
    pub hyperlinks: usize,
    pub relations: usize,
    pub artifacts: usize,
}

pub struct BackupRunningStatus {
    pub job_id: u64,
    pub started_at: Timestamp,
    pub output_path: String,
    pub stage: BackupProgressStage,
    pub artifacts_done: usize,
    pub artifacts_total: usize,
}

pub struct BackupReadyStatus {
    pub job_id: u64,
    pub started_at: Timestamp,
    pub finished_at: Timestamp,
    pub summary: BackupCompletionSummary,
}

/// A job that ended without a result: failed (with its error) or cancelled.
pub struct JobTerminalStatus {
    pub job_id: u64,
    pub started_at: Timestamp,
    pub finished_at: Timestamp,
    pub error: Option<String>,
}

pub enum BackupStatus {
    Idle,
    Running(BackupRunningStatus),
    Ready(BackupReadyStatus),
    Failed(JobTerminalStatus),
    Cancelled(JobTerminalStatus),
}

/// The export state: the number the next export gets, the current status,
/// and the file of the last export that finished.
pub struct AdminBackupState {
    pub next_job_id: u64,
    pub status: BackupStatus,
    pub ready_file_path: Option<String>,
}

/// The status report of the export, as the admin page reads it.
pub struct BackupStatusResponse {
    pub state: String,
    pub job_id: Option<u64>,
    pub started_at: Option<String>,
    pub finished_at: Option<String>,
    pub stage: Option<String>,
    pub artifacts_done: Option<usize>,
    pub artifacts_total: Option<usize>,
    pub hyperlinks: Option<usize>,
    pub relations: Option<usize>,
    pub artifacts: Option<usize>,
    pub error: Option<String>,
    pub download_ready: bool,
}

/// A status report with its texts taken as character sequences.
pub struct BackupReport {
    pub state: Seq<char>,
    pub job_id: Option<u64>,
    pub started_at: Option<Seq<char>>,
    pub finished_at: Option<Seq<char>>,
    pub stage: Option<Seq<char>>,
    pub artifacts_done: Option<usize>,
    pub artifacts_total: Option<usize>,
    pub hyperlinks: Option<usize>,
    pub relations: Option<usize>,
    pub artifacts: Option<usize>,
    pub error: Option<Seq<char>>,
    pub download_ready: bool,
}

impl View for BackupStatusResponse {
    type V = BackupReport;

    open spec fn view(&self) -> BackupReport {
        BackupReport {
            state: self.state@,
            job_id: self.job_id,
            started_at: opt_string_view(self.started_at),
            finished_at: opt_string_view(self.finished_at),
            stage: opt_string_view(self.stage),
            artifacts_done: self.artifacts_done,
            artifacts_total: self.artifacts_total,
            hyperlinks: self.hyperlinks,
            relations: self.relations,
            artifacts: self.artifacts,
            error: opt_string_view(self.error),
            download_ready: self.download_ready,
        }
    }
}

/// The answer to a request to start an export.
pub struct StartBackupResult {
    pub started: bool,
    pub status: BackupStatusResponse,
}

/// Why no export can be downloaded.
#[derive(Clone, Copy, Debug, PartialEq, Eq, Structural)]
pub enum BackupDownloadError {
    NotReady,
    MissingPayload,
}

/// The files to settle once an export is ready: the new file, to be
/// remembered as the latest, and the earlier one it replaces.
pub struct BackupReadyFiles {
    pub latest: String,
    pub superseded: Option<String>,
}

/// The report of an export state; `has_payload` says whether a finished
/// export file can be downloaded.
pub open spec fn backup_report(status: BackupStatus, has_payload: bool) -> BackupReport {
    match status {
        BackupStatus::Idle => BackupReport {
            state: "idle"@,
            job_id: None,
            started_at: None,
            finished_at: None,
            stage: None,
            artifacts_done: None,
            artifacts_total: None,
            hyperlinks: None,
            relations: None,
            artifacts: None,
            error: None,
            download_ready: has_payload,
        },
        BackupStatus::Running(r) => BackupReport {
            state: "running"@,
            job_id: Some(r.job_id),
            started_at: Some(datetime_text(r.started_at)),
            finished_at: None,
            stage: Some(backup_stage_text(r.stage)),
            artifacts_done: Some(r.artifacts_done),
            artifacts_total: Some(r.artifacts_total),
            hyperlinks: None,
            relations: None,
            artifacts: None,
            error: None,
            download_ready: has_payload,
        },
        BackupStatus::Ready(r) => BackupReport {
            state: "ready"@,
            job_id: Some(r.job_id),
            started_at: Some(datetime_text(r.started_at)),
            finished_at: Some(datetime_text(r.finished_at)),
            stage: None,
            artifacts_done: None,
            artifacts_total: None,
            hyperlinks: Some(r.summary.hyperlinks),
            relations: Some(r.summary.relations),
            artifacts: Some(r.summary.artifacts),
            error: None,
            download_ready: has_payload,
        },
        BackupStatus::Failed(f) => BackupReport {
            state: "failed"@,
            job_id: Some(f.job_id),
            started_at: Some(datetime_text(f.started_at)),
            finished_at: Some(datetime_text(f.finished_at)),
            stage: None,
            artifacts_done: None,
            artifacts_total: None,
            hyperlinks: None,
            relations: None,
            artifacts: None,
            error: opt_string_view(f.error),
            download_ready: has_payload,
        },
        BackupStatus::Cancelled(c) => BackupReport {
            state: "cancelled"@,
            job_id: Some(c.job_id),
            started_at: Some(datetime_text(c.started_at)),
            finished_at: Some(datetime_text(c.finished_at)),
            stage: None,
            artifacts_done: None,
            artifacts_total: None,
            hyperlinks: None,
            relations: None,
            artifacts: None,
            error: None,
            download_ready: has_payload,
        },
    }
}

/// The number of the export now running, if one runs.
pub open spec fn backup_running_id(s: AdminBackupState) -> Option<u64> {
    match s.status {
        BackupStatus::Running(r) => Some(r.job_id),
        _ => None,
    }
}

/// A request to start: refused while an export runs; otherwise the export
/// takes the next number and starts loading records.
pub open spec fn backup_after_start(
    s: AdminBackupState,
    started_at: Timestamp,
    output_path: String,
) -> AdminBackupState {
    if s.status is Running {
        s
    } else {
        AdminBackupState {
            next_job_id: s.next_job_id.saturating_add(1),
            status: BackupStatus::Running(
                BackupRunningStatus {
                    job_id: s.next_job_id,
                    started_at,
                    output_path,
                    stage: BackupProgressStage::LoadingRecords,
                    artifacts_done: 0,
                    artifacts_total: 0,
                },
            ),
            ready_file_path: s.ready_file_path,
        }
    }
}

/// A progress report: taken only from the export that runs.
pub open spec fn backup_after_progress(s: AdminBackupState, job_id: u64, p: BackupProgress) -> AdminBackupState {
    match s.status {
        BackupStatus::Running(r) => if r.job_id == job_id {
            AdminBackupState {
                next_job_id: s.next_job_id,
                status: BackupStatus::Running(
                    BackupRunningStatus {
                        job_id: r.job_id,
                        started_at: r.started_at,
                        output_path: r.output_path,
                        stage: p.stage,
                        artifacts_done: p.artifacts_done,
                        artifacts_total: p.artifacts_total,
                    },
                ),
                ready_file_path: s.ready_file_path,
            }
        } else {
            s
        },
        _ => s,
    }
}

/// The running export finished: it is ready and its file is the latest.
pub open spec fn backup_after_ready(
    s: AdminBackupState,
    job_id: u64,
    summary: BackupCompletionSummary,
    finished_at: Timestamp,
) -> AdminBackupState {
    match s.status {
        BackupStatus::Running(r) => if r.job_id == job_id {
            AdminBackupState {
                next_job_id: s.next_job_id,
                status: BackupStatus::Ready(
                    BackupReadyStatus { job_id, started_at: r.started_at, finished_at, summary },
                ),
                ready_file_path: Some(r.output_path),
            }
        } else {
            s
        },
        _ => s,
    }
}

/// The running export failed with `error`.
pub open spec fn backup_after_failed(
    s: AdminBackupState,
    job_id: u64,
    error: String,
    finished_at: Timestamp,
) -> AdminBackupState {
    match s.status {
        BackupStatus::Running(r) => if r.job_id == job_id {
            AdminBackupState {
                next_job_id: s.next_job_id,
                status: BackupStatus::Failed(
                    JobTerminalStatus {
                        job_id,
                        started_at: r.started_at,
                        finished_at,
                        error: Some(error),
                    },
                ),
                ready_file_path: s.ready_file_path,
            }
        } else {
            s
        },
        _ => s,
    }
}

/// The running export, if any, is cancelled.
pub open spec fn backup_after_cancel(s: AdminBackupState, finished_at: Timestamp) -> AdminBackupState {
    match s.status {
        BackupStatus::Running(r) => AdminBackupState {
            next_job_id: s.next_job_id,
            status: BackupStatus::Cancelled(
                JobTerminalStatus {
                    job_id: r.job_id,
                    started_at: r.started_at,
                    finished_at,
                    error: None,
                },
            ),
            ready_file_path: s.ready_file_path,
        },
        _ => s,
    }
}

/// The file of the running export, if one runs.
pub open spec fn backup_running_path(s: AdminBackupState) -> Option<String> {
    match s.status {
        BackupStatus::Running(r) => Some(r.output_path),
        _ => None,
    }
}

impl AdminBackupState {
    /// No export yet; the first gets number 1.
    pub fn new() -> (s: Self)
        ensures
            s.next_job_id == 1,
            s.status is Idle,
            s.ready_file_path is None,
    {
        AdminBackupState { next_job_id: 1, status: BackupStatus::Idle, ready_file_path: None }
    }

    /// The status report; `has_payload` says whether an export file can be
    /// downloaded.
    pub fn status_to_response(&self, has_payload: bool) -> (r: BackupStatusResponse)
        ensures
            r@ == backup_report(self.status, has_payload),
    {
        match &self.status {
            BackupStatus::Idle => BackupStatusResponse {
                state: "idle".to_string(),
                job_id: None,
                started_at: None,
                finished_at: None,
                stage: None,
                artifacts_done: None,
                artifacts_total: None,
                hyperlinks: None,
                relations: None,
                artifacts: None,
                error: None,
                download_ready: has_payload,
            },
            BackupStatus::Running(running) => BackupStatusResponse {
                state: "running".to_string(),
                job_id: Some(running.job_id),
                started_at: time_text(&running.started_at),
                finished_at: None,
                stage: Some(running.stage.as_str().to_string()),
                artifacts_done: Some(running.artifacts_done),
                artifacts_total: Some(running.artifacts_total),
                hyperlinks: None,
                relations: None,
                artifacts: None,
                error: None,
                download_ready: has_payload,
            },
            BackupStatus::Ready(ready) => BackupStatusResponse {
                state: "ready".to_string(),
                job_id: Some(ready.job_id),
                started_at: time_text(&ready.started_at),
                finished_at: time_text(&ready.finished_at),
                stage: None,
                artifacts_done: None,
                artifacts_total: None,
                hyperlinks: Some(ready.summary.hyperlinks),
                relations: Some(ready.summary.relations),
                artifacts: Some(ready.summary.artifacts),
                error: None,
                download_ready: has_payload,
            },
            BackupStatus::Failed(failed) => BackupStatusResponse {
                state: "failed".to_string(),
                job_id: Some(failed.job_id),
                started_at: time_text(&failed.started_at),
                finished_at: time_text(&failed.finished_at),
                stage: None,
                artifacts_done: None,
                artifacts_total: None,
                hyperlinks: None,
                relations: None,
                artifacts: None,
                error: clone_text(&failed.error),
                download_ready: has_payload,
            },
            BackupStatus::Cancelled(cancelled) => BackupStatusResponse {
                state: "cancelled".to_string(),
                job_id: Some(cancelled.job_id),
                started_at: time_text(&cancelled.started_at),
                finished_at: time_text(&cancelled.finished_at),
                stage: None,
                artifacts_done: None,
                artifacts_total: None,
                hyperlinks: None,
                relations: None,
                artifacts: None,
                error: None,
                download_ready: has_payload,
            },
        }
    }

    /// Starts an export writing to `output_path` (made for the number
    /// `next_job_id`), unless one runs. When it starts, the caller clears
    /// any old file at `output_path` and spawns the worker.
    pub fn start_job(&mut self, started_at: Timestamp, output_path: String, has_payload: bool) -> (r:
        StartBackupResult)
        ensures
            *final(self) == backup_after_start(*old(self), started_at, output_path),
            r.started == !(old(self).status is Running),
            r.status@ == backup_report(final(self).status, has_payload),
    {
        if let BackupStatus::Running(_) = &self.status {
            return StartBackupResult { started: false, status: self.status_to_response(has_payload) };
        }
        let job_id = self.next_job_id;
        self.next_job_id = self.next_job_id.saturating_add(1);
        self.status = BackupStatus::Running(
            BackupRunningStatus {
                job_id,
                started_at,
                output_path,
                stage: BackupProgressStage::LoadingRecords,
                artifacts_done: 0,
                artifacts_total: 0,
            },
        );
        StartBackupResult { started: true, status: self.status_to_response(has_payload) }
    }

    /// Takes a progress report of export `job_id`.
    pub fn update_progress(&mut self, job_id: u64, progress: BackupProgress)
        ensures
            *final(self) == backup_after_progress(*old(self), job_id, progress),
    {
        let next = match &self.status {
            BackupStatus::Running(r) => if r.job_id == job_id {
                Some(
                    BackupRunningStatus {
                        job_id: r.job_id,
                        started_at: r.started_at,
                        output_path: r.output_path.clone(),
                        stage: progress.stage,
                        artifacts_done: progress.artifacts_done,
                        artifacts_total: progress.artifacts_total,
                    },
                )
            } else {
                None
            },
            _ => None,
        };
        if let Some(n) = next {
            self.status = BackupStatus::Running(n);
        }
    }

    /// Export `job_id` finished. Where it was the running one, hands back its
    /// file, to be recorded as the latest, and the earlier file it replaces,
    /// to be removed.
    pub fn mark_ready(&mut self, job_id: u64, summary: BackupCompletionSummary, finished_at: Timestamp) -> (r:
        Option<BackupReadyFiles>)
        ensures
            *final(self) == backup_after_ready(*old(self), job_id, summary, finished_at),
            r is Some <==> backup_running_id(*old(self)) == Some(job_id),
            r matches Some(files) ==> {
                &&& Some(files.latest) == backup_running_path(*old(self))
                &&& files.superseded == (match old(self).ready_file_path {
                    Some(p) => if p@ == files.latest@ {
                        None
                    } else {
                        Some(p)
                    },
                    None => None,
                })
            },
    {
        let (started_at, output_path) = match &self.status {
            BackupStatus::Running(r) => if r.job_id == job_id {
                (r.started_at, r.output_path.clone())
            } else {
                return None;
            },
            _ => return None,
        };
        let superseded = match &self.ready_file_path {
            Some(p) => if *p == output_path {
                None
            } else {
                Some(p.clone())
            },
            None => None,
        };
        self.status = BackupStatus::Ready(
            BackupReadyStatus { job_id, started_at, finished_at, summary },
        );
        self.ready_file_path = Some(output_path.clone());
        Some(BackupReadyFiles { latest: output_path, superseded })
    }

    /// Export `job_id` failed. Where it was the running one, hands back its
    /// file, to be removed.
    pub fn mark_failed(&mut self, job_id: u64, error: String, finished_at: Timestamp) -> (r: Option<String>)
        ensures
            *final(self) == backup_after_failed(*old(self), job_id, error, finished_at),
            r == (if backup_running_id(*old(self)) == Some(job_id) {
                backup_running_path(*old(self))
            } else {
                None
            }),
    {
        let (started_at, output_path) = match &self.status {
            BackupStatus::Running(r) => if r.job_id == job_id {
                (r.started_at, r.output_path.clone())
            } else {
                return None;
            },
            _ => return None,
        };
        self.status = BackupStatus::Failed(
            JobTerminalStatus { job_id, started_at, finished_at, error: Some(error) },
        );
        Some(output_path)
    }

    /// Cancels the running export. Hands back its file, to be removed, or
    /// nothing when no export runs.
    pub fn cancel_running(&mut self, finished_at: Timestamp) -> (r: Option<String>)
        ensures
            *final(self) == backup_after_cancel(*old(self), finished_at),
            r == backup_running_path(*old(self)),
    {
        let (job_id, started_at, output_path) = match &self.status {
            BackupStatus::Running(r) => (r.job_id, r.started_at, r.output_path.clone()),
            _ => return None,
        };
        self.status = BackupStatus::Cancelled(
            JobTerminalStatus { job_id, started_at, finished_at, error: None },
        );
        Some(output_path)
    }

    /// The file to download, given the one found on disk (the latest ready
    /// file, else the one the pointer file names).
    pub fn download_file_path(&self, payload: Option<String>) -> (r: Result<String, BackupDownloadError>)
        ensures
            payload matches Some(p) ==> r == Ok::<String, BackupDownloadError>(p),
            payload is None ==> r == Err::<String, BackupDownloadError>(
                if self.status is Ready {
                    BackupDownloadError::MissingPayload
                } else {
                    BackupDownloadError::NotReady
                },
            ),
    {
        match payload {
            Some(p) => Ok(p),
            None => if let BackupStatus::Ready(_) = &self.status {
                Err(BackupDownloadError::MissingPayload)
            } else {
                Err(BackupDownloadError::NotReady)
            },
        }
    }
}

/// The number of the job a backup status speaks of, if any.
pub open spec fn backup_status_id(st: BackupStatus) -> Option<u64> {
    match st {
        BackupStatus::Idle => None,
        BackupStatus::Running(r) => Some(r.job_id),
        BackupStatus::Ready(r) => Some(r.job_id),
        BackupStatus::Failed(f) => Some(f.job_id),
        BackupStatus::Cancelled(c) => Some(c.job_id),
    }
}

/// Job numbers are not handed out twice: the job of the status has a
/// number below the next one (until the numbers run out at `u64::MAX`).
pub open spec fn backup_ids_fresh(s: AdminBackupState) -> bool {
    match backup_status_id(s.status) {
        Some(j) => j < s.next_job_id || s.next_job_id == u64::MAX,
        None => true,
    }
}

/// Only one export runs at a time: a request to start while one runs
/// changes nothing.
pub proof fn law_backup_single_runner(s: AdminBackupState, started_at: Timestamp, output_path: String)
    requires
        s.status is Running,
    ensures
        backup_after_start(s, started_at, output_path) == s,
{
}

/// Reports from a job that is not the running export (one that finished,
/// was cancelled, or never ran) change nothing.
pub proof fn law_backup_stale_reports_ignored(
    s: AdminBackupState,
    job_id: u64,
    progress: BackupProgress,
    summary: BackupCompletionSummary,
    error: String,
    at: Timestamp,
)
    requires
        backup_running_id(s) != Some(job_id),
    ensures
        backup_after_progress(s, job_id, progress) == s,
        backup_after_ready(s, job_id, summary, at) == s,
        backup_after_failed(s, job_id, error, at) == s,
{
}

/// Every step keeps job numbers fresh, so a new export never takes the
/// number of the one before it.
pub proof fn law_backup_ids_stay_fresh(
    s: AdminBackupState,
    job_id: u64,
    progress: BackupProgress,
    summary: BackupCompletionSummary,
    error: String,
    output_path: String,
    at: Timestamp,
)
    requires
        backup_ids_fresh(s),
    ensures
        backup_ids_fresh(backup_after_start(s, at, output_path)),
        backup_ids_fresh(backup_after_progress(s, job_id, progress)),
        backup_ids_fresh(backup_after_ready(s, job_id, summary, at)),
        backup_ids_fresh(backup_after_failed(s, job_id, error, at)),
        backup_ids_fresh(backup_after_cancel(s, at)),
        !(s.status is Running) && backup_status_id(s.status) is Some && s.next_job_id < u64::MAX
            ==> backup_running_id(backup_after_start(s, at, output_path)) != backup_status_id(
            s.status,
        ),
{
}

/// An export that starts and then finishes is reported ready, under its
/// own number, start time and counts, and its file is the one offered.
pub proof fn law_backup_start_then_ready(
    s: AdminBackupState,
    started_at: Timestamp,
    output_path: String,
    summary: BackupCompletionSummary,
    finished_at: Timestamp,
)
    requires
        !(s.status is Running),
    ensures
        ({
            let s2 = backup_after_ready(
                backup_after_start(s, started_at, output_path),
                s.next_job_id,
                summary,
                finished_at,
            );
            &&& s2.status == BackupStatus::Ready(
                BackupReadyStatus { job_id: s.next_job_id, started_at, finished_at, summary },
            )
            &&& s2.ready_file_path == Some(output_path)
            &&& backup_report(s2.status, true).state == "ready"@
            &&& backup_report(s2.status, true).job_id == Some(s.next_job_id)
        }),
{
}

/// A cancelled export stays cancelled: its late reports change nothing,
/// and a cancel with nothing running changes nothing.
pub proof fn law_backup_cancel_is_final(
    s: AdminBackupState,
    summary: BackupCompletionSummary,
    error: String,
    at: Timestamp,
    later: Timestamp,
)
    requires
        s.status is Running,
    ensures
        ({
            let c = backup_after_cancel(s, at);
            let j = backup_running_id(s)->0;
            &&& c.status is Cancelled
            &&& backup_after_ready(c, j, summary, later) == c
            &&& backup_after_failed(c, j, error, later) == c
            &&& backup_after_cancel(c, later) == c
        }),
{
}

// ===========================================================================
// Backup import
// ===========================================================================

/// How far a running import has come.
#[derive(Clone, Copy, Debug)]
pub struct ImportProgress {
    pub stage: ImportProgressStage,
    pub hyperlinks_done: usize,
    pub hyperlinks_total: usize,
    pub relations_done: usize,
    pub relations_total: usize,
    pub artifacts_done: usize,
    pub artifacts_total: usize,
}

/// What a finished import restored.
#[derive(Clone, Copy, Debug)]
pub struct ImportCompletionSummary {
    pub hyperlinks: usize,
    pub relations: usize,
    pub artifacts: usize,
}

pub struct ImportRunningStatus {
    pub job_id: u64,
    pub started_at: Timestamp,
    pub archive_path: String,
    pub progress: ImportProgress,
}

pub struct ImportReadyStatus {
    pub job_id: u64,
    pub started_at: Timestamp,
    pub finished_at: Timestamp,
    pub summary: ImportCompletionSummary,
}

pub enum ImportStatus {
    Idle,
    Running(ImportRunningStatus),
    Ready(ImportReadyStatus),
    Failed(JobTerminalStatus),
    Cancelled(JobTerminalStatus),
}

/// The import state: the number the next import gets and the current status.
pub struct AdminImportState {
    pub next_job_id: u64,
    pub status: ImportStatus,
}

/// The status report of the import, as the admin page reads it.
pub struct ImportStatusResponse {
    pub state: String,
    pub job_id: Option<u64>,
    pub started_at: Option<String>,
    pub finished_at: Option<String>,
    pub stage: Option<String>,
    pub hyperlinks_done: Option<usize>,
    pub hyperlinks_total: Option<usize>,
    pub relations_done: Option<usize>,
    pub relations_total: Option<usize>,
    pub artifacts_done: Option<usize>,
    pub artifacts_total: Option<usize>,
    pub hyperlinks: Option<usize>,
    pub relations: Option<usize>,
    pub artifacts: Option<usize>,
    pub error: Option<String>,
}

/// An import status report with its texts taken as character sequences.
pub struct ImportReport {
    pub state: Seq<char>,
    pub job_id: Option<u64>,
    pub started_at: Option<Seq<char>>,
    pub finished_at: Option<Seq<char>>,
    pub stage: Option<Seq<char>>,
    pub hyperlinks_done: Option<usize>,
    pub hyperlinks_total: Option<usize>,
    pub relations_done: Option<usize>,
    pub relations_total: Option<usize>,
    pub artifacts_done: Option<usize>,
    pub artifacts_total: Option<usize>,
    pub hyperlinks: Option<usize>,
    pub relations: Option<usize>,
    pub artifacts: Option<usize>,
    pub error: Option<Seq<char>>,
}

impl View for ImportStatusResponse {
    type V = ImportReport;

    open spec fn view(&self) -> ImportReport {
        ImportReport {
            state: self.state@,
            job_id: self.job_id,
            started_at: opt_string_view(self.started_at),
            finished_at: opt_string_view(self.finished_at),
            stage: opt_string_view(self.stage),
            hyperlinks_done: self.hyperlinks_done,
            hyperlinks_total: self.hyperlinks_total,
            relations_done: self.relations_done,
            relations_total: self.relations_total,
            artifacts_done: self.artifacts_done,
            artifacts_total: self.artifacts_total,
            hyperlinks: self.hyperlinks,
            relations: self.relations,
            artifacts: self.artifacts,
            error: opt_string_view(self.error),
        }
    }
}

/// The answer to a request to start an import. When it is refused, the
/// caller discards the uploaded archive.
pub struct StartImportResult {
    pub started: bool,
    pub status: ImportStatusResponse,
}

/// An import report with no job counts: the common part of the idle,
/// failed and cancelled reports.
pub open spec fn import_report_plain(
    state: Seq<char>,
    job_id: Option<u64>,
    started_at: Option<Seq<char>>,
    finished_at: Option<Seq<char>>,
    error: Option<Seq<char>>,
) -> ImportReport {
    ImportReport {
        state,
        job_id,
        started_at,
        finished_at,
        stage: None,
        hyperlinks_done: None,
        hyperlinks_total: None,
        relations_done: None,
        relations_total: None,
        artifacts_done: None,
        artifacts_total: None,
        hyperlinks: None,
        relations: None,
        artifacts: None,
        error,
    }
}

/// The report of an import state. A ready import reports each count as
/// both done and total.
pub open spec fn import_report(status: ImportStatus) -> ImportReport {
    match status {
        ImportStatus::Idle => import_report_plain("idle"@, None, None, None, None),
        ImportStatus::Running(r) => ImportReport {
            state: "running"@,
            job_id: Some(r.job_id),
            started_at: Some(datetime_text(r.started_at)),
            finished_at: None,
            stage: Some(import_stage_text(r.progress.stage)),
            hyperlinks_done: Some(r.progress.hyperlinks_done),
            hyperlinks_total: Some(r.progress.hyperlinks_total),
            relations_done: Some(r.progress.relations_done),
            relations_total: Some(r.progress.relations_total),
            artifacts_done: Some(r.progress.artifacts_done),
            artifacts_total: Some(r.progress.artifacts_total),
            hyperlinks: None,
            relations: None,
            artifacts: None,
            error: None,
        },
        ImportStatus::Ready(r) => ImportReport {
            state: "ready"@,
            job_id: Some(r.job_id),
            started_at: Some(datetime_text(r.started_at)),
            finished_at: Some(datetime_text(r.finished_at)),
            stage: None,
            hyperlinks_done: Some(r.summary.hyperlinks),
            hyperlinks_total: Some(r.summary.hyperlinks),
            relations_done: Some(r.summary.relations),
            relations_total: Some(r.summary.relations),
            artifacts_done: Some(r.summary.artifacts),
            artifacts_total: Some(r.summary.artifacts),
            hyperlinks: Some(r.summary.hyperlinks),
            relations: Some(r.summary.relations),
            artifacts: Some(r.summary.artifacts),
            error: None,
        },
        ImportStatus::Failed(f) => import_report_plain(
            "failed"@,
            Some(f.job_id),
            Some(datetime_text(f.started_at)),
            Some(datetime_text(f.finished_at)),
            opt_string_view(f.error),
        ),
        ImportStatus::Cancelled(c) => import_report_plain(
            "cancelled"@,
            Some(c.job_id),
            Some(datetime_text(c.started_at)),
            Some(datetime_text(c.finished_at)),
            None,
        ),
    }
}

/// The number of the import now running, if one runs.
pub open spec fn import_running_id(s: AdminImportState) -> Option<u64> {
    match s.status {
        ImportStatus::Running(r) => Some(r.job_id),
        _ => None,
    }
}

/// The archive of the running import, if one runs.
pub open spec fn import_running_archive(s: AdminImportState) -> Option<String> {
    match s.status {
        ImportStatus::Running(r) => Some(r.archive_path),
        _ => None,
    }
}

/// The progress an import starts with: validating, nothing counted yet.
pub open spec fn import_initial_progress() -> ImportProgress {
    ImportProgress {
        stage: ImportProgressStage::Validating,
        hyperlinks_done: 0,
        hyperlinks_total: 0,
        relations_done: 0,
        relations_total: 0,
        artifacts_done: 0,
        artifacts_total: 0,
    }
}

/// A request to start: refused while an import runs; otherwise the import
/// of `archive_path` takes the next number and starts validating.
pub open spec fn import_after_start(s: AdminImportState, archive_path: String, started_at: Timestamp) -> AdminImportState {
    if s.status is Running {
        s
    } else {
        AdminImportState {
            next_job_id: s.next_job_id.saturating_add(1),
            status: ImportStatus::Running(
                ImportRunningStatus {
                    job_id: s.next_job_id,
                    started_at,
                    archive_path,
                    progress: import_initial_progress(),
                },
            ),
        }
    }
}

/// A progress report: taken only from the import that runs.
pub open spec fn import_after_progress(s: AdminImportState, job_id: u64, p: ImportProgress) -> AdminImportState {
    match s.status {
        ImportStatus::Running(r) => if r.job_id == job_id {
            AdminImportState {
                next_job_id: s.next_job_id,
                status: ImportStatus::Running(
                    ImportRunningStatus {
                        job_id: r.job_id,
                        started_at: r.started_at,
                        archive_path: r.archive_path,
                        progress: p,
                    },
                ),
            }
        } else {
            s
        },
        _ => s,
    }
}

/// The running import finished.
pub open spec fn import_after_ready(
    s: AdminImportState,
    job_id: u64,
    summary: ImportCompletionSummary,
    finished_at: Timestamp,
) -> AdminImportState {
    match s.status {
        ImportStatus::Running(r) => if r.job_id == job_id {
            AdminImportState {
                next_job_id: s.next_job_id,
                status: ImportStatus::Ready(
                    ImportReadyStatus { job_id, started_at: r.started_at, finished_at, summary },
                ),
            }
        } else {
            s
        },
        _ => s,
    }
}

/// The running import failed with `error`.
pub open spec fn import_after_failed(
    s: AdminImportState,
    job_id: u64,
    error: String,
    finished_at: Timestamp,
) -> AdminImportState {
    match s.status {
        ImportStatus::Running(r) => if r.job_id == job_id {
            AdminImportState {
                next_job_id: s.next_job_id,
                status: ImportStatus::Failed(
                    JobTerminalStatus {
                        job_id,
                        started_at: r.started_at,
                        finished_at,
                        error: Some(error),
                    },
                ),
            }
        } else {
            s
        },
        _ => s,
    }
}

/// The running import, if any, is cancelled.
pub open spec fn import_after_cancel(s: AdminImportState, finished_at: Timestamp) -> AdminImportState {
    match s.status {
        ImportStatus::Running(r) => AdminImportState {
            next_job_id: s.next_job_id,
            status: ImportStatus::Cancelled(
                JobTerminalStatus {
                    job_id: r.job_id,
                    started_at: r.started_at,
                    finished_at,
                    error: None,
                },
            ),
        },
        _ => s,
    }
}

/// The archive of the running import when it is import `job_id`.
pub open spec fn import_archive_of(s: AdminImportState, job_id: u64) -> Option<String> {
    if import_running_id(s) == Some(job_id) {
        import_running_archive(s)
    } else {
        None
    }
}

impl AdminImportState {
    /// No import yet; the first gets number 1.
    pub fn new() -> (s: Self)
        ensures
            s.next_job_id == 1,
            s.status is Idle,
    {
        AdminImportState { next_job_id: 1, status: ImportStatus::Idle }
    }

    /// The status report.
    pub fn status_to_response(&self) -> (r: ImportStatusResponse)
        ensures
            r@ == import_report(self.status),
    {
        match &self.status {
            ImportStatus::Idle => ImportStatusResponse {
                state: "idle".to_string(),
                job_id: None,
                started_at: None,
                finished_at: None,
                stage: None,
                hyperlinks_done: None,
                hyperlinks_total: None,
                relations_done: None,
                relations_total: None,
                artifacts_done: None,
                artifacts_total: None,
                hyperlinks: None,
                relations: None,
                artifacts: None,
                error: None,
            },
            ImportStatus::Running(running) => ImportStatusResponse {
                state: "running".to_string(),
                job_id: Some(running.job_id),
                started_at: time_text(&running.started_at),
                finished_at: None,
                stage: Some(running.progress.stage.as_str().to_string()),
                hyperlinks_done: Some(running.progress.hyperlinks_done),
                hyperlinks_total: Some(running.progress.hyperlinks_total),
                relations_done: Some(running.progress.relations_done),
                relations_total: Some(running.progress.relations_total),
                artifacts_done: Some(running.progress.artifacts_done),
                artifacts_total: Some(running.progress.artifacts_total),
                hyperlinks: None,
                relations: None,
                artifacts: None,
                error: None,
            },
            ImportStatus::Ready(ready) => ImportStatusResponse {
                state: "ready".to_string(),
                job_id: Some(ready.job_id),
                started_at: time_text(&ready.started_at),
                finished_at: time_text(&ready.finished_at),
                stage: None,
                hyperlinks_done: Some(ready.summary.hyperlinks),
                hyperlinks_total: Some(ready.summary.hyperlinks),
                relations_done: Some(ready.summary.relations),
                relations_total: Some(ready.summary.relations),
                artifacts_done: Some(ready.summary.artifacts),
                artifacts_total: Some(ready.summary.artifacts),
                hyperlinks: Some(ready.summary.hyperlinks),
                relations: Some(ready.summary.relations),
                artifacts: Some(ready.summary.artifacts),
                error: None,
            },
            ImportStatus::Failed(failed) => ImportStatusResponse {
                state: "failed".to_string(),
                job_id: Some(failed.job_id),
                started_at: time_text(&failed.started_at),
                finished_at: time_text(&failed.finished_at),
                stage: None,
                hyperlinks_done: None,
                hyperlinks_total: None,
                relations_done: None,
                relations_total: None,
                artifacts_done: None,
                artifacts_total: None,
                hyperlinks: None,
                relations: None,
                artifacts: None,
                error: clone_text(&failed.error),
            },
            ImportStatus::Cancelled(cancelled) => ImportStatusResponse {
                state: "cancelled".to_string(),
                job_id: Some(cancelled.job_id),
                started_at: time_text(&cancelled.started_at),
                finished_at: time_text(&cancelled.finished_at),
                stage: None,
                hyperlinks_done: None,
                hyperlinks_total: None,
                relations_done: None,
                relations_total: None,
                artifacts_done: None,
                artifacts_total: None,
                hyperlinks: None,
                relations: None,
                artifacts: None,
                error: None,
            },
        }
    }

    /// Starts importing the uploaded `archive_path`, unless an import runs.
    pub fn start_job(&mut self, archive_path: String, started_at: Timestamp) -> (r: StartImportResult)
        ensures
            *final(self) == import_after_start(*old(self), archive_path, started_at),
            r.started == !(old(self).status is Running),
            r.status@ == import_report(final(self).status),
    {
        if let ImportStatus::Running(_) = &self.status {
            return StartImportResult { started: false, status: self.status_to_response() };
        }
        let job_id = self.next_job_id;
        self.next_job_id = self.next_job_id.saturating_add(1);
        self.status = ImportStatus::Running(
            ImportRunningStatus {
                job_id,
                started_at,
                archive_path,
                progress: ImportProgress {
                    stage: ImportProgressStage::Validating,
                    hyperlinks_done: 0,
                    hyperlinks_total: 0,
                    relations_done: 0,
                    relations_total: 0,
                    artifacts_done: 0,
                    artifacts_total: 0,
                },
            },
        );
        StartImportResult { started: true, status: self.status_to_response() }
    }

    /// Takes a progress report of import `job_id`.
    pub fn update_progress(&mut self, job_id: u64, progress: ImportProgress)
        ensures
            *final(self) == import_after_progress(*old(self), job_id, progress),
    {
        let next = match &self.status {
            ImportStatus::Running(r) => if r.job_id == job_id {
                Some(
                    ImportRunningStatus {
                        job_id: r.job_id,
                        started_at: r.started_at,
                        archive_path: r.archive_path.clone(),
                        progress,
                    },
                )
            } else {
                None
            },
            _ => None,
        };
        if let Some(n) = next {
            self.status = ImportStatus::Running(n);
        }
    }

    /// Import `job_id` finished. Where it was the running one, hands back
    /// its archive, to be removed.
    pub fn mark_ready(&mut self, job_id: u64, summary: ImportCompletionSummary, finished_at: Timestamp) -> (r:
        Option<String>)
        ensures
            *final(self) == import_after_ready(*old(self), job_id, summary, finished_at),
            r == import_archive_of(*old(self), job_id),
    {
        let (started_at, archive_path) = match &self.status {
            ImportStatus::Running(r) => if r.job_id == job_id {
                (r.started_at, r.archive_path.clone())
            } else {
                return None;
            },
            _ => return None,
        };
        self.status = ImportStatus::Ready(
            ImportReadyStatus { job_id, started_at, finished_at, summary },
        );
        Some(archive_path)
    }

    /// Import `job_id` failed. Where it was the running one, hands back its
    /// archive, to be removed.
    pub fn mark_failed(&mut self, job_id: u64, error: String, finished_at: Timestamp) -> (r: Option<String>)
        ensures
            *final(self) == import_after_failed(*old(self), job_id, error, finished_at),
            r == import_archive_of(*old(self), job_id),
    {
        let (started_at, archive_path) = match &self.status {
            ImportStatus::Running(r) => if r.job_id == job_id {
                (r.started_at, r.archive_path.clone())
            } else {
                return None;
            },
            _ => return None,
        };
        self.status = ImportStatus::Failed(
            JobTerminalStatus { job_id, started_at, finished_at, error: Some(error) },
        );
        Some(archive_path)
    }

    /// Cancels the running import. Hands back its archive, to be removed,
    /// or nothing when no import runs.
    pub fn cancel_running(&mut self, finished_at: Timestamp) -> (r: Option<String>)
        ensures
            *final(self) == import_after_cancel(*old(self), finished_at),
            r == import_running_archive(*old(self)),
    {
        let (job_id, started_at, archive_path) = match &self.status {
            ImportStatus::Running(r) => (r.job_id, r.started_at, r.archive_path.clone()),
            _ => return None,
        };
        self.status = ImportStatus::Cancelled(
            JobTerminalStatus { job_id, started_at, finished_at, error: None },
        );
        Some(archive_path)
    }
}

/// Only one import runs at a time, and reports from any job but the
/// running import change nothing.
pub proof fn law_import_single_runner(
    s: AdminImportState,
    archive_path: String,
    job_id: u64,
    progress: ImportProgress,
    summary: ImportCompletionSummary,
    error: String,
    at: Timestamp,
)
    ensures
        s.status is Running ==> import_after_start(s, archive_path, at) == s,
        import_running_id(s) != Some(job_id) ==> {
            &&& import_after_progress(s, job_id, progress) == s
            &&& import_after_ready(s, job_id, summary, at) == s
            &&& import_after_failed(s, job_id, error, at) == s
        },
{
}

/// An import that starts and then finishes is reported ready with its own
/// number and counts; every count is shown as both done and total.
pub proof fn law_import_start_then_ready(
    s: AdminImportState,
    archive_path: String,
    started_at: Timestamp,
    summary: ImportCompletionSummary,
    finished_at: Timestamp,
)
    requires
        !(s.status is Running),
    ensures
        ({
            let s1 = import_after_start(s, archive_path, started_at);
            let r = import_report(import_after_ready(s1, s.next_job_id, summary, finished_at).status);
            &&& import_archive_of(s1, s.next_job_id) == Some(archive_path)
            &&& r.state == "ready"@
            &&& r.job_id == Some(s.next_job_id)
            &&& r.hyperlinks_done == Some(summary.hyperlinks) && r.hyperlinks_total == Some(summary.hyperlinks)
            &&& r.artifacts_done == Some(summary.artifacts) && r.artifacts_total == Some(summary.artifacts)
        }),
{
}

// ===========================================================================
// Tag reclassification
// ===========================================================================

/// How many links a reclassification has gone through, of how many.
#[derive(Clone, Copy, Debug)]
pub struct TagReclassifyProgress {
    pub processed: usize,
    pub total: usize,
}

/// What a finished reclassification went through.
#[derive(Clone, Copy, Debug)]
pub struct TagReclassifyCompletionSummary {
    pub processed: usize,
    pub total: usize,
}

pub struct TagReclassifyRunningStatus {
    pub job_id: u64,
    pub started_at: Timestamp,
    pub progress: TagReclassifyProgress,
}

pub struct TagReclassifyReadyStatus {
    pub job_id: u64,
    pub started_at: Timestamp,
    pub finished_at: Timestamp,
    pub summary: TagReclassifyCompletionSummary,
}

/// A reclassification that failed or was cancelled, with how far it came.
pub struct TagReclassifyTerminalStatus {
    pub job_id: u64,
    pub started_at: Timestamp,
    pub finished_at: Timestamp,
    pub error: Option<String>,
    pub progress: TagReclassifyProgress,
}

pub enum TagReclassifyStatus {
    Idle,
    Running(TagReclassifyRunningStatus),
    Ready(TagReclassifyReadyStatus),
    Failed(TagReclassifyTerminalStatus),
    Cancelled(TagReclassifyTerminalStatus),
}

/// The reclassification state.
pub struct AdminTagReclassifyState {
    pub next_job_id: u64,
    pub status: TagReclassifyStatus,
}

/// The status report of the reclassification.
pub struct TagReclassifyStatusResponse {
    pub state: String,
    pub job_id: Option<u64>,
    pub started_at: Option<String>,
    pub finished_at: Option<String>,
    pub processed: Option<usize>,
    pub total: Option<usize>,
    pub error: Option<String>,
}

/// A reclassification report with its texts taken as character sequences.
pub struct TagReclassifyReport {
    pub state: Seq<char>,
    pub job_id: Option<u64>,
    pub started_at: Option<Seq<char>>,
    pub finished_at: Option<Seq<char>>,
    pub processed: Option<usize>,
    pub total: Option<usize>,
    pub error: Option<Seq<char>>,
}

impl View for TagReclassifyStatusResponse {
    type V = TagReclassifyReport;

    open spec fn view(&self) -> TagReclassifyReport {
        TagReclassifyReport {
            state: self.state@,
            job_id: self.job_id,
            started_at: opt_string_view(self.started_at),
            finished_at: opt_string_view(self.finished_at),
            processed: self.processed,
            total: self.total,
            error: opt_string_view(self.error),
        }
    }
}

/// The answer to a request to start a reclassification.
pub struct StartTagReclassifyResult {
    pub started: bool,
    pub status: TagReclassifyStatusResponse,
}

/// The report of a reclassification state.
pub open spec fn tag_reclassify_report(status: TagReclassifyStatus) -> TagReclassifyReport {
    match status {
        TagReclassifyStatus::Idle => TagReclassifyReport {
            state: "idle"@,
            job_id: None,
            started_at: None,
            finished_at: None,
            processed: None,
            total: None,
            error: None,
        },
        TagReclassifyStatus::Running(r) => TagReclassifyReport {
            state: "running"@,
            job_id: Some(r.job_id),
            started_at: Some(datetime_text(r.started_at)),
            finished_at: None,
            processed: Some(r.progress.processed),
            total: Some(r.progress.total),
            error: None,
        },
        TagReclassifyStatus::Ready(r) => TagReclassifyReport {
            state: "ready"@,
            job_id: Some(r.job_id),
            started_at: Some(datetime_text(r.started_at)),
            finished_at: Some(datetime_text(r.finished_at)),
            processed: Some(r.summary.processed),
            total: Some(r.summary.total),
            error: None,
        },
        TagReclassifyStatus::Failed(f) => TagReclassifyReport {
            state: "failed"@,
            job_id: Some(f.job_id),
            started_at: Some(datetime_text(f.started_at)),
            finished_at: Some(datetime_text(f.finished_at)),
            processed: Some(f.progress.processed),
            total: Some(f.progress.total),
            error: opt_string_view(f.error),
        },
        TagReclassifyStatus::Cancelled(c) => TagReclassifyReport {
            state: "cancelled"@,
            job_id: Some(c.job_id),
            started_at: Some(datetime_text(c.started_at)),
            finished_at: Some(datetime_text(c.finished_at)),
            processed: Some(c.progress.processed),
            total: Some(c.progress.total),
            error: opt_string_view(c.error),
        },
    }
}

/// The number of the reclassification now running, if one runs.
pub open spec fn tag_reclassify_running_id(s: AdminTagReclassifyState) -> Option<u64> {
    match s.status {
        TagReclassifyStatus::Running(r) => Some(r.job_id),
        _ => None,
    }
}

/// A request to start: refused while one runs; otherwise the job takes the
/// larger of the next number and `fallback` (a process-wide counter), and
/// the number after it becomes the next.
pub open spec fn tag_reclassify_after_start(
    s: AdminTagReclassifyState,
    fallback: u64,
    started_at: Timestamp,
) -> AdminTagReclassifyState {
    if s.status is Running {
        s
    } else {
        let job_id = if s.next_job_id >= fallback {
            s.next_job_id
        } else {
            fallback
        };
        AdminTagReclassifyState {
            next_job_id: job_id.saturating_add(1),
            status: TagReclassifyStatus::Running(
                TagReclassifyRunningStatus {
                    job_id,
                    started_at,
                    progress: TagReclassifyProgress { processed: 0, total: 0 },
                },
            ),
        }
    }
}

/// A progress report: taken only from the job that runs.
pub open spec fn tag_reclassify_after_progress(
    s: AdminTagReclassifyState,
    job_id: u64,
    p: TagReclassifyProgress,
) -> AdminTagReclassifyState {
    match s.status {
        TagReclassifyStatus::Running(r) => if r.job_id == job_id {
            AdminTagReclassifyState {
                next_job_id: s.next_job_id,
                status: TagReclassifyStatus::Running(
                    TagReclassifyRunningStatus { job_id: r.job_id, started_at: r.started_at, progress: p },
                ),
            }
        } else {
            s
        },
        _ => s,
    }
}

/// The running job finished.
pub open spec fn tag_reclassify_after_ready(
    s: AdminTagReclassifyState,
    job_id: u64,
    summary: TagReclassifyCompletionSummary,
    finished_at: Timestamp,
) -> AdminTagReclassifyState {
    match s.status {
        TagReclassifyStatus::Running(r) => if r.job_id == job_id {
            AdminTagReclassifyState {
                next_job_id: s.next_job_id,
                status: TagReclassifyStatus::Ready(
                    TagReclassifyReadyStatus { job_id, started_at: r.started_at, finished_at, summary },
                ),
            }
        } else {
            s
        },
        _ => s,
    }
}

/// The running job failed with `error`, having come as far as `progress`.
pub open spec fn tag_reclassify_after_failed(
    s: AdminTagReclassifyState,
    job_id: u64,
    error: String,
    progress: TagReclassifyProgress,
    finished_at: Timestamp,
) -> AdminTagReclassifyState {
    match s.status {
        TagReclassifyStatus::Running(r) => if r.job_id == job_id {
            AdminTagReclassifyState {
                next_job_id: s.next_job_id,
                status: TagReclassifyStatus::Failed(
                    TagReclassifyTerminalStatus {
                        job_id,
                        started_at: r.started_at,
                        finished_at,
                        error: Some(error),
                        progress,
                    },
                ),
            }
        } else {
            s
        },
        _ => s,
    }
}

/// The running job, if any, is cancelled; it keeps the progress it had.
pub open spec fn tag_reclassify_after_cancel(
    s: AdminTagReclassifyState,
    finished_at: Timestamp,
) -> AdminTagReclassifyState {
    match s.status {
        TagReclassifyStatus::Running(r) => AdminTagReclassifyState {
            next_job_id: s.next_job_id,
            status: TagReclassifyStatus::Cancelled(
                TagReclassifyTerminalStatus {
                    job_id: r.job_id,
                    started_at: r.started_at,
                    finished_at,
                    error: None,
                    progress: r.progress,
                },
            ),
        },
        _ => s,
    }
}

impl AdminTagReclassifyState {
    /// No reclassification yet; the first gets number 1 at least.
    pub fn new() -> (s: Self)
        ensures
            s.next_job_id == 1,
            s.status is Idle,
    {
        AdminTagReclassifyState { next_job_id: 1, status: TagReclassifyStatus::Idle }
    }

    /// The status report.
    pub fn status_to_response(&self) -> (r: TagReclassifyStatusResponse)
        ensures
            r@ == tag_reclassify_report(self.status),
    {
        match &self.status {
            TagReclassifyStatus::Idle => TagReclassifyStatusResponse {
                state: "idle".to_string(),
                job_id: None,
                started_at: None,
                finished_at: None,
                processed: None,
                total: None,
                error: None,
            },
            TagReclassifyStatus::Running(running) => TagReclassifyStatusResponse {
                state: "running".to_string(),
                job_id: Some(running.job_id),
                started_at: time_text(&running.started_at),
                finished_at: None,
                processed: Some(running.progress.processed),
                total: Some(running.progress.total),
                error: None,
            },
            TagReclassifyStatus::Ready(ready) => TagReclassifyStatusResponse {
                state: "ready".to_string(),
                job_id: Some(ready.job_id),
                started_at: time_text(&ready.started_at),
                finished_at: time_text(&ready.finished_at),
                processed: Some(ready.summary.processed),
                total: Some(ready.summary.total),
                error: None,
            },
            TagReclassifyStatus::Failed(failed) => TagReclassifyStatusResponse {
                state: "failed".to_string(),
                job_id: Some(failed.job_id),
                started_at: time_text(&failed.started_at),
                finished_at: time_text(&failed.finished_at),
                processed: Some(failed.progress.processed),
                total: Some(failed.progress.total),
                error: clone_text(&failed.error),
            },
            TagReclassifyStatus::Cancelled(cancelled) => TagReclassifyStatusResponse {
                state: "cancelled".to_string(),
                job_id: Some(cancelled.job_id),
                started_at: time_text(&cancelled.started_at),
                finished_at: time_text(&cancelled.finished_at),
                processed: Some(cancelled.progress.processed),
                total: Some(cancelled.progress.total),
                error: clone_text(&cancelled.error),
            },
        }
    }

    /// Starts a reclassification unless one runs; `fallback` is the next
    /// value of the process-wide counter.
    pub fn start_job(&mut self, fallback: u64, started_at: Timestamp) -> (r: StartTagReclassifyResult)
        ensures
            *final(self) == tag_reclassify_after_start(*old(self), fallback, started_at),
            r.started == !(old(self).status is Running),
            r.status@ == tag_reclassify_report(final(self).status),
    {
        if let TagReclassifyStatus::Running(_) = &self.status {
            return StartTagReclassifyResult { started: false, status: self.status_to_response() };
        }
        let job_id = if self.next_job_id >= fallback {
            self.next_job_id
        } else {
            fallback
        };
        self.next_job_id = job_id.saturating_add(1);
        self.status = TagReclassifyStatus::Running(
            TagReclassifyRunningStatus {
                job_id,
                started_at,
                progress: TagReclassifyProgress { processed: 0, total: 0 },
            },
        );
        StartTagReclassifyResult { started: true, status: self.status_to_response() }
    }

    /// Takes a progress report of job `job_id`.
    pub fn update_progress(&mut self, job_id: u64, progress: TagReclassifyProgress)
        ensures
            *final(self) == tag_reclassify_after_progress(*old(self), job_id, progress),
    {
        let next = match &self.status {
            TagReclassifyStatus::Running(r) => if r.job_id == job_id {
                Some(TagReclassifyRunningStatus { job_id: r.job_id, started_at: r.started_at, progress })
            } else {
                None
            },
            _ => None,
        };
        if let Some(n) = next {
            self.status = TagReclassifyStatus::Running(n);
        }
    }

    /// Job `job_id` finished.
    pub fn mark_ready(&mut self, job_id: u64, summary: TagReclassifyCompletionSummary, finished_at: Timestamp)
        ensures
            *final(self) == tag_reclassify_after_ready(*old(self), job_id, summary, finished_at),
    {
        let started_at = match &self.status {
            TagReclassifyStatus::Running(r) => if r.job_id == job_id {
                r.started_at
            } else {
                return ;
            },
            _ => return ,
        };
        self.status = TagReclassifyStatus::Ready(
            TagReclassifyReadyStatus { job_id, started_at, finished_at, summary },
        );
    }

    /// Job `job_id` failed, having come as far as `progress`.
    pub fn mark_failed(
        &mut self,
        job_id: u64,
        error: String,
        progress: TagReclassifyProgress,
        finished_at: Timestamp,
    )
        ensures
            *final(self) == tag_reclassify_after_failed(*old(self), job_id, error, progress, finished_at),
    {
        let started_at = match &self.status {
            TagReclassifyStatus::Running(r) => if r.job_id == job_id {
                r.started_at
            } else {
                return ;
            },
            _ => return ,
        };
        self.status = TagReclassifyStatus::Failed(
            TagReclassifyTerminalStatus {
                job_id,
                started_at,
                finished_at,
                error: Some(error),
                progress,
            },
        );
    }

    /// Cancels the running job; false when none runs.
    pub fn cancel_running(&mut self, finished_at: Timestamp) -> (r: bool)
        ensures
            *final(self) == tag_reclassify_after_cancel(*old(self), finished_at),
            r == (old(self).status is Running),
    {
        let terminal = match &self.status {
            TagReclassifyStatus::Running(r) => TagReclassifyTerminalStatus {
                job_id: r.job_id,
                started_at: r.started_at,
                finished_at,
                error: None,
                progress: r.progress,
            },
            _ => return false,
        };
        self.status = TagReclassifyStatus::Cancelled(terminal);
        true
    }
}

/// Only one reclassification runs at a time; reports from any other job
/// change nothing; a started job's number is at least both the next number
/// and the counter, and the next number then lies above it.
pub proof fn law_tag_reclassify_runs(
    s: AdminTagReclassifyState,
    fallback: u64,
    job_id: u64,
    progress: TagReclassifyProgress,
    summary: TagReclassifyCompletionSummary,
    error: String,
    at: Timestamp,
)
    ensures
        s.status is Running ==> tag_reclassify_after_start(s, fallback, at) == s,
        tag_reclassify_running_id(s) != Some(job_id) ==> {
            &&& tag_reclassify_after_progress(s, job_id, progress) == s
            &&& tag_reclassify_after_ready(s, job_id, summary, at) == s
            &&& tag_reclassify_after_failed(s, job_id, error, progress, at) == s
        },
        !(s.status is Running) ==> ({
            let s1 = tag_reclassify_after_start(s, fallback, at);
            let j = tag_reclassify_running_id(s1)->0;
            &&& tag_reclassify_running_id(s1) is Some
            &&& j >= s.next_job_id && j >= fallback
            &&& (j < u64::MAX ==> s1.next_job_id == j + 1)
        }),
{
}

/// A cancelled reclassification reports how far it had come.
pub proof fn law_tag_reclassify_cancel_keeps_progress(
    s: AdminTagReclassifyState,
    at: Timestamp,
)
    requires
        s.status is Running,
    ensures
        tag_reclassify_report(tag_reclassify_after_cancel(s, at).status).processed == Some(
            s.status->Running_0.progress.processed,
        ),
        tag_reclassify_report(tag_reclassify_after_cancel(s, at).status).state == "cancelled"@,
{
}

} // verus!
