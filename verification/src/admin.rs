//! The admin dashboard: which hyperlinks lack artifacts and what to queue
//! for them, storage totals, and the paths accepted from backup archives.
use vstd::prelude::*;

use crate::artifacts::{FetchJobKind, HyperlinkArtifactKind};
use std::collections::HashSet;
use crate::forms::opt_string_view as opt_text;
use crate::numbers::{dec_int, dec_nat, format_i32, format_u64};
use crate::text::{
    append_all, chars_of, eq_lit, split_char, split_char_exec, starts_with, string_from_chars, trim,
    trim_exec, views,
};

verus! {

broadcast use vstd::std_specs::hash::group_hash_axioms;


// ---------------------------------------------------------------------------
// Missing artifacts
// ---------------------------------------------------------------------------

/// What the dashboard reports about missing artifacts.
#[derive(Clone, Copy, Debug, PartialEq, Eq, Structural)]
pub struct MissingArtifactsSummary {
    pub total_hyperlinks: usize,
    pub missing_source: usize,
    pub missing_og: usize,
    pub missing_readability: usize,
    pub snapshot_already_processing: usize,
    pub og_already_processing: usize,
    pub readability_already_processing: usize,
    pub snapshot_will_queue: usize,
    pub og_will_queue: usize,
    pub readability_will_queue: usize,
}

/// The jobs to queue, by kind, and the summary shown before queueing them.
pub struct MissingArtifactsPlan {
    pub summary: MissingArtifactsSummary,
    pub snapshot_hyperlink_ids: Vec<i32>,
    pub og_hyperlink_ids: Vec<i32>,
    pub readability_hyperlink_ids: Vec<i32>,
}

/// Hyperlink `h` has an artifact of one of `kinds` among `rows`.
pub open spec fn has_artifact(rows: Seq<(i32, HyperlinkArtifactKind)>, h: i32, kinds: Set<HyperlinkArtifactKind>) -> bool {
    exists|i: int| 0 <= i < rows.len() && #[trigger] rows[i].0 == h && kinds.contains(rows[i].1)
}

/// Hyperlink `h` has a queued or running job of kind `k` among `rows`.
pub open spec fn has_active(rows: Seq<(i32, FetchJobKind)>, h: i32, k: FetchJobKind) -> bool {
    exists|i: int| 0 <= i < rows.len() && #[trigger] rows[i] == (h, k)
}

pub open spec fn has_source(rows: Seq<(i32, HyperlinkArtifactKind)>, h: i32) -> bool {
    has_artifact(
        rows,
        h,
        set![HyperlinkArtifactKind::SnapshotWarc, HyperlinkArtifactKind::PdfSource],
    )
}

pub open spec fn has_og(rows: Seq<(i32, HyperlinkArtifactKind)>, h: i32) -> bool {
    has_artifact(rows, h, set![HyperlinkArtifactKind::OgMeta])
}

/// Readable artifacts count only when both the text and its metadata exist.
pub open spec fn has_readable(rows: Seq<(i32, HyperlinkArtifactKind)>, h: i32) -> bool {
    has_artifact(rows, h, set![HyperlinkArtifactKind::ReadableText]) && has_artifact(
        rows,
        h,
        set![HyperlinkArtifactKind::ReadableMeta],
    )
}

/// Which of the three jobs a hyperlink still lacks: without a source only
/// the snapshot counts (the other two wait for it).
pub open spec fn lacks_snapshot(arts: Seq<(i32, HyperlinkArtifactKind)>, h: i32) -> bool {
    !has_source(arts, h)
}

pub open spec fn lacks_og(arts: Seq<(i32, HyperlinkArtifactKind)>, h: i32) -> bool {
    has_source(arts, h) && !has_og(arts, h)
}

pub open spec fn lacks_readability(arts: Seq<(i32, HyperlinkArtifactKind)>, h: i32) -> bool {
    has_source(arts, h) && !has_readable(arts, h)
}

/// The ids of `ids`, in order, for which `p` holds.
pub open spec fn ids_where(ids: Seq<i32>, p: spec_fn(i32) -> bool) -> Seq<i32>
    decreases ids.len(),
{
    if ids.len() == 0 {
        Seq::empty()
    } else if p(ids.last()) {
        ids_where(ids.drop_last(), p).push(ids.last())
    } else {
        ids_where(ids.drop_last(), p)
    }
}

/// The plan as a function of the hyperlinks, their relevant artifacts and
/// their active jobs: for each kind, the ids that lack it and have no such
/// job running are queued; those with one running are counted as already
/// processing.
pub open spec fn queued_ids(
    ids: Seq<i32>,
    arts: Seq<(i32, HyperlinkArtifactKind)>,
    active: Seq<(i32, FetchJobKind)>,
    k: FetchJobKind,
) -> Seq<i32> {
    ids_where(ids, |h: i32| lacks_kind(arts, h, k) && !has_active(active, h, k))
}

pub open spec fn processing_ids(
    ids: Seq<i32>,
    arts: Seq<(i32, HyperlinkArtifactKind)>,
    active: Seq<(i32, FetchJobKind)>,
    k: FetchJobKind,
) -> Seq<i32> {
    ids_where(ids, |h: i32| lacks_kind(arts, h, k) && has_active(active, h, k))
}

pub open spec fn missing_ids(ids: Seq<i32>, arts: Seq<(i32, HyperlinkArtifactKind)>, k: FetchJobKind) -> Seq<
    i32,
> {
    ids_where(ids, |h: i32| lacks_kind(arts, h, k))
}

pub open spec fn lacks_kind(arts: Seq<(i32, HyperlinkArtifactKind)>, h: i32, k: FetchJobKind) -> bool {
    match k {
        FetchJobKind::Snapshot => lacks_snapshot(arts, h),
        FetchJobKind::Og => lacks_og(arts, h),
        FetchJobKind::Readability => lacks_readability(arts, h),
    }
}

/// The hyperlinks with an artifact of kind `a` or `b`.
fn artifact_set(rows: &Vec<(i32, HyperlinkArtifactKind)>, a: HyperlinkArtifactKind, b: HyperlinkArtifactKind) -> (r: HashSet<i32>)
    ensures
        forall|h: i32| #[trigger] r@.contains(h) <==> has_artifact(rows@, h, set![a, b]),
{
    let mut r: HashSet<i32> = HashSet::new();
    let mut i: usize = 0;
    while i < rows.len()
        invariant
            i <= rows.len(),
            forall|h: i32| #[trigger] r@.contains(h) <==> has_artifact(rows@.take(i as int), h, set![a, b]),
        decreases rows.len() - i,
    {
        let ghost before = r@;
        if rows[i].1 == a || rows[i].1 == b {
            r.insert(rows[i].0);
        }
        assert forall|h: i32| #[trigger] r@.contains(h) <==> has_artifact(rows@.take(i + 1), h, set![a, b]) by {
            let t = rows@.take(i + 1);
            if has_artifact(t, h, set![a, b]) {
                let k = choose|k: int| 0 <= k < t.len() && #[trigger] t[k].0 == h && set![a, b].contains(t[k].1);
                if k < i {
                    assert(rows@.take(i as int)[k] == t[k]);
                }
            }
            if before.contains(h) {
                let k = choose|k: int|
                    0 <= k < rows@.take(i as int).len() && #[trigger] rows@.take(i as int)[k].0 == h && set![a, b].contains(rows@.take(i as int)[k].1);
                assert(t[k] == rows@.take(i as int)[k]);
            }
            if r@.contains(h) && !before.contains(h) {
                assert(t[i as int].0 == h && set![a, b].contains(t[i as int].1));
            }
        }
        i += 1;
    }
    assert(rows@.take(i as int) =~= rows@);
    r
}

/// The hyperlinks with a queued or running job of kind `k`.
fn active_set(rows: &Vec<(i32, FetchJobKind)>, k: FetchJobKind) -> (r: HashSet<i32>)
    ensures
        forall|h: i32| #[trigger] r@.contains(h) <==> has_active(rows@, h, k),
{
    let mut r: HashSet<i32> = HashSet::new();
    let mut i: usize = 0;
    while i < rows.len()
        invariant
            i <= rows.len(),
            forall|h: i32| #[trigger] r@.contains(h) <==> has_active(rows@.take(i as int), h, k),
        decreases rows.len() - i,
    {
        let ghost before = r@;
        if rows[i].1 == k {
            r.insert(rows[i].0);
        }
        assert forall|h: i32| #[trigger] r@.contains(h) <==> has_active(rows@.take(i + 1), h, k) by {
            let t = rows@.take(i + 1);
            if has_active(t, h, k) {
                let j = choose|j: int| 0 <= j < t.len() && #[trigger] t[j] == (h, k);
                if j < i {
                    assert(rows@.take(i as int)[j] == t[j]);
                }
            }
            if before.contains(h) {
                let j = choose|j: int| 0 <= j < rows@.take(i as int).len() && #[trigger] rows@.take(i as int)[j] == (h, k);
                assert(t[j] == rows@.take(i as int)[j]);
            }
            if r@.contains(h) && !before.contains(h) {
                assert(t[i as int] == (h, k));
            }
        }
        i += 1;
    }
    assert(rows@.take(i as int) =~= rows@);
    r
}

/// Decides which jobs to queue for hyperlinks that lack artifacts.
/// `artifact_rows` are the (hyperlink, kind) pairs of their stored
/// artifacts, `active_rows` those of their queued or running jobs.
pub fn plan_missing_artifacts(
    hyperlink_ids: &Vec<i32>,
    artifact_rows: &Vec<(i32, HyperlinkArtifactKind)>,
    active_rows: &Vec<(i32, FetchJobKind)>,
) -> (plan: MissingArtifactsPlan)
    ensures
        plan.summary.total_hyperlinks == hyperlink_ids@.len(),
        plan.snapshot_hyperlink_ids@ == queued_ids(hyperlink_ids@, artifact_rows@, active_rows@, FetchJobKind::Snapshot),
        plan.og_hyperlink_ids@ == queued_ids(hyperlink_ids@, artifact_rows@, active_rows@, FetchJobKind::Og),
        plan.readability_hyperlink_ids@ == queued_ids(hyperlink_ids@, artifact_rows@, active_rows@, FetchJobKind::Readability),
        plan.summary.missing_source == missing_ids(hyperlink_ids@, artifact_rows@, FetchJobKind::Snapshot).len(),
        plan.summary.missing_og == missing_ids(hyperlink_ids@, artifact_rows@, FetchJobKind::Og).len(),
        plan.summary.missing_readability == missing_ids(hyperlink_ids@, artifact_rows@, FetchJobKind::Readability).len(),
        plan.summary.snapshot_already_processing == processing_ids(hyperlink_ids@, artifact_rows@, active_rows@, FetchJobKind::Snapshot).len(),
        plan.summary.og_already_processing == processing_ids(hyperlink_ids@, artifact_rows@, active_rows@, FetchJobKind::Og).len(),
        plan.summary.readability_already_processing == processing_ids(hyperlink_ids@, artifact_rows@, active_rows@, FetchJobKind::Readability).len(),
        plan.summary.snapshot_will_queue == plan.snapshot_hyperlink_ids@.len(),
        plan.summary.og_will_queue == plan.og_hyperlink_ids@.len(),
        plan.summary.readability_will_queue == plan.readability_hyperlink_ids@.len(),
{
    let ghost ids = hyperlink_ids@;
    let ghost arts = artifact_rows@;
    let ghost act = active_rows@;
    let mut snap: Vec<i32> = Vec::new();
    let mut og: Vec<i32> = Vec::new();
    let mut read: Vec<i32> = Vec::new();
    let mut missing_source: usize = 0;
    let mut missing_og: usize = 0;
    let mut missing_read: usize = 0;
    let mut snap_busy: usize = 0;
    let mut og_busy: usize = 0;
    let mut read_busy: usize = 0;
    let source_ids = artifact_set(artifact_rows, HyperlinkArtifactKind::SnapshotWarc, HyperlinkArtifactKind::PdfSource);
    let og_ids = artifact_set(artifact_rows, HyperlinkArtifactKind::OgMeta, HyperlinkArtifactKind::OgMeta);
    let text_ids = artifact_set(artifact_rows, HyperlinkArtifactKind::ReadableText, HyperlinkArtifactKind::ReadableText);
    let meta_ids = artifact_set(artifact_rows, HyperlinkArtifactKind::ReadableMeta, HyperlinkArtifactKind::ReadableMeta);
    let snap_active = active_set(active_rows, FetchJobKind::Snapshot);
    let og_active = active_set(active_rows, FetchJobKind::Og);
    let read_active = active_set(active_rows, FetchJobKind::Readability);
    let mut i: usize = 0;
    while i < hyperlink_ids.len()
        invariant
            i <= hyperlink_ids.len(),
            ids == hyperlink_ids@,
            forall|h: i32| #[trigger] source_ids@.contains(h) <==> has_artifact(arts, h, set![HyperlinkArtifactKind::SnapshotWarc, HyperlinkArtifactKind::PdfSource]),
            forall|h: i32| #[trigger] og_ids@.contains(h) <==> has_artifact(arts, h, set![HyperlinkArtifactKind::OgMeta, HyperlinkArtifactKind::OgMeta]),
            forall|h: i32| #[trigger] text_ids@.contains(h) <==> has_artifact(arts, h, set![HyperlinkArtifactKind::ReadableText, HyperlinkArtifactKind::ReadableText]),
            forall|h: i32| #[trigger] meta_ids@.contains(h) <==> has_artifact(arts, h, set![HyperlinkArtifactKind::ReadableMeta, HyperlinkArtifactKind::ReadableMeta]),
            forall|h: i32| #[trigger] snap_active@.contains(h) <==> has_active(act, h, FetchJobKind::Snapshot),
            forall|h: i32| #[trigger] og_active@.contains(h) <==> has_active(act, h, FetchJobKind::Og),
            forall|h: i32| #[trigger] read_active@.contains(h) <==> has_active(act, h, FetchJobKind::Readability),
            arts == artifact_rows@,
            act == active_rows@,
            snap@ == queued_ids(ids.take(i as int), arts, act, FetchJobKind::Snapshot),
            og@ == queued_ids(ids.take(i as int), arts, act, FetchJobKind::Og),
            read@ == queued_ids(ids.take(i as int), arts, act, FetchJobKind::Readability),
            missing_source == missing_ids(ids.take(i as int), arts, FetchJobKind::Snapshot).len(),
            missing_og == missing_ids(ids.take(i as int), arts, FetchJobKind::Og).len(),
            missing_read == missing_ids(ids.take(i as int), arts, FetchJobKind::Readability).len(),
            snap_busy == processing_ids(ids.take(i as int), arts, act, FetchJobKind::Snapshot).len(),
            og_busy == processing_ids(ids.take(i as int), arts, act, FetchJobKind::Og).len(),
            read_busy == processing_ids(ids.take(i as int), arts, act, FetchJobKind::Readability).len(),
            missing_source <= i && missing_og <= i && missing_read <= i,
            snap_busy <= i && og_busy <= i && read_busy <= i,
        decreases hyperlink_ids.len() - i,
    {
        let h = hyperlink_ids[i];
        assert(ids.take(i + 1).drop_last() =~= ids.take(i as int));
        assert(ids.take(i + 1).last() == h);
        let source = source_ids.contains(&h);
        let og_meta = og_ids.contains(&h);
        let text = text_ids.contains(&h);
        let meta = meta_ids.contains(&h);
        assert(set![HyperlinkArtifactKind::OgMeta, HyperlinkArtifactKind::OgMeta] =~= set![HyperlinkArtifactKind::OgMeta]);
        assert(set![HyperlinkArtifactKind::ReadableText, HyperlinkArtifactKind::ReadableText] =~= set![HyperlinkArtifactKind::ReadableText]);
        assert(set![HyperlinkArtifactKind::ReadableMeta, HyperlinkArtifactKind::ReadableMeta] =~= set![HyperlinkArtifactKind::ReadableMeta]);
        if !source {
            missing_source += 1;
            if snap_active.contains(&h) {
                snap_busy += 1;
            } else {
                snap.push(h);
            }
        } else {
            if !og_meta {
                missing_og += 1;
                if og_active.contains(&h) {
                    og_busy += 1;
                } else {
                    og.push(h);
                }
            }
            if !(text && meta) {
                missing_read += 1;
                if read_active.contains(&h) {
                    read_busy += 1;
                } else {
                    read.push(h);
                }
            }
        }
        i += 1;
    }
    assert(ids.take(i as int) =~= ids);
    let summary = MissingArtifactsSummary {
        total_hyperlinks: hyperlink_ids.len(),
        missing_source,
        missing_og,
        missing_readability: missing_read,
        snapshot_already_processing: snap_busy,
        og_already_processing: og_busy,
        readability_already_processing: read_busy,
        snapshot_will_queue: snap.len(),
        og_will_queue: og.len(),
        readability_will_queue: read.len(),
    };
    MissingArtifactsPlan {
        summary,
        snapshot_hyperlink_ids: snap,
        og_hyperlink_ids: og,
        readability_hyperlink_ids: read,
    }
}

proof fn lemma_split_counts(ids: Seq<i32>, p: spec_fn(i32) -> bool, q: spec_fn(i32) -> bool)
    ensures
        ids_where(ids, |h: i32| p(h)).len() == ids_where(ids, |h: i32| p(h) && q(h)).len()
            + ids_where(ids, |h: i32| p(h) && !q(h)).len(),
    decreases ids.len(),
{
    if ids.len() > 0 {
        lemma_split_counts(ids.drop_last(), p, q);
    }
}

proof fn lemma_ids_where_members(ids: Seq<i32>, p: spec_fn(i32) -> bool)
    ensures
        forall|j: int| 0 <= j < ids_where(ids, p).len() ==> p(#[trigger] ids_where(ids, p)[j]),
        forall|j: int| 0 <= j < ids_where(ids, p).len() ==> ids.contains(#[trigger] ids_where(ids, p)[j]),
    decreases ids.len(),
{
    if ids.len() > 0 {
        lemma_ids_where_members(ids.drop_last(), p);
        let prev = ids_where(ids.drop_last(), p);
        assert forall|j: int| 0 <= j < ids_where(ids, p).len() implies ids.contains(
            #[trigger] ids_where(ids, p)[j],
        ) by {
            if j < prev.len() {
                assert(ids_where(ids, p)[j] == prev[j]);
                assert(ids.drop_last().contains(prev[j]));
                let k = choose|k: int| 0 <= k < ids.drop_last().len() && ids.drop_last()[k] == prev[j];
                assert(ids[k] == prev[j]);
            } else {
                assert(ids[ids.len() - 1] == ids.last());
            }
        }
    }
}

/// Every hyperlink missing an artifact of a kind is either already being
/// processed for it or queued for it, never both; and only hyperlinks that
/// lack the artifact and have no such job running are queued.
pub proof fn law_missing_artifacts_plan(
    ids: Seq<i32>,
    arts: Seq<(i32, HyperlinkArtifactKind)>,
    active: Seq<(i32, FetchJobKind)>,
    k: FetchJobKind,
)
    ensures
        missing_ids(ids, arts, k).len() == processing_ids(ids, arts, active, k).len() + queued_ids(
            ids,
            arts,
            active,
            k,
        ).len(),
        forall|j: int|
            0 <= j < queued_ids(ids, arts, active, k).len() ==> {
                let h = #[trigger] queued_ids(ids, arts, active, k)[j];
                &&& ids.contains(h)
                &&& lacks_kind(arts, h, k)
                &&& !has_active(active, h, k)
            },
{
    let p = |h: i32| lacks_kind(arts, h, k);
    let q = |h: i32| has_active(active, h, k);
    lemma_split_counts(ids, p, q);
    assert(ids_where(ids, |h: i32| p(h)) =~= missing_ids(ids, arts, k)) by {
        assert((|h: i32| p(h)) =~= (|h: i32| lacks_kind(arts, h, k)));
    }
    assert((|h: i32| p(h) && q(h)) =~= (|h: i32| lacks_kind(arts, h, k) && has_active(active, h, k)));
    assert((|h: i32| p(h) && !q(h)) =~= (|h: i32| lacks_kind(arts, h, k) && !has_active(active, h, k)));
    lemma_ids_where_members(ids, |h: i32| lacks_kind(arts, h, k) && !has_active(active, h, k));
}

// ---------------------------------------------------------------------------
// Storage totals
// ---------------------------------------------------------------------------

/// The on-disk size of the SQLite database: its main, WAL and shared
/// memory files.
#[derive(Clone, Copy, Debug, PartialEq, Eq, Structural)]
pub struct SqliteDiskStats {
    pub main_bytes: u64,
    pub wal_bytes: u64,
    pub shm_bytes: u64,
}

pub open spec fn sat_add_u64(a: int, b: int) -> int {
    if a + b > u64::MAX {
        u64::MAX as int
    } else {
        a + b
    }
}

impl SqliteDiskStats {
    /// The three sizes added, saturating at `u64::MAX`.
    pub fn total_bytes(&self) -> (r: u64)
        ensures
            r == sat_add_u64(sat_add_u64(self.main_bytes as int, self.wal_bytes as int), self.shm_bytes as int),
    {
        self.main_bytes.saturating_add(self.wal_bytes).saturating_add(self.shm_bytes)
    }
}

/// The artifacts of one kind, for saved (root) and discovered hyperlinks.
pub struct ArtifactStorageByKind {
    pub kind: String,
    pub saved_size_bytes: i64,
    pub saved_artifact_count: i64,
    pub discovered_size_bytes: i64,
    pub discovered_artifact_count: i64,
}

/// Storage per kind and in total.
pub struct ArtifactStorageBreakdown {
    pub by_kind: Vec<ArtifactStorageByKind>,
    pub saved_total_bytes: i64,
    pub saved_total_count: i64,
    pub discovered_total_bytes: i64,
    pub discovered_total_count: i64,
}

pub open spec fn clamp0(v: i64) -> int {
    if v < 0 {
        0
    } else {
        v as int
    }
}

/// The saturating sum of the non-negative parts of `vals`.
pub open spec fn sat_sum(vals: Seq<i64>) -> int
    decreases vals.len(),
{
    if vals.len() == 0 {
        0
    } else {
        let s = sat_sum(vals.drop_last()) + clamp0(vals.last());
        if s > i64::MAX {
            i64::MAX as int
        } else {
            s
        }
    }
}

fn sat_add_i64(a: i64, b: i64) -> (r: i64)
    requires
        a >= 0,
        b >= 0,
    ensures
        r == (if a + b > i64::MAX {
            i64::MAX as int
        } else {
            a + b
        }),
{
    if a > i64::MAX - b {
        i64::MAX
    } else {
        a + b
    }
}

pub open spec fn column(rows: Seq<ArtifactStorageByKind>, c: int) -> Seq<i64> {
    rows.map_values(
        |r: ArtifactStorageByKind|
            if c == 0 {
                r.saved_size_bytes
            } else if c == 1 {
                r.saved_artifact_count
            } else if c == 2 {
                r.discovered_size_bytes
            } else {
                r.discovered_artifact_count
            },
    )
}

/// Totals of per-kind rows as the database returned them: negative values
/// count as 0, in the rows and in the totals, and the totals saturate.
pub fn artifact_storage_breakdown(rows: &Vec<ArtifactStorageByKind>) -> (b: ArtifactStorageBreakdown)
    ensures
        b.by_kind@.len() == rows@.len(),
        forall|i: int|
            0 <= i < rows@.len() ==> {
                let got = #[trigger] b.by_kind@[i];
                &&& got.kind@ == rows@[i].kind@
                &&& got.saved_size_bytes == clamp0(rows@[i].saved_size_bytes)
                &&& got.saved_artifact_count == clamp0(rows@[i].saved_artifact_count)
                &&& got.discovered_size_bytes == clamp0(rows@[i].discovered_size_bytes)
                &&& got.discovered_artifact_count == clamp0(rows@[i].discovered_artifact_count)
            },
        b.saved_total_bytes == sat_sum(column(rows@, 0)),
        b.saved_total_count == sat_sum(column(rows@, 1)),
        b.discovered_total_bytes == sat_sum(column(rows@, 2)),
        b.discovered_total_count == sat_sum(column(rows@, 3)),
{
    let ghost rs = rows@;
    let mut by_kind: Vec<ArtifactStorageByKind> = Vec::new();
    let mut t0: i64 = 0;
    let mut t1: i64 = 0;
    let mut t2: i64 = 0;
    let mut t3: i64 = 0;
    let mut i: usize = 0;
    let n = rows.len();
    while i < n
        invariant
            i <= n,
            n == rs.len(),
            rows@ == rs,
            by_kind@.len() == i,
            forall|k: int|
                0 <= k < i ==> {
                    let got = #[trigger] by_kind@[k];
                    &&& got.kind@ == rs[k].kind@
                    &&& got.saved_size_bytes == clamp0(rs[k].saved_size_bytes)
                    &&& got.saved_artifact_count == clamp0(rs[k].saved_artifact_count)
                    &&& got.discovered_size_bytes == clamp0(rs[k].discovered_size_bytes)
                    &&& got.discovered_artifact_count == clamp0(rs[k].discovered_artifact_count)
                },
            t0 == sat_sum(column(rs.take(i as int), 0)),
            t1 == sat_sum(column(rs.take(i as int), 1)),
            t2 == sat_sum(column(rs.take(i as int), 2)),
            t3 == sat_sum(column(rs.take(i as int), 3)),
            t0 >= 0 && t1 >= 0 && t2 >= 0 && t3 >= 0,
        decreases n - i,
    {
        let row = &rows[i];
        let s0 = if row.saved_size_bytes < 0 { 0 } else { row.saved_size_bytes };
        let s1 = if row.saved_artifact_count < 0 { 0 } else { row.saved_artifact_count };
        let s2 = if row.discovered_size_bytes < 0 { 0 } else { row.discovered_size_bytes };
        let s3 = if row.discovered_artifact_count < 0 { 0 } else { row.discovered_artifact_count };
        assert(rs.take(i + 1).drop_last() =~= rs.take(i as int));
        assert(column(rs.take(i + 1), 0).drop_last() =~= column(rs.take(i as int), 0));
        assert(column(rs.take(i + 1), 1).drop_last() =~= column(rs.take(i as int), 1));
        assert(column(rs.take(i + 1), 2).drop_last() =~= column(rs.take(i as int), 2));
        assert(column(rs.take(i + 1), 3).drop_last() =~= column(rs.take(i as int), 3));
        t0 = sat_add_i64(t0, s0);
        t1 = sat_add_i64(t1, s1);
        t2 = sat_add_i64(t2, s2);
        t3 = sat_add_i64(t3, s3);
        by_kind.push(
            ArtifactStorageByKind {
                kind: row.kind.clone(),
                saved_size_bytes: s0,
                saved_artifact_count: s1,
                discovered_size_bytes: s2,
                discovered_artifact_count: s3,
            },
        );
        i += 1;
    }
    assert(rs.take(i as int) =~= rs);
    ArtifactStorageBreakdown {
        by_kind,
        saved_total_bytes: t0,
        saved_total_count: t1,
        discovered_total_bytes: t2,
        discovered_total_count: t3,
    }
}

// ---------------------------------------------------------------------------
// Backup archive paths
// ---------------------------------------------------------------------------

/// A payload path from a backup archive is safe: not blank, relative, and
/// made of plain names only (no `..`, and no leading `.`); paths as Unix
/// reads them.
pub open spec fn archive_path_error(path: Seq<char>) -> Option<Seq<char>> {
    let parts = split_char(path, '/');
    if trim(path).len() == 0 {
        Some("artifact payload path is empty"@)
    } else if starts_with(path, "/"@) {
        Some("artifact payload path must be relative: "@ + path)
    } else if parts[0] == "."@ || exists|i: int| 0 <= i < parts.len() && #[trigger] parts[i] == ".."@ {
        Some("artifact payload path is unsafe: "@ + path)
    } else {
        None
    }
}

pub fn validate_archive_entry_path(path: &str) -> (r: Result<(), String>)
    ensures
        match r {
            Ok(_) => archive_path_error(path@) is None,
            Err(e) => archive_path_error(path@) == Some(e@),
        },
{
    let p = chars_of(path);
    if trim_exec(&p).len() == 0 {
        return Err("artifact payload path is empty".to_string());
    }
    if crate::text::matches_at_exec(&p, &chars_of("/"), 0) {
        let mut out = chars_of("artifact payload path must be relative: ");
        crate::text::append_all(&mut out, &p);
        return Err(crate::text::string_from_chars(&out));
    }
    let parts = split_char_exec(&p, '/');
    let ghost ps = split_char(path@, '/');
    assert(views(parts@) == ps);
    let mut unsafe_part = eq_lit(&parts[0], ".");
    let mut i: usize = 0;
    while i < parts.len()
        invariant
            i <= parts.len(),
            views(parts@) == ps,
            ps.len() > 0,
            unsafe_part == (ps[0] == "."@ || exists|k: int| 0 <= k < i && #[trigger] ps[k] == ".."@),
        decreases parts.len() - i,
    {
        assert(ps[i as int] == parts@[i as int]@);
        if eq_lit(&parts[i], "..") {
            unsafe_part = true;
        }
        i += 1;
    }
    if unsafe_part {
        let mut out = chars_of("artifact payload path is unsafe: ");
        crate::text::append_all(&mut out, &p);
        return Err(crate::text::string_from_chars(&out));
    }
    Ok(())
}


// ---------------------------------------------------------------------------
// Backup archives
// ---------------------------------------------------------------------------

/// The archive layout this server writes and reads.
pub const BACKUP_VERSION: u32 = 1;

/// A manifest of another layout is refused.
pub fn backup_version_error(version: u32) -> (r: Option<String>)
    ensures
        version == BACKUP_VERSION ==> r is None,
        version != BACKUP_VERSION ==> opt_text(r) == Some(
            "unsupported backup version "@ + dec_nat(version as nat) + "; expected 1"@,
        ),
{
    if version == BACKUP_VERSION {
        return None;
    }
    let mut out = chars_of("unsupported backup version ");
    append_all(&mut out, &chars_of(format_u64(version as u64).as_str()));
    append_all(&mut out, &chars_of("; expected 1"));
    Some(string_from_chars(&out))
}

pub open spec fn count_mismatch(what: Seq<char>, manifest: usize, found: usize) -> Seq<char> {
    what + " count mismatch: manifest says "@ + dec_nat(manifest as nat) + ", file contains "@
        + dec_nat(found as nat)
}

fn mismatch_text(what: &str, manifest: usize, found: usize) -> (r: String)
    ensures
        r@ == count_mismatch(what@, manifest, found),
{
    let mut out = chars_of(what);
    append_all(&mut out, &chars_of(" count mismatch: manifest says "));
    append_all(&mut out, &chars_of(format_u64(manifest as u64).as_str()));
    append_all(&mut out, &chars_of(", file contains "));
    append_all(&mut out, &chars_of(format_u64(found as u64).as_str()));
    string_from_chars(&out)
}

/// The first kind of row (hyperlinks, relations, artifacts) whose count
/// differs from the manifest's.
pub open spec fn count_error_spec(manifest: (usize, usize, usize), found: (usize, usize, usize)) -> Option<Seq<char>> {
    if manifest.0 != found.0 {
        Some(count_mismatch("hyperlinks"@, manifest.0, found.0))
    } else if manifest.1 != found.1 {
        Some(count_mismatch("relations"@, manifest.1, found.1))
    } else if manifest.2 != found.2 {
        Some(count_mismatch("artifacts"@, manifest.2, found.2))
    } else {
        None
    }
}

/// The rows of an archive must be as many as its manifest says: the
/// first kind that differs (hyperlinks, relations, artifacts) is reported.
pub fn backup_count_error(
    manifest: (usize, usize, usize),
    found: (usize, usize, usize),
) -> (r: Option<String>)
    ensures
        opt_text(r) == count_error_spec(manifest, found),
{
    if manifest.0 != found.0 {
        return Some(mismatch_text("hyperlinks", manifest.0, found.0));
    }
    if manifest.1 != found.1 {
        return Some(mismatch_text("relations", manifest.1, found.1));
    }
    if manifest.2 != found.2 {
        return Some(mismatch_text("artifacts", manifest.2, found.2));
    }
    None
}

/// The artifact ids met so far while reading an archive.
pub struct SeenArtifactIds {
    ids: Vec<i32>,
}

impl View for SeenArtifactIds {
    type V = Seq<i32>;

    closed spec fn view(&self) -> Seq<i32> {
        self.ids@
    }
}

impl SeenArtifactIds {
    pub fn new() -> (r: Self)
        ensures
            r@ == Seq::<i32>::empty(),
    {
        SeenArtifactIds { ids: Vec::new() }
    }

    /// Records artifact `id`; an id met before makes the archive invalid.
    pub fn record(&mut self, id: i32) -> (r: Result<(), String>)
        ensures
            old(self)@.contains(id) ==> final(self)@ == old(self)@ && (r matches Err(e) && e@
                == "duplicate artifact id "@ + dec_int(id as int) + " in artifacts.json"@),
            !old(self)@.contains(id) ==> final(self)@ == old(self)@.push(id) && r is Ok,
    {
        let mut i: usize = 0;
        while i < self.ids.len()
            invariant
                i <= self.ids@.len(),
                forall|k: int| 0 <= k < i ==> self.ids@[k] != id,
            decreases self.ids@.len() - i,
        {
            if self.ids[i] == id {
                let mut out = chars_of("duplicate artifact id ");
                append_all(&mut out, &chars_of(format_i32(id).as_str()));
                append_all(&mut out, &chars_of(" in artifacts.json"));
                return Err(string_from_chars(&out));
            }
            i += 1;
        }
        self.ids.push(id);
        Ok(())
    }
}

/// An artifact row of a backup archive, with what reading its payload
/// from the archive gave: `read_error` holds the message when that failed.
pub struct ArchiveArtifactEntry {
    pub id: i32,
    pub payload_path: String,
    pub read_error: Option<String>,
}

pub open spec fn duplicate_id_message(id: i32) -> Seq<char> {
    "duplicate artifact id "@ + dec_int(id as int) + " in artifacts.json"@
}

/// What is wrong with one artifact row, the ids of the rows before it
/// being `seen`: its path, then reading its payload, then its id.
pub open spec fn entry_error(e: ArchiveArtifactEntry, seen: Seq<i32>) -> Option<Seq<char>> {
    match archive_path_error(e.payload_path@) {
        Some(m) => Some(m),
        None => match e.read_error {
            Some(m) => Some(m@),
            None => if seen.contains(e.id) {
                Some(duplicate_id_message(e.id))
            } else {
                None
            },
        },
    }
}

/// The first error among the artifact rows, in order.
pub open spec fn entries_error(es: Seq<ArchiveArtifactEntry>, seen: Seq<i32>) -> Option<Seq<char>>
    decreases es.len(),
{
    if es.len() == 0 {
        None
    } else {
        match entry_error(es[0], seen) {
            Some(m) => Some(m),
            None => entries_error(es.drop_first(), seen.push(es[0].id)),
        }
    }
}

/// What refuses an archive whose files were read: its layout version,
/// then the row counts against its manifest, then each artifact row.
pub open spec fn backup_contents_error(
    version: u32,
    manifest: (usize, usize, usize),
    hyperlinks: usize,
    relations: usize,
    artifacts: Seq<ArchiveArtifactEntry>,
) -> Option<Seq<char>> {
    if version != BACKUP_VERSION {
        Some("unsupported backup version "@ + dec_nat(version as nat) + "; expected 1"@)
    } else {
        match count_error_spec(manifest, (hyperlinks, relations, artifacts.len() as usize)) {
            Some(m) => Some(m),
            None => entries_error(artifacts, Seq::empty()),
        }
    }
}

/// Checks a backup archive whose manifest (`version` and row counts),
/// row files (`hyperlinks` and `relations` rows) and artifact payloads
/// were read: `Ok` exactly when nothing refuses it, else the first error.
pub fn check_backup_contents(
    version: u32,
    manifest: (usize, usize, usize),
    hyperlinks: usize,
    relations: usize,
    artifacts: &Vec<ArchiveArtifactEntry>,
) -> (r: Result<(), String>)
    ensures
        match r {
            Ok(_) => backup_contents_error(version, manifest, hyperlinks, relations, artifacts@) is None,
            Err(e) => backup_contents_error(version, manifest, hyperlinks, relations, artifacts@) == Some(e@),
        },
{
    if let Some(e) = backup_version_error(version) {
        return Err(e);
    }
    if let Some(e) = backup_count_error(manifest, (hyperlinks, relations, artifacts.len())) {
        return Err(e);
    }
    let ghost es = artifacts@;
    let mut seen = SeenArtifactIds::new();
    let mut i: usize = 0;
    assert(es.subrange(0, es.len() as int) =~= es);
    assert(backup_contents_error(version, manifest, hyperlinks, relations, es) == entries_error(es, Seq::empty()));
    while i < artifacts.len()
        invariant
            i <= artifacts.len(),
            es == artifacts@,
            backup_contents_error(version, manifest, hyperlinks, relations, es) == entries_error(
                es.subrange(i as int, es.len() as int),
                seen@,
            ),
        decreases artifacts.len() - i,
    {
        let ghost rest = es.subrange(i as int, es.len() as int);
        assert(rest[0] == es[i as int]);
        assert(rest.drop_first() =~= es.subrange(i + 1, es.len() as int));
        let entry = &artifacts[i];
        if let Err(e) = validate_archive_entry_path(entry.payload_path.as_str()) {
            return Err(e);
        }
        if let Some(e) = &entry.read_error {
            return Err(e.clone());
        }
        if let Err(e) = seen.record(entry.id) {
            return Err(e);
        }
        i += 1;
    }
    assert(es.subrange(i as int, es.len() as int).len() == 0);
    Ok(())
}

/// The flash after queuing the jobs of a missing-artifacts plan.
pub fn queued_jobs_message(snapshot: usize, og: usize, readability: usize) -> (r: String)
    ensures
        r@ == "Queued "@ + dec_nat(snapshot as nat) + " snapshot job(s), "@ + dec_nat(og as nat)
            + " og job(s), and "@ + dec_nat(readability as nat) + " readability job(s)."@,
{
    let mut out = chars_of("Queued ");
    append_all(&mut out, &chars_of(format_u64(snapshot as u64).as_str()));
    append_all(&mut out, &chars_of(" snapshot job(s), "));
    append_all(&mut out, &chars_of(format_u64(og as u64).as_str()));
    append_all(&mut out, &chars_of(" og job(s), and "));
    append_all(&mut out, &chars_of(format_u64(readability as u64).as_str()));
    append_all(&mut out, &chars_of(" readability job(s)."));
    string_from_chars(&out)
}

} // verus!
