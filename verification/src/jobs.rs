//! The admin jobs dashboard: queue status filters, paging, and the text of
//! each queue row.
use vstd::prelude::*;

use crate::forms::{decode_form_pairs, form_pairs, pair_view, pairs_view};
use crate::numbers::{dec_int, dec_nat, format_i32, format_i64, format_u64, parse_i64, parse_i64_spec};
use crate::text::{append_all, chars_of, eq_lit, string_from_chars, subvec, trim, trim_exec};
use std::collections::HashMap;

verus! {

broadcast use vstd::std_specs::hash::group_hash_axioms;

/// Which queue rows the dashboard lists.
#[derive(Clone, Copy, Debug, PartialEq, Eq, Structural)]
pub enum QueueStatusFilter {
    All,
    Queued,
    Processing,
    Completed,
    Failed,
    Cleared,
}

/// The filter a `status` query value names; anything else lists all rows.
pub open spec fn filter_of(value: Option<Seq<char>>) -> QueueStatusFilter {
    match value {
        Some(v) => if v == "queued"@ {
            QueueStatusFilter::Queued
        } else if v == "processing"@ {
            QueueStatusFilter::Processing
        } else if v == "completed"@ {
            QueueStatusFilter::Completed
        } else if v == "failed"@ {
            QueueStatusFilter::Failed
        } else if v == "cleared"@ {
            QueueStatusFilter::Cleared
        } else {
            QueueStatusFilter::All
        },
        None => QueueStatusFilter::All,
    }
}

pub open spec fn filter_name(f: QueueStatusFilter) -> Seq<char> {
    match f {
        QueueStatusFilter::All => "all"@,
        QueueStatusFilter::Queued => "queued"@,
        QueueStatusFilter::Processing => "processing"@,
        QueueStatusFilter::Completed => "completed"@,
        QueueStatusFilter::Failed => "failed"@,
        QueueStatusFilter::Cleared => "cleared"@,
    }
}

impl QueueStatusFilter {
    pub fn from_query(value: Option<&str>) -> (r: QueueStatusFilter)
        ensures
            r == filter_of(
                match value {
                    Some(v) => Some(v@),
                    None => None,
                },
            ),
    {
        match value {
            Some(v) => {
                let c = chars_of(v);
                if eq_lit(&c, "queued") {
                    QueueStatusFilter::Queued
                } else if eq_lit(&c, "processing") {
                    QueueStatusFilter::Processing
                } else if eq_lit(&c, "completed") {
                    QueueStatusFilter::Completed
                } else if eq_lit(&c, "failed") {
                    QueueStatusFilter::Failed
                } else if eq_lit(&c, "cleared") {
                    QueueStatusFilter::Cleared
                } else {
                    QueueStatusFilter::All
                }
            },
            None => QueueStatusFilter::All,
        }
    }

    pub fn as_str(self) -> (r: &'static str)
        ensures
            r@ == filter_name(self),
    {
        match self {
            QueueStatusFilter::All => "all",
            QueueStatusFilter::Queued => "queued",
            QueueStatusFilter::Processing => "processing",
            QueueStatusFilter::Completed => "completed",
            QueueStatusFilter::Failed => "failed",
            QueueStatusFilter::Cleared => "cleared",
        }
    }
}

/// The SQL condition a filter adds to the queue query, and the values it
/// binds, in order.
pub open spec fn filter_clause(f: QueueStatusFilter) -> (Seq<char>, Seq<Seq<char>>) {
    match f {
        QueueStatusFilter::All => (""@, seq![]),
        QueueStatusFilter::Queued => (" AND j.status = ?"@, seq!["queued"@]),
        QueueStatusFilter::Processing => (" AND j.status = ?"@, seq!["processing"@]),
        QueueStatusFilter::Completed => (" AND j.status = ?"@, seq!["completed"@]),
        QueueStatusFilter::Failed => (
            " AND (j.status = ? OR hpj.state = ?)"@,
            seq!["failed"@, "failed"@],
        ),
        QueueStatusFilter::Cleared => (" AND j.status = ?"@, seq!["cleared"@]),
    }
}

/// A filter's name, given as the `status` value, selects that filter again;
/// every filter but `all` binds exactly its own name, once or more, as the
/// queue status it compares with, and `all` adds no condition.
pub proof fn law_queue_filter_round_trip(f: QueueStatusFilter)
    ensures
        filter_of(Some(filter_name(f))) == f,
        f != QueueStatusFilter::All ==> filter_clause(f).1.len() > 0 && forall|i: int|
            0 <= i < filter_clause(f).1.len() ==> #[trigger] filter_clause(f).1[i] == filter_name(f),
        f == QueueStatusFilter::All ==> filter_clause(f).0.len() == 0 && filter_clause(f).1.len() == 0,
{
    reveal_strlit("all");
    reveal_strlit("queued");
    reveal_strlit("processing");
    reveal_strlit("completed");
    reveal_strlit("failed");
    reveal_strlit("cleared");
    reveal_strlit("");
    assert("queued"@ != "all"@) by {
        assert("queued"@.len() != "all"@.len());
    }
    assert("processing"@ != "all"@) by {
        assert("processing"@.len() != "all"@.len());
    }
    assert("processing"@ != "queued"@) by {
        assert("processing"@.len() != "queued"@.len());
    }
    assert("completed"@ != "all"@) by {
        assert("completed"@.len() != "all"@.len());
    }
    assert("completed"@ != "queued"@) by {
        assert("completed"@.len() != "queued"@.len());
    }
    assert("completed"@ != "processing"@) by {
        assert("completed"@.len() != "processing"@.len());
    }
    assert("failed"@ != "all"@) by {
        assert("failed"@.len() != "all"@.len());
    }
    assert("failed"@ != "queued"@) by {
        assert("failed"@[0] != "queued"@[0]);
    }
    assert("failed"@ != "processing"@) by {
        assert("failed"@.len() != "processing"@.len());
    }
    assert("failed"@ != "completed"@) by {
        assert("failed"@.len() != "completed"@.len());
    }
    assert("cleared"@ != "all"@) by {
        assert("cleared"@.len() != "all"@.len());
    }
    assert("cleared"@ != "queued"@) by {
        assert("cleared"@.len() != "queued"@.len());
    }
    assert("cleared"@ != "processing"@) by {
        assert("cleared"@.len() != "processing"@.len());
    }
    assert("cleared"@ != "completed"@) by {
        assert("cleared"@.len() != "completed"@.len());
    }
    assert("cleared"@ != "failed"@) by {
        assert("cleared"@.len() != "failed"@.len());
    }
}

/// The SQL condition and bound values for a status filter.
pub fn status_filter_clause(status_filter: QueueStatusFilter) -> (r: (
    &'static str,
    Vec<&'static str>,
))
    ensures
        r.0@ == filter_clause(status_filter).0,
        r.1@.map_values(|v: &str| v@) == filter_clause(status_filter).1,
{
    let r: (&'static str, Vec<&'static str>) = match status_filter {
        QueueStatusFilter::All => ("", Vec::new()),
        QueueStatusFilter::Queued => (" AND j.status = ?", vec!["queued"]),
        QueueStatusFilter::Processing => (" AND j.status = ?", vec!["processing"]),
        QueueStatusFilter::Completed => (" AND j.status = ?", vec!["completed"]),
        QueueStatusFilter::Failed => (" AND (j.status = ? OR hpj.state = ?)", vec!["failed", "failed"]),
        QueueStatusFilter::Cleared => (" AND j.status = ?", vec!["cleared"]),
    };
    assert(r.1@.map_values(|v: &str| v@) =~= filter_clause(status_filter).1);
    r
}

// ---------------------------------------------------------------------------
// Paging
// ---------------------------------------------------------------------------

/// Rows per page: 50 unless asked, and always between 1 and 200.
pub open spec fn limit_of(limit: Option<u64>) -> int {
    let l = match limit {
        Some(l) => l as int,
        None => 50,
    };
    if l < 1 {
        1
    } else if l > 200 {
        200
    } else {
        l
    }
}

pub fn resolve_limit(limit: Option<u64>) -> (r: u64)
    ensures
        r == limit_of(limit),
{
    let l = match limit {
        Some(l) => l,
        None => 50,
    };
    if l < 1 {
        1
    } else if l > 200 {
        200
    } else {
        l
    }
}

/// The requested page, 1 when absent or 0.
pub fn resolve_page(page: Option<u64>) -> (r: u64)
    ensures
        r == (match page {
            Some(p) => if p < 1 {
                1
            } else {
                p as int
            },
            None => 1,
        }),
{
    match page {
        Some(p) => if p < 1 {
            1
        } else {
            p
        },
        None => 1,
    }
}

/// `a / b` rounded up.
pub open spec fn ceil_div(a: int, b: int) -> int {
    if a % b == 0 {
        a / b
    } else {
        a / b + 1
    }
}

/// The number of pages for `total_rows` rows: at least 1.
pub fn total_pages(total_rows: i64, limit: u64) -> (r: u64)
    ensures
        r == (if total_rows <= 0 {
            1
        } else {
            ceil_div(total_rows as int, if limit < 1 {
                1
            } else {
                limit as int
            })
        }),
        r >= 1,
{
    if total_rows <= 0 {
        return 1;
    }
    let rows = total_rows as u64;
    let per = if limit < 1 {
        1
    } else {
        limit
    };
    let q = rows / per;
    if rows % per == 0 {
        assert(q >= 1) by (nonlinear_arith)
            requires
                q == rows / per,
                rows >= 1,
                rows % per == 0,
                per >= 1,
        ;
        q
    } else {
        assert(q < u64::MAX) by (nonlinear_arith)
            requires
                q == rows / per,
                per >= 1,
                rows < 0x8000_0000_0000_0000,
        ;
        q + 1
    }
}

/// The number of rows before page `page`, saturating at `u64::MAX`.
pub open spec fn offset_of(page: int, limit: int) -> int {
    let p = if page >= 1 {
        page - 1
    } else {
        0
    };
    let l = if limit < 1 {
        1
    } else {
        limit
    };
    if p * l > u64::MAX {
        u64::MAX as int
    } else {
        p * l
    }
}

pub fn page_offset(page: u64, limit: u64) -> (r: u64)
    ensures
        r == offset_of(page as int, limit as int),
{
    let p = page.saturating_sub(1);
    let l = if limit < 1 {
        1
    } else {
        limit
    };
    match p.checked_mul(l) {
        Some(v) => v,
        None => u64::MAX,
    }
}

/// The dashboard link for a filter, a page size and a page.
pub open spec fn jobs_href_spec(f: QueueStatusFilter, limit: u64, page: u64) -> Seq<char> {
    "/admin/jobs?status="@ + filter_name(f) + "&limit="@ + dec_nat(limit as nat) + "&page="@
        + dec_nat(page as nat)
}

pub fn jobs_href(status_filter: QueueStatusFilter, limit: u64, page: u64) -> (r: String)
    ensures
        r@ == jobs_href_spec(status_filter, limit, page),
{
    let mut out = chars_of("/admin/jobs?status=");
    append_all(&mut out, &chars_of(status_filter.as_str()));
    append_all(&mut out, &chars_of("&limit="));
    append_all(&mut out, &chars_of(format_u64(limit).as_str()));
    append_all(&mut out, &chars_of("&page="));
    append_all(&mut out, &chars_of(format_u64(page).as_str()));
    string_from_chars(&out)
}

/// The 1-based number of the first row shown: 0 when there are no rows.
pub open spec fn range_start_spec(total_rows: int, page: int, limit: int) -> int {
    if total_rows == 0 {
        0
    } else {
        let off = offset_of(page, limit);
        if off >= i64::MAX {
            i64::MAX as int
        } else {
            off + 1
        }
    }
}

pub fn range_start(total_rows: i64, page: u64, limit: u64) -> (r: i64)
    ensures
        r == range_start_spec(total_rows as int, page as int, limit as int),
{
    if total_rows == 0 {
        return 0;
    }
    let off = page_offset(page, limit);
    if off >= i64::MAX as u64 {
        i64::MAX
    } else {
        off as i64 + 1
    }
}

/// The number of the last row shown: 0 when the page shows no rows.
pub fn range_end(range_start: i64, rows_shown: usize) -> (r: i64)
    requires
        rows_shown == 0 || range_start as int + rows_shown as int - 1 <= i64::MAX,
        rows_shown == 0 || range_start as int + rows_shown as int - 1 >= i64::MIN,
    ensures
        r == (if rows_shown == 0 {
            0
        } else {
            range_start as int + rows_shown as int - 1
        }),
{
    if rows_shown == 0 {
        0
    } else {
        (range_start as i128 + rows_shown as i128 - 1) as i64
    }
}

// ---------------------------------------------------------------------------
// Row text
// ---------------------------------------------------------------------------

/// At most `max` characters of `s`, with `...` when some were cut.
pub open spec fn truncated(s: Seq<char>, max: int) -> Seq<char> {
    if s.len() <= max {
        s
    } else {
        s.take(max) + "..."@
    }
}

pub fn truncate(value: &str, max_chars: usize) -> (r: String)
    ensures
        r@ == truncated(value@, max_chars as int),
{
    let c = chars_of(value);
    if c.len() <= max_chars {
        return value.to_string();
    }
    let mut out = subvec(&c, 0, max_chars);
    append_all(&mut out, &chars_of("..."));
    string_from_chars(&out)
}

/// `{total} ms total | {last} ms last`, the last time 0 when unknown.
pub fn format_timing(total_ms: i64, last_ms: Option<i64>) -> (r: String)
    ensures
        r@ == dec_int(total_ms as int) + " ms total | "@ + dec_int(
            match last_ms {
                Some(l) => l as int,
                None => 0,
            },
        ) + " ms last"@,
{
    let last = match last_ms {
        Some(l) => l,
        None => 0,
    };
    let mut out = chars_of(format_i64(total_ms).as_str());
    append_all(&mut out, &chars_of(" ms total | "));
    append_all(&mut out, &chars_of(format_i64(last).as_str()));
    append_all(&mut out, &chars_of(" ms last"));
    string_from_chars(&out)
}

/// `{attempts}/{max_attempts}`.
pub fn attempts_display(attempts: i32, max_attempts: i32) -> (r: String)
    ensures
        r@ == dec_int(attempts as int) + "/"@ + dec_int(max_attempts as int),
{
    let mut out = chars_of(format_i32(attempts).as_str());
    append_all(&mut out, &chars_of("/"));
    append_all(&mut out, &chars_of(format_i32(max_attempts).as_str()));
    string_from_chars(&out)
}

/// The error shown for a row: the processing job's, the queue's, or both
/// when they differ.
pub open spec fn error_display_spec(processing: Option<Seq<char>>, queue: Option<Seq<char>>) -> Option<
    Seq<char>,
> {
    match (processing, queue) {
        (Some(p), Some(q)) => if p == q {
            Some(p)
        } else {
            Some(p + " (queue: "@ + q + ")"@)
        },
        (Some(p), None) => Some(p),
        (None, Some(q)) => Some(q),
        (None, None) => None,
    }
}

pub open spec fn opt_str(o: Option<&str>) -> Option<Seq<char>> {
    match o {
        Some(s) => Some(s@),
        None => None,
    }
}

pub fn error_display(processing: Option<&str>, queue: Option<&str>) -> (r: Option<String>)
    ensures
        (match r {
            Some(s) => Some(s@),
            None => None,
        }) == error_display_spec(opt_str(processing), opt_str(queue)),
{
    match (processing, queue) {
        (Some(p), Some(q)) => {
            let pc = chars_of(p);
            let qc = chars_of(q);
            if crate::text::seq_eq(&pc, &qc) {
                Some(p.to_string())
            } else {
                let mut out = pc;
                append_all(&mut out, &chars_of(" (queue: "));
                append_all(&mut out, &qc);
                append_all(&mut out, &chars_of(")"));
                Some(string_from_chars(&out))
            }
        },
        (Some(p), None) => Some(p.to_string()),
        (None, Some(q)) => Some(q.to_string()),
        (None, None) => None,
    }
}

// ---------------------------------------------------------------------------
// Selected rows
// ---------------------------------------------------------------------------

/// The queue id a form pair selects: a `queue_id` field holding an `i64`.
pub open spec fn selected_id(p: (Seq<char>, Seq<char>)) -> Option<int> {
    if p.0 == "queue_id"@ {
        parse_i64_spec(p.1)
    } else {
        None
    }
}

/// `v` is strictly increasing.
pub open spec fn strictly_increasing(v: Seq<i64>) -> bool {
    forall|i: int, j: int| 0 <= i < j < v.len() ==> v[i] < v[j]
}

/// Inserts `x` into a strictly increasing vector unless it is there.
fn insert_sorted_unique(v: &mut Vec<i64>, x: i64)
    requires
        strictly_increasing(old(v)@),
    ensures
        strictly_increasing(final(v)@),
        forall|y: i64| final(v)@.contains(y) <==> (old(v)@.contains(y) || y == x),
{
    let mut i: usize = 0;
    while i < v.len() && v[i] < x
        invariant
            i <= v.len(),
            v@ == old(v)@,
            forall|k: int| 0 <= k < i ==> v@[k] < x,
        decreases v.len() - i,
    {
        i += 1;
    }
    if i < v.len() && v[i] == x {
        assert(v@[i as int] == x);
        assert(v@.contains(x));
        assert forall|y: i64| v@.contains(y) <==> (v@.contains(y) || y == x) by {}
        return;
    }
    let ghost before = v@;
    v.insert(i, x);
    assert forall|a: int, b: int| 0 <= a < b < v@.len() implies v@[a] < v@[b] by {
        if b < i {
        } else if a < i && b == i {
        } else if a < i {
            assert(before[a] < before[b - 1]);
        } else if a == i {
            assert(before[i as int] >= x);
            assert(b - 1 >= i);
            if b - 1 > i {
                assert(before[i as int] < before[b - 1]);
            }
        } else {
            assert(before[a - 1] < before[b - 1]);
        }
    }
    assert forall|y: i64| v@.contains(y) <==> (before.contains(y) || y == x) by {
        if before.contains(y) {
            let k = choose|k: int| 0 <= k < before.len() && before[k] == y;
            if k < i {
                assert(v@[k] == y);
            } else {
                assert(v@[k + 1] == y);
            }
        }
        if y == x {
            assert(v@[i as int] == x);
        }
        if v@.contains(y) {
            let k = choose|k: int| 0 <= k < v@.len() && v@[k] == y;
            if k < i {
                assert(before[k] == y);
            } else if k > i {
                assert(before[k - 1] == y);
            }
        }
    }
}

/// The queue ids that form pairs select, sorted, each once.
pub fn queue_ids_from_pairs(pairs: &Vec<(String, String)>) -> (r: Vec<i64>)
    ensures
        strictly_increasing(r@),
        forall|x: i64|
            r@.contains(x) <==> exists|i: int|
                0 <= i < pairs@.len() && selected_id(pair_view(#[trigger] pairs@[i])) == Some(
                    x as int,
                ),
{
    let mut r: Vec<i64> = Vec::new();
    let mut i: usize = 0;
    while i < pairs.len()
        invariant
            i <= pairs.len(),
            strictly_increasing(r@),
            forall|x: i64|
                r@.contains(x) <==> exists|k: int|
                    0 <= k < i && selected_id(pair_view(#[trigger] pairs@[k])) == Some(x as int),
        decreases pairs.len() - i,
    {
        let key = chars_of(pairs[i].0.as_str());
        let ghost before = r@;
        if eq_lit(&key, "queue_id") {
            match parse_i64(&chars_of(pairs[i].1.as_str())) {
                Some(id) => {
                    insert_sorted_unique(&mut r, id);
                },
                None => {},
            }
        }
        assert forall|x: i64|
            r@.contains(x) <==> exists|k: int|
                0 <= k < i + 1 && selected_id(pair_view(#[trigger] pairs@[k])) == Some(
                    x as int,
                ) by {
            if r@.contains(x) && !before.contains(x) {
                assert(selected_id(pair_view(pairs@[i as int])) == Some(x as int));
            }
            if exists|k: int|
                0 <= k < i + 1 && selected_id(pair_view(#[trigger] pairs@[k])) == Some(x as int) {
                let k = choose|k: int|
                    0 <= k < i + 1 && selected_id(pair_view(#[trigger] pairs@[k])) == Some(
                        x as int,
                    );
                if k < i {
                    assert(before.contains(x));
                }
            }
        }
        i += 1;
    }
    r
}

/// The queue ids selected in a submitted form body; none when the body
/// cannot be read.
pub fn selected_queue_ids(raw_form: &[u8]) -> (r: Vec<i64>)
    ensures
        strictly_increasing(r@),
        forall|x: i64|
            r@.contains(x) <==> match form_pairs(raw_form@) {
                Some(ps) => exists|i: int|
                    0 <= i < ps.len() && selected_id(#[trigger] ps[i]) == Some(x as int),
                None => false,
            },
{
    match decode_form_pairs(raw_form) {
        Some(pairs) => {
            let r = queue_ids_from_pairs(&pairs);
            assert forall|x: i64|
                r@.contains(x) <==> (exists|i: int|
                    0 <= i < pairs_view(pairs@).len() && selected_id(
                        #[trigger] pairs_view(pairs@)[i],
                    ) == Some(x as int)) by {
                if r@.contains(x) {
                    let i = choose|i: int|
                        0 <= i < pairs@.len() && selected_id(pair_view(#[trigger] pairs@[i]))
                            == Some(x as int);
                    assert(pairs_view(pairs@)[i] == pair_view(pairs@[i]));
                }
                if exists|i: int|
                    0 <= i < pairs_view(pairs@).len() && selected_id(
                        #[trigger] pairs_view(pairs@)[i],
                    ) == Some(x as int) {
                    let i = choose|i: int|
                        0 <= i < pairs_view(pairs@).len() && selected_id(
                            #[trigger] pairs_view(pairs@)[i],
                        ) == Some(x as int);
                    assert(pairs_view(pairs@)[i] == pair_view(pairs@[i]));
                }
            }
            r
        },
        None => Vec::new(),
    }
}


// ---------------------------------------------------------------------------
// Rows
// ---------------------------------------------------------------------------

/// A queue row as the dashboard reads it.
pub struct QueueJobRow {
    pub queue_id: i64,
    pub queue_status: String,
    pub payload: String,
    pub attempts: i32,
    pub max_attempts: i32,
    pub last_error: Option<String>,
    pub queued_ms_total: i64,
    pub queued_ms_last: Option<i64>,
    pub processing_ms_total: i64,
    pub processing_ms_last: Option<i64>,
    pub processing_job_id: Option<i32>,
}

/// The processing job a queue row points to, as the dashboard shows it.
pub struct ProcessingJobInfo {
    pub hyperlink_id: i32,
    pub state_name: String,
    pub kind_name: String,
    pub error_message: Option<String>,
}

/// The hyperlink of a processing job.
pub struct LinkInfo {
    pub title: String,
    pub url: String,
}

/// One row of the dashboard.
pub struct AdminJobRowView {
    pub queue_id: i64,
    pub queue_status: String,
    pub selectable_failed: bool,
    pub processing_job_id: Option<i32>,
    pub processing_state: Option<String>,
    pub processing_kind: Option<String>,
    pub hyperlink_id: Option<i32>,
    pub hyperlink_title: Option<String>,
    pub hyperlink_url: Option<String>,
    pub attempts_display: String,
    pub queued_timing_display: String,
    pub processing_timing_display: String,
    pub error_display: Option<String>,
    pub payload_excerpt: String,
    pub payload_unmapped: bool,
}

pub open spec fn opt_s(o: Option<String>) -> Option<Seq<char>> {
    match o {
        Some(s) => Some(s@),
        None => None,
    }
}

fn opt_as_str(o: &Option<String>) -> (r: Option<&str>)
    ensures
        opt_str(r) == opt_s(*o),
{
    match o {
        Some(s) => Some(s.as_str()),
        None => None,
    }
}

/// The value behind an optional reference.
pub open spec fn deref_opt<T>(o: Option<&T>) -> Option<T> {
    match o {
        Some(x) => Some(*x),
        None => None,
    }
}

/// `v` is the dashboard row for `row`, its processing job `job` (when
/// found) and that job's hyperlink `link` (when found).
pub open spec fn is_row_view(
    v: AdminJobRowView,
    row: QueueJobRow,
    job: Option<ProcessingJobInfo>,
    link: Option<LinkInfo>,
) -> bool {
    &&& v.queue_id == row.queue_id
    &&& v.queue_status@ == row.queue_status@
    &&& v.selectable_failed == (row.queue_status@ == "failed"@)
    &&& v.processing_job_id == row.processing_job_id
    &&& opt_s(v.processing_state) == (match job {
        Some(j) => Some(j.state_name@),
        None => None,
    })
    &&& opt_s(v.processing_kind) == (match job {
        Some(j) => Some(j.kind_name@),
        None => None,
    })
    &&& v.hyperlink_id == (match job {
        Some(j) => Some(j.hyperlink_id),
        None => None,
    })
    &&& opt_s(v.hyperlink_title) == (match (job, link) {
        (Some(_), Some(l)) => Some(l.title@),
        _ => None,
    })
    &&& opt_s(v.hyperlink_url) == (match (job, link) {
        (Some(_), Some(l)) => Some(l.url@),
        _ => None,
    })
    &&& v.attempts_display@ == dec_int(row.attempts as int) + "/"@ + dec_int(row.max_attempts as int)
    &&& v.queued_timing_display@ == dec_int(row.queued_ms_total as int) + " ms total | "@ + dec_int(
        match row.queued_ms_last {
            Some(l) => l as int,
            None => 0,
        },
    ) + " ms last"@
    &&& v.processing_timing_display@ == dec_int(row.processing_ms_total as int) + " ms total | "@
        + dec_int(
        match row.processing_ms_last {
            Some(l) => l as int,
            None => 0,
        },
    ) + " ms last"@
    &&& opt_s(v.error_display) == error_display_spec(
        match job {
            Some(j) => opt_s(j.error_message),
            None => None,
        },
        opt_s(row.last_error),
    )
    &&& v.payload_excerpt@ == truncated(row.payload@, 120)
    &&& v.payload_unmapped == row.processing_job_id.is_none()
}

/// The dashboard row for a queue row, its processing job (when found) and
/// that job's hyperlink (when found): failed rows can be selected for
/// clearing, the payload is cut at 120 characters, and rows that point to
/// no processing job are marked unmapped.
pub fn job_row_view(row: &QueueJobRow, job: Option<&ProcessingJobInfo>, link: Option<&LinkInfo>) -> (v: AdminJobRowView)
    ensures
        is_row_view(v, *row, deref_opt(job), deref_opt(link)),
{
    let processing_state = match job {
        Some(j) => Some(j.state_name.clone()),
        None => None,
    };
    let processing_kind = match job {
        Some(j) => Some(j.kind_name.clone()),
        None => None,
    };
    let processing_error: Option<&str> = match job {
        Some(j) => opt_as_str(&j.error_message),
        None => None,
    };
    let hyperlink_id = match job {
        Some(j) => Some(j.hyperlink_id),
        None => None,
    };
    let (hyperlink_title, hyperlink_url) = match (job, link) {
        (Some(_), Some(l)) => (Some(l.title.clone()), Some(l.url.clone())),
        _ => (None, None),
    };
    AdminJobRowView {
        queue_id: row.queue_id,
        queue_status: row.queue_status.clone(),
        selectable_failed: eq_lit(&chars_of(row.queue_status.as_str()), "failed"),
        processing_job_id: row.processing_job_id,
        processing_state,
        processing_kind,
        hyperlink_id,
        hyperlink_title,
        hyperlink_url,
        attempts_display: attempts_display(row.attempts, row.max_attempts),
        queued_timing_display: format_timing(row.queued_ms_total, row.queued_ms_last),
        processing_timing_display: format_timing(row.processing_ms_total, row.processing_ms_last),
        error_display: error_display(processing_error, opt_as_str(&row.last_error)),
        payload_excerpt: truncate(row.payload.as_str(), 120),
        payload_unmapped: row.processing_job_id.is_none(),
    }
}


/// What a map collected from `(key, value)` pairs holds at `key`: the
/// value of the last pair with that key.
pub open spec fn keyed_last<T>(entries: Seq<(i32, T)>, key: i32) -> Option<T>
    decreases entries.len(),
{
    if entries.len() == 0 {
        None
    } else if entries.last().0 == key {
        Some(entries.last().1)
    } else {
        keyed_last(entries.drop_last(), key)
    }
}

/// The map collected from `(key, value)` pairs, the values by reference:
/// it holds each key of the pairs, at the value of its last pair.
fn index_by_key<'a, T>(entries: &'a Vec<(i32, T)>) -> (m: HashMap<i32, &'a T>)
    ensures
        forall|key: i32|
            #![trigger m@.contains_key(key)]
            deref_opt(if m@.contains_key(key) { Some(m@[key]) } else { None }) == keyed_last(entries@, key),
{
    let mut m: HashMap<i32, &'a T> = HashMap::new();
    let mut i: usize = 0;
    while i < entries.len()
        invariant
            i <= entries.len(),
            forall|key: i32|
                #![trigger m@.contains_key(key)]
                deref_opt(if m@.contains_key(key) { Some(m@[key]) } else { None }) == keyed_last(
                    entries@.take(i as int),
                    key,
                ),
        decreases entries.len() - i,
    {
        let ghost before = m@;
        assert forall|key: i32| keyed_last(entries@.take(i + 1), key) == (if entries@[i as int].0 == key {
            Some(entries@[i as int].1)
        } else {
            keyed_last(entries@.take(i as int), key)
        }) by {
            assert(entries@.take(i + 1).drop_last() =~= entries@.take(i as int));
        }
        m.insert(entries[i].0, &entries[i].1);
        assert forall|key: i32|
            #![trigger m@.contains_key(key)]
            deref_opt(if m@.contains_key(key) { Some(m@[key]) } else { None }) == keyed_last(
                entries@.take(i + 1),
                key,
            ) by {
            if key != entries@[i as int].0 {
                assert(before.contains_key(key) == m@.contains_key(key));
            }
        }
        i += 1;
    }
    assert(entries@.take(i as int) =~= entries@);
    m
}

/// The value a map of references holds at `key`.
fn lookup<'a, 'b, T>(m: &'b HashMap<i32, &'a T>, key: i32) -> (r: Option<&'a T>)
    ensures
        deref_opt(r) == deref_opt(if m@.contains_key(key) { Some(m@[key]) } else { None }),
{
    match m.get(&key) {
        Some(v) => Some(*v),
        None => None,
    }
}

/// The processing job a queue row points to, looked up by its id.
pub open spec fn row_job(row: QueueJobRow, jobs: Seq<(i32, ProcessingJobInfo)>) -> Option<ProcessingJobInfo> {
    match row.processing_job_id {
        Some(id) => keyed_last(jobs, id),
        None => None,
    }
}

/// The hyperlink of a processing job, looked up by the job's hyperlink id.
pub open spec fn job_link(job: Option<ProcessingJobInfo>, links: Seq<(i32, LinkInfo)>) -> Option<LinkInfo> {
    match job {
        Some(j) => keyed_last(links, j.hyperlink_id),
        None => None,
    }
}

/// The dashboard rows, one per queue row in order, each with the
/// processing job found under its id in `jobs` and that job's hyperlink
/// found under its hyperlink id in `links` (pairs of id and value; where
/// an id occurs twice the later pair counts).
pub fn job_row_views(
    rows: &Vec<QueueJobRow>,
    jobs: &Vec<(i32, ProcessingJobInfo)>,
    links: &Vec<(i32, LinkInfo)>,
) -> (r: Vec<AdminJobRowView>)
    ensures
        r.len() == rows.len(),
        forall|i: int|
            0 <= i < rows.len() ==> is_row_view(
                #[trigger] r@[i],
                rows@[i],
                row_job(rows@[i], jobs@),
                job_link(row_job(rows@[i], jobs@), links@),
            ),
{
    let jobs_by_id = index_by_key(jobs);
    let links_by_id = index_by_key(links);
    let mut r: Vec<AdminJobRowView> = Vec::new();
    let mut i: usize = 0;
    while i < rows.len()
        invariant
            i <= rows.len(),
            r.len() == i,
            forall|key: i32|
                #![trigger jobs_by_id@.contains_key(key)]
                deref_opt(if jobs_by_id@.contains_key(key) { Some(jobs_by_id@[key]) } else { None })
                    == keyed_last(jobs@, key),
            forall|key: i32|
                #![trigger links_by_id@.contains_key(key)]
                deref_opt(if links_by_id@.contains_key(key) { Some(links_by_id@[key]) } else { None })
                    == keyed_last(links@, key),
            forall|k: int|
                0 <= k < i ==> is_row_view(
                    #[trigger] r@[k],
                    rows@[k],
                    row_job(rows@[k], jobs@),
                    job_link(row_job(rows@[k], jobs@), links@),
                ),
        decreases rows.len() - i,
    {
        let row = &rows[i];
        let job = match row.processing_job_id {
            Some(id) => lookup(&jobs_by_id, id),
            None => None,
        };
        let link = match job {
            Some(j) => lookup(&links_by_id, j.hyperlink_id),
            None => None,
        };
        let v = job_row_view(row, job, link);
        r.push(v);
        i += 1;
    }
    r
}

// ---------------------------------------------------------------------------
// Clearing failed rows and recovering orphans
// ---------------------------------------------------------------------------

/// The flash when the clear form selected no row.
pub const NO_FAILED_SELECTED_MESSAGE: &'static str = "No failed queue rows selected.";

/// The flash after clearing selected failed rows.
pub fn clear_selected_message(cleared: u64, selected: usize) -> (r: String)
    ensures
        r@ == "Cleared "@ + dec_nat(cleared as nat) + " failed queue row(s) out of "@ + dec_nat(
            selected as nat,
        ) + " selected."@,
{
    let mut out = chars_of("Cleared ");
    append_all(&mut out, &chars_of(format_u64(cleared).as_str()));
    append_all(&mut out, &chars_of(" failed queue row(s) out of "));
    append_all(&mut out, &chars_of(format_u64(selected as u64).as_str()));
    append_all(&mut out, &chars_of(" selected."));
    string_from_chars(&out)
}

/// The flash after clearing every failed row.
pub fn clear_all_message(cleared: u64) -> (r: String)
    ensures
        r@ == "Cleared "@ + dec_nat(cleared as nat) + " failed queue row(s)."@,
{
    let mut out = chars_of("Cleared ");
    append_all(&mut out, &chars_of(format_u64(cleared).as_str()));
    append_all(&mut out, &chars_of(" failed queue row(s)."));
    string_from_chars(&out)
}

/// The error a recovered orphan is marked failed with: its own error where
/// it has a non-blank one, else a note that recovery failed it.
pub open spec fn orphan_message_spec(existing: Option<Seq<char>>) -> Seq<char> {
    match existing {
        Some(e) => if trim(e).len() > 0 {
            e
        } else {
            "marked failed by admin recover-orphans: orphaned running job"@
        },
        None => "marked failed by admin recover-orphans: orphaned running job"@,
    }
}

/// The error a recovered orphan job is marked failed with.
pub fn orphan_failure_message(existing: Option<&str>) -> (r: String)
    ensures
        r@ == orphan_message_spec(
            match existing {
                Some(e) => Some(e@),
                None => None,
            },
        ),
{
    if let Some(e) = existing {
        if trim_exec(&chars_of(e)).len() > 0 {
            return e.to_string();
        }
    }
    "marked failed by admin recover-orphans: orphaned running job".to_string()
}

/// The tally of a recovery: orphans found, marked failed, queued again,
/// and those whose new job could not be queued.
#[derive(Clone, Copy, Debug, PartialEq, Eq, Structural)]
pub struct OrphanRecoverySummary {
    pub found: usize,
    pub marked_failed: usize,
    pub requeued: usize,
    pub requeue_errors: usize,
}

impl OrphanRecoverySummary {
    /// Nothing recovered yet.
    pub fn new() -> (s: Self)
        ensures
            s == (OrphanRecoverySummary { found: 0, marked_failed: 0, requeued: 0, requeue_errors: 0 }),
    {
        OrphanRecoverySummary { found: 0, marked_failed: 0, requeued: 0, requeue_errors: 0 }
    }

    /// Counts an orphan that was marked failed, and whether its job was
    /// queued again.
    pub fn record_recovered(&mut self, requeued: bool)
        requires
            old(self).found < usize::MAX,
            old(self).marked_failed < usize::MAX,
            old(self).requeued < usize::MAX,
            old(self).requeue_errors < usize::MAX,
        ensures
            final(self).found == old(self).found + 1,
            final(self).marked_failed == old(self).marked_failed + 1,
            final(self).requeued == old(self).requeued + (if requeued { 1int } else { 0int }),
            final(self).requeue_errors == old(self).requeue_errors + (if requeued { 0int } else { 1int }),
    {
        self.found = self.found + 1;
        self.marked_failed = self.marked_failed + 1;
        if requeued {
            self.requeued = self.requeued + 1;
        } else {
            self.requeue_errors = self.requeue_errors + 1;
        }
    }

    /// The flash after a recovery.
    pub fn message(&self) -> (r: String)
        ensures
            r@ == "Recovered orphans: found="@ + dec_nat(self.found as nat) + ", marked_failed="@
                + dec_nat(self.marked_failed as nat) + ", requeued="@ + dec_nat(self.requeued as nat)
                + ", requeue_errors="@ + dec_nat(self.requeue_errors as nat),
    {
        let mut out = chars_of("Recovered orphans: found=");
        append_all(&mut out, &chars_of(format_u64(self.found as u64).as_str()));
        append_all(&mut out, &chars_of(", marked_failed="));
        append_all(&mut out, &chars_of(format_u64(self.marked_failed as u64).as_str()));
        append_all(&mut out, &chars_of(", requeued="));
        append_all(&mut out, &chars_of(format_u64(self.requeued as u64).as_str()));
        append_all(&mut out, &chars_of(", requeue_errors="));
        append_all(&mut out, &chars_of(format_u64(self.requeue_errors as u64).as_str()));
        string_from_chars(&out)
    }
}


/// The statement that clears selected failed rows, up to its id list.
pub const CLEAR_FAILED_BY_IDS_PREFIX: &'static str = "UPDATE jobs\n         SET status = ?,\n             updated_at = ?,\n             last_finished_at = COALESCE(last_finished_at, ?)\n         WHERE job_type = ?\n           AND status = 'failed'\n           AND id IN (";

/// `n` placeholders separated by commas.
pub open spec fn placeholders(n: nat) -> Seq<char>
    decreases n,
{
    if n == 0 {
        Seq::empty()
    } else if n == 1 {
        seq!['?']
    } else {
        placeholders((n - 1) as nat) + seq![',', ' ', '?']
    }
}

/// The statement that clears `n` selected failed rows: its parameters are
/// the new status, the time twice, the job type, then the `n` row ids.
pub fn clear_failed_by_ids_sql(n: usize) -> (r: String)
    ensures
        r@ == CLEAR_FAILED_BY_IDS_PREFIX@ + placeholders(n as nat) + seq![')'],
{
    let mut out = chars_of(CLEAR_FAILED_BY_IDS_PREFIX);
    let ghost base = out@;
    let mut i: usize = 0;
    while i < n
        invariant
            i <= n,
            out@ == base + placeholders(i as nat),
        decreases n - i,
    {
        if i > 0 {
            out.push(',');
            out.push(' ');
        }
        out.push('?');
        i = i + 1;
        assert(out@ =~= base + placeholders(i as nat));
    }
    out.push(')');
    string_from_chars(&out)
}

} // verus!
