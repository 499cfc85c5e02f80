//! The hyperlink index: paging, the SQL that selects and orders a page of
//! hyperlinks for a query, the snippet shown for each hit, and the values
//! the index page shows for the query.
use vstd::prelude::*;

use crate::artifacts::{artifact_inline_path, artifact_path_spec, HyperlinkArtifactKind, HyperlinkSourceType};
use crate::forms::{encode_form_pairs, form_encoded, pairs_view};
use crate::markdown::{markdown_plain, markdown_to_plain_text};
use crate::numbers::{dec_nat, format_u64};
use crate::query::{
    contains_token, effective_order_spec, order_token_of, parse_query, query_spec_of, strings_view, ClickToken,
    OrderToken, ParsedHyperlinkQuery, ScopeSelection, ScopeToken, StatusSelection, StatusToken,
    TypeSelection, TypeToken, ClickSelection, ParseQueryOutput,
};
use crate::search::{
    build_match_snippet_html_from_text, highlight_plain_text_html, highlight_spec,
    match_snippet_spec, opt_string_view, parse_search_terms, search_terms_of, term_specs,
    SearchTerm, TermSpec,
};
use crate::text::{
    append_all, chars_of, collapse_whitespace, collapse_ws, contains_seq, join, join_exec, string_from_chars,
    trim, trim_exec, views,
};

verus! {

// ---------------------------------------------------------------------------
// Paging
// ---------------------------------------------------------------------------

/// Hyperlinks per index page.
pub const INDEX_PER_PAGE: u64 = 100;

/// The requested page, 1 when absent or 0.
pub fn resolve_page(page: Option<u64>) -> (r: u64)
    ensures
        r == (match page {
            Some(p) => if p < 1 {
                1
            } else {
                p as int
            },
            None => 1,
        }),
{
    match page {
        Some(p) => if p < 1 {
            1
        } else {
            p
        },
        None => 1,
    }
}

pub open spec fn ceil_div(a: int, b: int) -> int {
    if a % b == 0 {
        a / b
    } else {
        a / b + 1
    }
}

/// The number of pages for `total_rows` rows: at least 1.
pub fn total_pages(total_rows: u64, per_page: u64) -> (r: u64)
    ensures
        r == (if total_rows == 0 {
            1
        } else {
            ceil_div(total_rows as int, if per_page < 1 {
                1
            } else {
                per_page as int
            })
        }),
        r >= 1,
{
    if total_rows == 0 {
        return 1;
    }
    let per = if per_page < 1 {
        1
    } else {
        per_page
    };
    let q = total_rows / per;
    if total_rows % per == 0 {
        assert(q >= 1) by (nonlinear_arith)
            requires
                q == total_rows / per,
                total_rows >= 1,
                total_rows % per == 0,
                per >= 1,
        ;
        q
    } else {
        assert(per >= 2) by (nonlinear_arith)
            requires
                total_rows % per != 0,
                per >= 1,
        ;
        assert(q <= total_rows / 2) by (nonlinear_arith)
            requires
                q == total_rows / per,
                per >= 2,
        ;
        q + 1
    }
}

/// The number of rows before page `page`, saturating at `u64::MAX`.
pub open spec fn offset_of(page: int, per_page: int) -> int {
    let p = if page >= 1 {
        page - 1
    } else {
        0
    };
    let l = if per_page < 1 {
        1
    } else {
        per_page
    };
    if p * l > u64::MAX {
        u64::MAX as int
    } else {
        p * l
    }
}

pub fn page_offset(page: u64, per_page: u64) -> (r: u64)
    ensures
        r == offset_of(page as int, per_page as int),
{
    let p = page.saturating_sub(1);
    let l = if per_page < 1 {
        1
    } else {
        per_page
    };
    match p.checked_mul(l) {
        Some(v) => v,
        None => u64::MAX,
    }
}

/// The page shown: the requested one, but never past the last.
pub fn clamp_page(requested_page: u64, total_pages: u64) -> (r: u64)
    ensures
        r == (if requested_page <= (if total_pages < 1 { 1 } else { total_pages as int }) {
            requested_page as int
        } else {
            if total_pages < 1 { 1 } else { total_pages as int }
        }),
{
    let last = if total_pages < 1 {
        1
    } else {
        total_pages
    };
    if requested_page <= last {
        requested_page
    } else {
        last
    }
}

// ---------------------------------------------------------------------------
// The request
// ---------------------------------------------------------------------------

/// The query string of the index: the raw query and the page.
pub struct HyperlinkFetchQuery {
    pub q: Option<String>,
    pub page: Option<u64>,
}

/// What a request asks for before the database is read: the parsed query,
/// its search terms, the order and the requested page.
pub struct FetchPlan {
    pub parsed: ParseQueryOutput,
    pub search_terms: Vec<SearchTerm>,
    pub order: OrderToken,
    pub requested_page: u64,
}

impl HyperlinkFetchQuery {
    /// Parses the query, splits its free text into search terms, picks the
    /// effective order (free text ranks by relevance unless told
    /// otherwise) and resolves the page.
    pub fn plan(&self) -> (p: FetchPlan)
        ensures
            ({
                let raw = match self.q {
                    Some(q) => Some(q@),
                    None => None,
                };
                let st = query_spec_of(raw);
                let free = join(st.free, seq![' ']);
                let terms = search_terms_of(free);
                &&& p.parsed.parsed_query.agrees_with(st)
                &&& p.parsed.raw_q@ == (match self.q {
                    Some(q) => trim(q@),
                    None => Seq::empty(),
                })
                &&& strings_view(p.parsed.ignored_tokens@) == st.ignored
                &&& p.parsed.free_text@ == free
                &&& term_specs(p.search_terms@) == terms
                &&& p.order == effective_order_spec(st.orders, terms.len() > 0)
                &&& p.requested_page == (match self.page {
                    Some(n) => if n < 1 {
                        1
                    } else {
                        n as int
                    },
                    None => 1,
                })
            }),
    {
        let raw: Option<&str> = match &self.q {
            Some(q) => Some(q.as_str()),
            None => None,
        };
        let parsed = parse_query(raw);
        let search_terms = parse_search_terms(parsed.free_text.as_str());
        let order = parsed.parsed_query.effective_order(search_terms.len() > 0);
        let requested_page = resolve_page(self.page);
        FetchPlan { parsed, search_terms, order, requested_page }
    }
}

// ---------------------------------------------------------------------------
// Full-text query
// ---------------------------------------------------------------------------

/// `"` doubled, as an FTS5 string needs.
pub open spec fn double_quotes(s: Seq<char>) -> Seq<char>
    decreases s.len(),
{
    if s.len() == 0 {
        Seq::empty()
    } else {
        double_quotes(s.drop_last()) + if s.last() == '"' {
            seq!['"', '"']
        } else {
            seq![s.last()]
        }
    }
}

pub open spec fn fts_phrases(terms: Seq<TermSpec>) -> Seq<Seq<char>> {
    terms.map_values(|t: TermSpec| seq!['"'] + double_quotes(t.value) + seq!['"'])
}

/// The FTS5 query: every term as a quoted phrase, all required.
pub open spec fn fts_query_spec(terms: Seq<TermSpec>) -> Option<Seq<char>> {
    if terms.len() == 0 {
        None
    } else {
        Some(join(fts_phrases(terms), " AND "@))
    }
}

fn double_quotes_exec(s: &Vec<char>) -> (r: Vec<char>)
    ensures
        r@ == double_quotes(s@),
{
    let mut r: Vec<char> = Vec::new();
    let mut i: usize = 0;
    while i < s.len()
        invariant
            i <= s.len(),
            r@ == double_quotes(s@.take(i as int)),
        decreases s.len() - i,
    {
        assert(s@.take(i + 1).drop_last() =~= s@.take(i as int));
        let ghost before = r@;
        if s[i] == '"' {
            r.push('"');
            r.push('"');
            assert(r@ =~= before + seq!['"', '"']);
        } else {
            r.push(s[i]);
            assert(r@ =~= before + seq![s@[i as int]]);
        }
        i += 1;
    }
    assert(s@.take(i as int) =~= s@);
    r
}

pub fn build_fts_match_query(search_terms: &[SearchTerm]) -> (r: Option<String>)
    ensures
        opt_string_view(r) == fts_query_spec(term_specs(search_terms@)),
{
    if search_terms.len() == 0 {
        return None;
    }
    let ghost ts = term_specs(search_terms@);
    let mut phrases: Vec<Vec<char>> = Vec::new();
    let mut i: usize = 0;
    while i < search_terms.len()
        invariant
            i <= search_terms.len(),
            ts == term_specs(search_terms@),
            views(phrases@) == fts_phrases(ts.take(i as int)),
        decreases search_terms.len() - i,
    {
        let mut p: Vec<char> = vec!['"'];
        append_all(&mut p, &double_quotes_exec(&chars_of(search_terms[i].value.as_str())));
        p.push('"');
        let ghost before = phrases@;
        phrases.push(p);
        assert(views(phrases@) =~= views(before).push(p@));
        assert(ts.take(i + 1)[i as int] == search_terms@[i as int].spec());
        assert(fts_phrases(ts.take(i + 1))[i as int] == p@);
        assert(fts_phrases(ts.take(i + 1)) =~= fts_phrases(ts.take(i as int)).push(p@));
        i += 1;
    }
    assert(ts.take(i as int) =~= ts);
    Some(string_from_chars(&join_exec(&phrases, &chars_of(" AND "))))
}

// ---------------------------------------------------------------------------
// Title and URL fallback
// ---------------------------------------------------------------------------

/// `\`, `%` and `_` escaped with `\` for a `LIKE` pattern.
pub open spec fn escape_like_spec(s: Seq<char>) -> Seq<char>
    decreases s.len(),
{
    if s.len() == 0 {
        Seq::empty()
    } else {
        let c = s.last();
        escape_like_spec(s.drop_last()) + if c == '\\' {
            seq!['\\', '\\']
        } else if c == '%' {
            seq!['\\', '%']
        } else if c == '_' {
            seq!['\\', '_']
        } else {
            seq![c]
        }
    }
}

pub fn escape_like(value: &str) -> (r: String)
    ensures
        r@ == escape_like_spec(value@),
{
    let s = chars_of(value);
    let mut r: Vec<char> = Vec::new();
    let mut i: usize = 0;
    while i < s.len()
        invariant
            i <= s.len(),
            r@ == escape_like_spec(s@.take(i as int)),
        decreases s.len() - i,
    {
        assert(s@.take(i + 1).drop_last() =~= s@.take(i as int));
        let c = s[i];
        let ghost before = r@;
        if c == '\\' || c == '%' || c == '_' {
            r.push('\\');
            r.push(c);
            assert(r@ =~= before + seq!['\\', c]);
        } else {
            r.push(c);
            assert(r@ =~= before + seq![c]);
        }
        i += 1;
    }
    assert(s@.take(i as int) =~= s@);
    string_from_chars(&r)
}

/// The condition that `column` holds `value` as a whole word, and the four
/// values it binds: equal, in the middle, at the start, at the end.
pub open spec fn exact_word_sql(column: Seq<char>, value: Seq<char>) -> (Seq<char>, Seq<Seq<char>>) {
    (
        column + " = ? OR "@ + column + " GLOB ? OR "@ + column + " GLOB ? OR "@ + column
            + " GLOB ?"@,
        seq![
            value,
            "*[^0-9a-z]"@ + value + "[^0-9a-z]*"@,
            value + "[^0-9a-z]*"@,
            "*[^0-9a-z]"@ + value,
        ],
    )
}

pub open spec fn strs(v: Seq<String>) -> Seq<Seq<char>> {
    v.map_values(|s: String| s@)
}

fn cat(parts: &Vec<&str>) -> (r: Vec<char>)
    ensures
        r@ == cat_spec(parts@.map_values(|p: &str| p@)),
{
    let ghost pv = parts@.map_values(|p: &str| p@);
    let mut r: Vec<char> = Vec::new();
    let mut i: usize = 0;
    while i < parts.len()
        invariant
            i <= parts.len(),
            pv == parts@.map_values(|p: &str| p@),
            r@ == cat_spec(pv.take(i as int)),
        decreases parts.len() - i,
    {
        assert(pv.take(i + 1).drop_last() =~= pv.take(i as int));
        append_all(&mut r, &chars_of(parts[i]));
        i += 1;
    }
    assert(pv.take(i as int) =~= pv);
    r
}

/// The concatenation of `parts`.
pub open spec fn cat_spec(parts: Seq<Seq<char>>) -> Seq<char>
    decreases parts.len(),
{
    if parts.len() == 0 {
        Seq::empty()
    } else {
        cat_spec(parts.drop_last()) + parts.last()
    }
}

pub fn build_exact_word_match_sql(column_sql: &str, value: &str, values: &mut Vec<String>) -> (r: String)
    ensures
        r@ == exact_word_sql(column_sql@, value@).0,
        strs(final(values)@) == strs(old(values)@) + exact_word_sql(column_sql@, value@).1,
{
    let around = cat(&vec!["*[^0-9a-z]", value, "[^0-9a-z]*"]);
    let prefix = cat(&vec![value, "[^0-9a-z]*"]);
    let suffix = cat(&vec!["*[^0-9a-z]", value]);
    let ghost before = values@;
    values.push(value.to_string());
    values.push(string_from_chars(&around));
    values.push(string_from_chars(&prefix));
    values.push(string_from_chars(&suffix));
    assert(strs(values@) =~= strs(before) + exact_word_sql(column_sql@, value@).1) by {
        reveal_with_fuel(cat_spec, 4);
    }
    let sql = cat(
        &vec![column_sql, " = ? OR ", column_sql, " GLOB ? OR ", column_sql, " GLOB ? OR ", column_sql, " GLOB ?"],
    );
    proof {
        reveal_with_fuel(cat_spec, 9);
    }
    string_from_chars(&sql)
}

/// The fuzzy-term condition: title or URL contains the term.
pub const FUZZY_TERM_SQL: &'static str = "(lower(h.title) LIKE ? ESCAPE '\\' OR lower(h.url) LIKE ? ESCAPE '\\')";

/// The conditions and bound values for each term: an exact term must be a
/// whole word of the title or the URL, a fuzzy term a substring of either.
pub open spec fn term_fallbacks(terms: Seq<TermSpec>) -> (Seq<Seq<char>>, Seq<Seq<char>>)
    decreases terms.len(),
{
    if terms.len() == 0 {
        (Seq::empty(), Seq::empty())
    } else {
        let (sqls, vals) = term_fallbacks(terms.drop_last());
        let t = terms.last();
        if t.exact {
            let (title_sql, title_vals) = exact_word_sql("lower(h.title)"@, t.value);
            let (url_sql, url_vals) = exact_word_sql("lower(h.url)"@, t.value);
            (
                sqls.push("(("@ + title_sql + ") OR ("@ + url_sql + "))"@),
                vals + title_vals + url_vals,
            )
        } else {
            let pattern = "%"@ + escape_like_spec(t.value) + "%"@;
            (sqls.push(FUZZY_TERM_SQL@), vals + seq![pattern, pattern])
        }
    }
}

/// The title-and-URL condition for hyperlinks without readable text: all
/// terms must match; with no terms, always true.
pub open spec fn fallback_sql_spec(terms: Seq<TermSpec>) -> Seq<char> {
    if terms.len() == 0 {
        "1 = 1"@
    } else {
        join(term_fallbacks(terms).0, " AND "@)
    }
}

pub fn build_title_url_fallback_sql(search_terms: &[SearchTerm], values: &mut Vec<String>) -> (r: String)
    ensures
        r@ == fallback_sql_spec(term_specs(search_terms@)),
        strs(final(values)@) == strs(old(values)@) + term_fallbacks(term_specs(search_terms@)).1,
{
    let ghost ts = term_specs(search_terms@);
    if search_terms.len() == 0 {
        assert(term_fallbacks(ts).1 =~= Seq::<Seq<char>>::empty());
        assert(strs(values@) =~= strs(old(values)@) + term_fallbacks(ts).1);
        return "1 = 1".to_string();
    }
    let mut term_sql: Vec<Vec<char>> = Vec::new();
    let mut i: usize = 0;
    assert(strs(values@) =~= strs(old(values)@) + term_fallbacks(ts.take(0)).1);
    while i < search_terms.len()
        invariant
            i <= search_terms.len(),
            ts == term_specs(search_terms@),
            views(term_sql@) == term_fallbacks(ts.take(i as int)).0,
            strs(values@) == strs(old(values)@) + term_fallbacks(ts.take(i as int)).1,
        decreases search_terms.len() - i,
    {
        assert(ts.take(i + 1).drop_last() =~= ts.take(i as int));
        assert(ts.take(i + 1).last() == search_terms@[i as int].spec());
        let term = &search_terms[i];
        let ghost sql_before = term_sql@;
        let ghost vals_before = values@;
        if term.exact {
            let title_sql = build_exact_word_match_sql("lower(h.title)", term.value.as_str(), values);
            let url_sql = build_exact_word_match_sql("lower(h.url)", term.value.as_str(), values);
            let s = cat(&vec!["((", title_sql.as_str(), ") OR (", url_sql.as_str(), "))"]);
            proof {
                reveal_with_fuel(cat_spec, 6);
            }
            term_sql.push(s);
            assert(views(term_sql@) =~= views(sql_before).push(s@));
        } else {
            let pattern = cat(&vec!["%", escape_like(term.value.as_str()).as_str(), "%"]);
            proof {
                reveal_with_fuel(cat_spec, 4);
            }
            values.push(string_from_chars(&pattern));
            values.push(string_from_chars(&pattern));
            assert(strs(values@) =~= strs(vals_before) + seq![pattern@, pattern@]);
            term_sql.push(chars_of(FUZZY_TERM_SQL));
            assert(views(term_sql@) =~= views(sql_before).push(FUZZY_TERM_SQL@));
        }
        i += 1;
    }
    assert(ts.take(i as int) =~= ts);
    string_from_chars(&join_exec(&term_sql, &chars_of(" AND ")))
}


// ---------------------------------------------------------------------------
// The page query
// ---------------------------------------------------------------------------

/// The `discovery_depth` of a hyperlink saved directly (not discovered
/// from another one).
pub const ROOT_DISCOVERY_DEPTH: i32 = 0;

/// The full-text matches, ranked, for queries with free text.
pub const FTS_WITH_CLAUSE: &'static str = "\n        WITH fts_matches AS (\n            SELECT rowid AS hyperlink_id, bm25(hyperlink_search_fts) AS score\n            FROM hyperlink_search_fts\n            WHERE hyperlink_search_fts MATCH ?\n        )\n        ";

/// The latest processing job of each hyperlink, for status filters.
pub const LATEST_JOB_JOIN: &'static str = "\n            LEFT JOIN hyperlink_processing_job lpj\n                ON lpj.id = (\n                    SELECT j.id\n                    FROM hyperlink_processing_job j\n                    WHERE j.hyperlink_id = h.id\n                    ORDER BY j.created_at DESC, j.id DESC\n                    LIMIT 1\n                )\n            ";

pub const FTS_JOIN: &'static str = "LEFT JOIN fts_matches fts ON fts.hyperlink_id = h.id";

pub const SEARCH_DOC_JOIN: &'static str = "LEFT JOIN hyperlink_search_doc sd ON sd.hyperlink_id = h.id";

/// A URL that names a PDF.
pub const IS_PDF_EXPR: &'static str = "(lower(h.url) LIKE '%.pdf' OR lower(h.url) LIKE '%.pdf?%' OR lower(h.url) LIKE '%.pdf#%')";

/// A latest job that is queued or running and still has a live queue row.
pub const PROCESSING_STATUS_SQL: &'static str = "((lpj.state = 'queued' OR lpj.state = 'running')\n                      AND EXISTS (\n                          SELECT 1\n                          FROM jobs queue_job\n                          WHERE queue_job.job_type = ?\n                            AND queue_job.status IN ('queued', 'processing')\n                            AND json_valid(queue_job.payload)\n                            AND CAST(json_extract(queue_job.payload, '$.processing_job_id') AS INTEGER) = lpj.id\n                      ))";

/// The pieces of the page query: the `WITH` clause, the joins, the `WHERE`
/// condition, the `ORDER BY` list, and the values bound to its `?`s in
/// order.
pub struct HyperlinkSqlParts {
    pub with_clause: String,
    pub joins_sql: String,
    pub where_sql: String,
    pub order_sql: String,
    pub values: Vec<String>,
}

/// The status conditions, OR-ed: no job yet; processing (only with a live
/// queue row, so never without the queue table); failed; succeeded.
pub open spec fn status_terms(statuses: Seq<StatusToken>, queue_available: bool) -> Seq<Seq<char>> {
    (if statuses.contains(StatusToken::Idle) { seq!["lpj.id IS NULL"@] } else { seq![] })
    + (if statuses.contains(StatusToken::Processing) {
        if queue_available { seq![PROCESSING_STATUS_SQL@] } else { seq!["0 = 1"@] }
    } else { seq![] })
    + (if statuses.contains(StatusToken::Failed) { seq!["lpj.state = 'failed'"@] } else { seq![] })
    + (if statuses.contains(StatusToken::Succeeded) { seq!["lpj.state = 'succeeded'"@] } else { seq![] })
}

pub open spec fn status_filtered(statuses: Seq<StatusToken>) -> bool {
    !(statuses.len() == 0 || statuses.contains(StatusToken::All))
}

pub open spec fn search_filter(terms: Seq<TermSpec>) -> Seq<Seq<char>> {
    if terms.len() > 0 {
        seq!["(fts.hyperlink_id IS NOT NULL OR (COALESCE(TRIM(sd.readable_text), '') = '' AND "@ + fallback_sql_spec(terms) + "))"@]
    } else {
        seq![]
    }
}

pub open spec fn scope_filter(q: ParsedHyperlinkQuery) -> Seq<Seq<char>> {
    match crate::query::effective_scope_spec(q.scopes@) {
        ScopeSelection::RootOnly => seq!["h.discovery_depth = 0"@],
        ScopeSelection::DiscoveredOnly => seq!["h.discovery_depth <> 0"@],
        ScopeSelection::All => seq![],
    }
}

pub open spec fn type_filter(q: ParsedHyperlinkQuery) -> Seq<Seq<char>> {
    match crate::query::effective_type_spec(q.types@) {
        TypeSelection::All => seq![],
        TypeSelection::PdfOnly => seq![IS_PDF_EXPR@],
        TypeSelection::NonPdfOnly => seq!["NOT "@ + IS_PDF_EXPR@],
    }
}

pub open spec fn click_filter(q: ParsedHyperlinkQuery) -> Seq<Seq<char>> {
    if q.clicks@.contains(ClickToken::Unclicked) {
        seq!["h.clicks_count = 0"@]
    } else {
        seq![]
    }
}

pub open spec fn status_filter(q: ParsedHyperlinkQuery, queue_available: bool) -> Seq<Seq<char>> {
    if status_filtered(q.statuses@) && status_terms(q.statuses@, queue_available).len() > 0 {
        seq!["("@ + join(status_terms(q.statuses@, queue_available), " OR "@) + ")"@]
    } else {
        seq![]
    }
}

/// The `WHERE` conditions, in order: the search, the scope, the type, the
/// clicks, the statuses.
pub open spec fn filters_spec(q: ParsedHyperlinkQuery, terms: Seq<TermSpec>, queue_available: bool) -> Seq<Seq<char>> {
    search_filter(terms) + scope_filter(q) + type_filter(q) + click_filter(q) + status_filter(q, queue_available)
}

/// The `WHERE` text: the conditions joined by ` AND `, or `1 = 1` when
/// there are none.
pub open spec fn where_sql_spec(q: ParsedHyperlinkQuery, terms: Seq<TermSpec>, queue_available: bool) -> Seq<char> {
    if filters_spec(q, terms, queue_available).len() == 0 {
        "1 = 1"@
    } else {
        join(filters_spec(q, terms, queue_available), " AND "@)
    }
}

/// `ks_at(s, i)`: the letters `ks` stand at index `i` of `s`.
pub open spec fn ks_at(s: Seq<char>, i: int) -> bool {
    s[i] == 'k' && s[i + 1] == 's'
}

/// A text in which the letters `ks` never stand side by side, that starts
/// with no `s` and ends with no `k`: a concatenation of such texts is one
/// too, and none holds `h.clicks_count = 0`.
pub open spec fn clean_sql(s: Seq<char>) -> bool {
    &&& forall|i: int| 0 <= i && i + 1 < s.len() ==> !#[trigger] ks_at(s, i)
    &&& s.len() > 0 ==> s[0] != 's' && s[s.len() - 1] != 'k'
}

/// No `ks` from index `i` on, checked one index at a time.
pub open spec fn free_from(s: Seq<char>, i: int) -> bool
    decreases s.len() - i,
{
    if i < 0 || i + 1 >= s.len() {
        true
    } else {
        !ks_at(s, i) && free_from(s, i + 1)
    }
}

proof fn lemma_free_from(s: Seq<char>, i: int)
    requires
        0 <= i,
        free_from(s, i),
    ensures
        forall|j: int| i <= j && j + 1 < s.len() ==> !#[trigger] ks_at(s, j),
    decreases s.len() - i,
{
    if i + 1 < s.len() {
        lemma_free_from(s, i + 1);
    }
}

proof fn lemma_clean_of(s: Seq<char>)
    requires
        free_from(s, 0),
        s.len() > 0 ==> s[0] != 's' && s[s.len() - 1] != 'k',
    ensures
        clean_sql(s),
{
    lemma_free_from(s, 0);
}

proof fn lemma_clean_add(a: Seq<char>, b: Seq<char>)
    requires
        clean_sql(a),
        clean_sql(b),
    ensures
        clean_sql(a + b),
{
    let c = a + b;
    assert forall|i: int| 0 <= i && i + 1 < c.len() implies !#[trigger] ks_at(c, i) by {
        if i + 1 < a.len() {
            assert(ks_at(c, i) == ks_at(a, i));
        } else if i >= a.len() {
            assert(ks_at(c, i) == ks_at(b, i - a.len()));
        } else {
            assert(c[i] == a[a.len() - 1]);
            assert(c[i + 1] == b[0]);
        }
    }
}

proof fn lemma_clean_join(parts: Seq<Seq<char>>, sep: Seq<char>)
    requires
        forall|k: int| 0 <= k < parts.len() ==> clean_sql(#[trigger] parts[k]),
        clean_sql(sep),
    ensures
        clean_sql(join(parts, sep)),
    decreases parts.len(),
{
    if parts.len() == 0 {
    } else if parts.len() == 1 {
        assert(clean_sql(parts[0]));
    } else {
        lemma_clean_join(parts.drop_last(), sep);
        assert(clean_sql(parts[parts.len() - 1]));
        lemma_clean_add(join(parts.drop_last(), sep), sep);
        lemma_clean_add(join(parts.drop_last(), sep) + sep, parts.last());
    }
}

proof fn lemma_clean_excludes_unclicked(s: Seq<char>)
    requires
        clean_sql(s),
    ensures
        !contains_seq(s, "h.clicks_count = 0"@),
{
    let lit = "h.clicks_count = 0"@;
    reveal_strlit("h.clicks_count = 0");
    crate::text::lemma_find_from_props(s, lit, 0);
    if let Some(i) = crate::text::find_from(s, lit, 0) {
        assert(s.subrange(i, i + lit.len())[6] == lit[6]);
        assert(s.subrange(i, i + lit.len())[7] == lit[7]);
        assert(ks_at(s, i + 6));
    }
}

/// Every fixed piece of the page query's `WHERE` text is clean.
#[verifier::rlimit(50)]
proof fn lemma_where_pieces_clean()
    ensures
        clean_sql("(fts.hyperlink_id IS NOT NULL OR (COALESCE(TRIM(sd.readable_text), '') = '' AND "@),
        clean_sql("))"@),
        clean_sql("1 = 1"@),
        clean_sql(" AND "@),
        clean_sql("(("@),
        clean_sql(") OR ("@),
        clean_sql("lower(h.title)"@),
        clean_sql("lower(h.url)"@),
        clean_sql(" = ? OR "@),
        clean_sql(" GLOB ? OR "@),
        clean_sql(" GLOB ?"@),
        clean_sql(FUZZY_TERM_SQL@),
        clean_sql("h.discovery_depth = 0"@),
        clean_sql("h.discovery_depth <> 0"@),
        clean_sql(IS_PDF_EXPR@),
        clean_sql("NOT "@),
        clean_sql("("@),
        clean_sql(")"@),
        clean_sql(" OR "@),
        clean_sql("lpj.id IS NULL"@),
        clean_sql(PROCESSING_STATUS_SQL@),
        clean_sql("0 = 1"@),
        clean_sql("lpj.state = 'failed'"@),
        clean_sql("lpj.state = 'succeeded'"@),
{
    reveal_with_fuel(free_from, 60);
    assert(clean_sql("(fts.hyperlink_id IS NOT NULL OR (COALESCE(TRIM(sd.readable_text), '') = '' AND "@)) by {
        reveal_strlit("(fts.hyperlink_id IS NOT NULL OR (COALESCE(TRIM(sd.readable_text), '') = '' AND ");
        let s = "(fts.hyperlink_id IS NOT NULL OR (COALESCE(TRIM(sd.readable_text), '') = '' AND "@;
        assert(free_from(s, 50));
        lemma_clean_of(s);
    }
    assert(clean_sql("))"@)) by {
        reveal_strlit("))");
        let s = "))"@;
        lemma_clean_of(s);
    }
    assert(clean_sql("1 = 1"@)) by {
        reveal_strlit("1 = 1");
        let s = "1 = 1"@;
        lemma_clean_of(s);
    }
    assert(clean_sql(" AND "@)) by {
        reveal_strlit(" AND ");
        let s = " AND "@;
        lemma_clean_of(s);
    }
    assert(clean_sql("(("@)) by {
        reveal_strlit("((");
        let s = "(("@;
        lemma_clean_of(s);
    }
    assert(clean_sql(") OR ("@)) by {
        reveal_strlit(") OR (");
        let s = ") OR ("@;
        lemma_clean_of(s);
    }
    assert(clean_sql("lower(h.title)"@)) by {
        reveal_strlit("lower(h.title)");
        let s = "lower(h.title)"@;
        lemma_clean_of(s);
    }
    assert(clean_sql("lower(h.url)"@)) by {
        reveal_strlit("lower(h.url)");
        let s = "lower(h.url)"@;
        lemma_clean_of(s);
    }
    assert(clean_sql(" = ? OR "@)) by {
        reveal_strlit(" = ? OR ");
        let s = " = ? OR "@;
        lemma_clean_of(s);
    }
    assert(clean_sql(" GLOB ? OR "@)) by {
        reveal_strlit(" GLOB ? OR ");
        let s = " GLOB ? OR "@;
        lemma_clean_of(s);
    }
    assert(clean_sql(" GLOB ?"@)) by {
        reveal_strlit(" GLOB ?");
        let s = " GLOB ?"@;
        lemma_clean_of(s);
    }
    assert(clean_sql("(lower(h.title) LIKE ? ESCAPE '\\' OR lower(h.url) LIKE ? ESCAPE '\\')"@)) by {
        reveal_strlit("(lower(h.title) LIKE ? ESCAPE '\\' OR lower(h.url) LIKE ? ESCAPE '\\')");
        let s = "(lower(h.title) LIKE ? ESCAPE '\\' OR lower(h.url) LIKE ? ESCAPE '\\')"@;
        assert(free_from(s, 50));
        lemma_clean_of(s);
    }
    assert(clean_sql("h.discovery_depth = 0"@)) by {
        reveal_strlit("h.discovery_depth = 0");
        let s = "h.discovery_depth = 0"@;
        lemma_clean_of(s);
    }
    assert(clean_sql("h.discovery_depth <> 0"@)) by {
        reveal_strlit("h.discovery_depth <> 0");
        let s = "h.discovery_depth <> 0"@;
        lemma_clean_of(s);
    }
    assert(clean_sql("(lower(h.url) LIKE '%.pdf' OR lower(h.url) LIKE '%.pdf?%' OR lower(h.url) LIKE '%.pdf#%')"@)) by {
        reveal_strlit("(lower(h.url) LIKE '%.pdf' OR lower(h.url) LIKE '%.pdf?%' OR lower(h.url) LIKE '%.pdf#%')");
        let s = "(lower(h.url) LIKE '%.pdf' OR lower(h.url) LIKE '%.pdf?%' OR lower(h.url) LIKE '%.pdf#%')"@;
        assert(free_from(s, 50));
        lemma_clean_of(s);
    }
    assert(clean_sql("NOT "@)) by {
        reveal_strlit("NOT ");
        let s = "NOT "@;
        lemma_clean_of(s);
    }
    assert(clean_sql("("@)) by {
        reveal_strlit("(");
        let s = "("@;
        lemma_clean_of(s);
    }
    assert(clean_sql(")"@)) by {
        reveal_strlit(")");
        let s = ")"@;
        lemma_clean_of(s);
    }
    assert(clean_sql(" OR "@)) by {
        reveal_strlit(" OR ");
        let s = " OR "@;
        lemma_clean_of(s);
    }
    assert(clean_sql("lpj.id IS NULL"@)) by {
        reveal_strlit("lpj.id IS NULL");
        let s = "lpj.id IS NULL"@;
        lemma_clean_of(s);
    }
    assert(clean_sql("((lpj.state = 'queued' OR lpj.state = 'running')\n                      AND EXISTS (\n                          SELECT 1\n                          FROM jobs queue_job\n                          WHERE queue_job.job_type = ?\n                            AND queue_job.status IN ('queued', 'processing')\n                            AND json_valid(queue_job.payload)\n                            AND CAST(json_extract(queue_job.payload, '$.processing_job_id') AS INTEGER) = lpj.id\n                      ))"@)) by {
        reveal_strlit("((lpj.state = 'queued' OR lpj.state = 'running')\n                      AND EXISTS (\n                          SELECT 1\n                          FROM jobs queue_job\n                          WHERE queue_job.job_type = ?\n                            AND queue_job.status IN ('queued', 'processing')\n                            AND json_valid(queue_job.payload)\n                            AND CAST(json_extract(queue_job.payload, '$.processing_job_id') AS INTEGER) = lpj.id\n                      ))");
        let s = "((lpj.state = 'queued' OR lpj.state = 'running')\n                      AND EXISTS (\n                          SELECT 1\n                          FROM jobs queue_job\n                          WHERE queue_job.job_type = ?\n                            AND queue_job.status IN ('queued', 'processing')\n                            AND json_valid(queue_job.payload)\n                            AND CAST(json_extract(queue_job.payload, '$.processing_job_id') AS INTEGER) = lpj.id\n                      ))"@;
        assert(free_from(s, 450));
        assert(free_from(s, 400));
        assert(free_from(s, 350));
        assert(free_from(s, 300));
        assert(free_from(s, 250));
        assert(free_from(s, 200));
        assert(free_from(s, 150));
        assert(free_from(s, 100));
        assert(free_from(s, 50));
        lemma_clean_of(s);
    }
    assert(clean_sql("0 = 1"@)) by {
        reveal_strlit("0 = 1");
        let s = "0 = 1"@;
        lemma_clean_of(s);
    }
    assert(clean_sql("lpj.state = 'failed'"@)) by {
        reveal_strlit("lpj.state = 'failed'");
        let s = "lpj.state = 'failed'"@;
        lemma_clean_of(s);
    }
    assert(clean_sql("lpj.state = 'succeeded'"@)) by {
        reveal_strlit("lpj.state = 'succeeded'");
        let s = "lpj.state = 'succeeded'"@;
        lemma_clean_of(s);
    }
}

proof fn lemma_clean_exact_word(column: Seq<char>, value: Seq<char>)
    requires
        clean_sql(column),
    ensures
        clean_sql(exact_word_sql(column, value).0),
{
    lemma_where_pieces_clean();
    let a = column + " = ? OR "@;
    lemma_clean_add(column, " = ? OR "@);
    lemma_clean_add(a, column);
    lemma_clean_add(a + column, " GLOB ? OR "@);
    let b = a + column + " GLOB ? OR "@;
    lemma_clean_add(b, column);
    lemma_clean_add(b + column, " GLOB ? OR "@);
    let c = b + column + " GLOB ? OR "@;
    lemma_clean_add(c, column);
    lemma_clean_add(c + column, " GLOB ?"@);
}

proof fn lemma_term_fallbacks_clean(terms: Seq<TermSpec>)
    ensures
        forall|k: int| 0 <= k < term_fallbacks(terms).0.len() ==> clean_sql(#[trigger] term_fallbacks(terms).0[k]),
    decreases terms.len(),
{
    if terms.len() > 0 {
        lemma_term_fallbacks_clean(terms.drop_last());
        lemma_where_pieces_clean();
        let t = terms.last();
        let prev = term_fallbacks(terms.drop_last()).0;
        let cur = term_fallbacks(terms).0;
        let item = if t.exact {
            let title_sql = exact_word_sql("lower(h.title)"@, t.value).0;
            let url_sql = exact_word_sql("lower(h.url)"@, t.value).0;
            lemma_clean_exact_word("lower(h.title)"@, t.value);
            lemma_clean_exact_word("lower(h.url)"@, t.value);
            lemma_clean_add("(("@, title_sql);
            lemma_clean_add("(("@ + title_sql, ") OR ("@);
            lemma_clean_add("(("@ + title_sql + ") OR ("@, url_sql);
            lemma_clean_add("(("@ + title_sql + ") OR ("@ + url_sql, "))"@);
            "(("@ + title_sql + ") OR ("@ + url_sql + "))"@
        } else {
            FUZZY_TERM_SQL@
        };
        assert(clean_sql(item));
        assert(cur == prev.push(item));
        assert forall|k: int| 0 <= k < cur.len() implies clean_sql(#[trigger] cur[k]) by {
            if k < prev.len() {
                assert(cur[k] == prev[k]);
            }
        }
    }
}

proof fn lemma_search_filter_clean(terms: Seq<TermSpec>)
    ensures
        forall|k: int| 0 <= k < search_filter(terms).len() ==> clean_sql(#[trigger] search_filter(terms)[k]),
{
    if terms.len() > 0 {
        lemma_where_pieces_clean();
        lemma_term_fallbacks_clean(terms);
        lemma_clean_join(term_fallbacks(terms).0, " AND "@);
        let head = "(fts.hyperlink_id IS NOT NULL OR (COALESCE(TRIM(sd.readable_text), '') = '' AND "@;
        let f = fallback_sql_spec(terms);
        lemma_clean_add(head, f);
        lemma_clean_add(head + f, "))"@);
        assert(search_filter(terms)[0] == head + f + "))"@);
    }
}

proof fn lemma_status_filter_clean(q: ParsedHyperlinkQuery, queue_available: bool)
    ensures
        forall|k: int|
            0 <= k < status_filter(q, queue_available).len() ==> clean_sql(
                #[trigger] status_filter(q, queue_available)[k],
            ),
{
    lemma_where_pieces_clean();
    let ts = status_terms(q.statuses@, queue_available);
    assert forall|k: int| 0 <= k < ts.len() implies clean_sql(#[trigger] ts[k]) by {}
    lemma_clean_join(ts, " OR "@);
    lemma_clean_add("("@, join(ts, " OR "@));
    lemma_clean_add("("@ + join(ts, " OR "@), ")"@);
}

/// Without the `unclicked` token the `WHERE` text is clean.
proof fn lemma_where_clean_without_unclicked(q: ParsedHyperlinkQuery, terms: Seq<TermSpec>, queue_available: bool)
    requires
        !q.clicks@.contains(ClickToken::Unclicked),
    ensures
        clean_sql(where_sql_spec(q, terms, queue_available)),
{
    lemma_where_pieces_clean();
    lemma_search_filter_clean(terms);
    lemma_status_filter_clean(q, queue_available);
    let f = filters_spec(q, terms, queue_available);
    let a = search_filter(terms);
    let b = scope_filter(q);
    let c = type_filter(q);
    let e = status_filter(q, queue_available);
    assert(click_filter(q).len() == 0);
    assert(f == a + b + c + e);
    lemma_clean_add("NOT "@, IS_PDF_EXPR@);
    assert forall|j: int| 0 <= j < f.len() implies clean_sql(#[trigger] f[j]) by {
        if j < a.len() {
            assert(f[j] == a[j]);
        } else if j < a.len() + b.len() {
            assert(f[j] == b[j - a.len()]);
        } else if j < a.len() + b.len() + c.len() {
            assert(f[j] == c[j - a.len() - b.len()]);
        } else {
            assert(f[j] == e[j - a.len() - b.len() - c.len()]);
        }
    }
    lemma_clean_join(f, " AND "@);
}

/// The `unclicked` click token, and nothing else, puts the condition
/// `h.clicks_count = 0` among the `WHERE` conditions, and the `WHERE` text
/// holds that condition exactly when the token is given.
pub proof fn law_unclicked_filter(q: ParsedHyperlinkQuery, terms: Seq<TermSpec>, queue_available: bool)
    ensures
        filters_spec(q, terms, queue_available).contains("h.clicks_count = 0"@)
            <==> q.clicks@.contains(ClickToken::Unclicked),
        contains_seq(where_sql_spec(q, terms, queue_available), "h.clicks_count = 0"@)
            <==> q.clicks@.contains(ClickToken::Unclicked),
{
    let lit = "h.clicks_count = 0"@;
    let f = filters_spec(q, terms, queue_available);
    let a = search_filter(terms);
    let b = scope_filter(q);
    let c = type_filter(q);
    let d = click_filter(q);
    let e = status_filter(q, queue_available);
    reveal_strlit("h.clicks_count = 0");
    reveal_strlit("h.discovery_depth = 0");
    reveal_strlit("h.discovery_depth <> 0");
    reveal_strlit("(fts.hyperlink_id IS NOT NULL OR (COALESCE(TRIM(sd.readable_text), '') = '' AND ");
    reveal_strlit("(");
    reveal_strlit("NOT ");
    reveal_strlit("(lower(h.url) LIKE '%.pdf' OR lower(h.url) LIKE '%.pdf?%' OR lower(h.url) LIKE '%.pdf#%')");
    assert(f == a + b + c + d + e);
    assert forall|j: int| 0 <= j < a.len() implies a[j] != lit by {
        assert(a[j][0] == '(');
    }
    assert forall|j: int| 0 <= j < b.len() implies b[j] != lit by {
        assert(b[j].len() != lit.len());
    }
    assert forall|j: int| 0 <= j < c.len() implies c[j] != lit by {
        assert(c[j].len() != lit.len());
    }
    assert forall|j: int| 0 <= j < e.len() implies e[j] != lit by {
        assert(e[j][0] == '(');
    }
    if q.clicks@.contains(ClickToken::Unclicked) {
        let k: int = (a.len() + b.len() + c.len()) as int;
        assert(f[k] == lit);
        assert(f.len() > 0);
        let o = crate::text::lemma_join_holds_part(f, " AND "@, k);
        crate::text::lemma_contains_at(where_sql_spec(q, terms, queue_available), lit, o);
    } else {
        lemma_where_clean_without_unclicked(q, terms, queue_available);
        lemma_clean_excludes_unclicked(where_sql_spec(q, terms, queue_available));
        assert(d.len() == 0);
        assert forall|j: int| 0 <= j < f.len() implies f[j] != lit by {
            if j < a.len() {
                assert(f[j] == a[j]);
            } else if j < a.len() + b.len() {
                assert(f[j] == b[j - a.len()]);
            } else if j < a.len() + b.len() + c.len() {
                assert(f[j] == c[j - a.len() - b.len()]);
            } else {
                assert(f[j] == e[j - a.len() - b.len() - c.len()]);
            }
        }
    }
}

fn extend_views(dst: &mut Vec<Vec<char>>, src: Vec<Vec<char>>)
    ensures
        views(final(dst)@) == views(old(dst)@) + views(src@),
{
    let mut i: usize = 0;
    let ghost start = dst@;
    while i < src.len()
        invariant
            i <= src.len(),
            views(dst@) == views(start) + views(src@).take(i as int),
        decreases src.len() - i,
    {
        let ghost before = dst@;
        dst.push(src[i].clone());
        assert(views(dst@) =~= views(before).push(src@[i as int]@));
        assert(views(src@).take(i + 1) =~= views(src@).take(i as int).push(src@[i as int]@));
        i += 1;
    }
    assert(views(src@).take(i as int) =~= views(src@));
}

fn search_filter_exec(search_terms: &[SearchTerm], values: &mut Vec<String>) -> (r: Vec<Vec<char>>)
    ensures
        views(r@) == search_filter(term_specs(search_terms@)),
        strs(final(values)@) == strs(old(values)@) + (if search_terms@.len() > 0 {
            term_fallbacks(term_specs(search_terms@)).1
        } else {
            seq![]
        }),
{
    let mut r: Vec<Vec<char>> = Vec::new();
    if search_terms.len() > 0 {
        let fallback_sql = build_title_url_fallback_sql(search_terms, values);
        let f = cat(&vec![
            "(fts.hyperlink_id IS NOT NULL OR (COALESCE(TRIM(sd.readable_text), '') = '' AND ",
            fallback_sql.as_str(),
            "))",
        ]);
        proof {
            reveal_with_fuel(cat_spec, 4);
        }
        r.push(f);
        assert(views(r@) =~= search_filter(term_specs(search_terms@)));
    } else {
        assert(strs(values@) =~= strs(old(values)@) + Seq::<Seq<char>>::empty());
        assert(views(r@) =~= search_filter(term_specs(search_terms@)));
    }
    r
}

fn scope_filter_exec(q: &ParsedHyperlinkQuery) -> (r: Vec<Vec<char>>)
    ensures
        views(r@) == scope_filter(*q),
{
    let mut r: Vec<Vec<char>> = Vec::new();
    match q.effective_scope() {
        ScopeSelection::RootOnly => {
            r.push(chars_of("h.discovery_depth = 0"));
        },
        ScopeSelection::DiscoveredOnly => {
            r.push(chars_of("h.discovery_depth <> 0"));
        },
        ScopeSelection::All => {},
    }
    assert(views(r@) =~= scope_filter(*q));
    r
}

fn type_filter_exec(q: &ParsedHyperlinkQuery) -> (r: Vec<Vec<char>>)
    ensures
        views(r@) == type_filter(*q),
{
    let mut r: Vec<Vec<char>> = Vec::new();
    match q.effective_type() {
        TypeSelection::All => {},
        TypeSelection::PdfOnly => {
            r.push(chars_of(IS_PDF_EXPR));
        },
        TypeSelection::NonPdfOnly => {
            let mut f = chars_of("NOT ");
            append_all(&mut f, &chars_of(IS_PDF_EXPR));
            r.push(f);
        },
    }
    assert(views(r@) =~= type_filter(*q));
    r
}

fn click_filter_exec(q: &ParsedHyperlinkQuery) -> (r: Vec<Vec<char>>)
    ensures
        views(r@) == click_filter(*q),
{
    let mut r: Vec<Vec<char>> = Vec::new();
    match q.effective_clicks() {
        ClickSelection::UnclickedOnly => {
            r.push(chars_of("h.clicks_count = 0"));
        },
        ClickSelection::All => {},
    }
    assert(views(r@) =~= click_filter(*q));
    r
}

fn status_filter_exec(
    q: &ParsedHyperlinkQuery,
    filtered: bool,
    queue_available: bool,
    queue_job_type: &str,
    values: &mut Vec<String>,
) -> (r: Vec<Vec<char>>)
    requires
        filtered == status_filtered(q.statuses@),
    ensures
        views(r@) == status_filter(*q, queue_available),
        strs(final(values)@) == strs(old(values)@) + (if status_filtered(q.statuses@)
            && q.statuses@.contains(StatusToken::Processing) && queue_available {
            seq![queue_job_type@]
        } else {
            seq![]
        }),
{
    let mut r: Vec<Vec<char>> = Vec::new();
    let ghost before = values@;
    if filtered {
        let statuses = &q.statuses;
        let mut terms: Vec<Vec<char>> = Vec::new();
        if contains_token(statuses, &StatusToken::Idle) {
            terms.push(chars_of("lpj.id IS NULL"));
        }
        if contains_token(statuses, &StatusToken::Processing) {
            if queue_available {
                values.push(queue_job_type.to_string());
                terms.push(chars_of(PROCESSING_STATUS_SQL));
            } else {
                terms.push(chars_of("0 = 1"));
            }
        }
        if contains_token(statuses, &StatusToken::Failed) {
            terms.push(chars_of("lpj.state = 'failed'"));
        }
        if contains_token(statuses, &StatusToken::Succeeded) {
            terms.push(chars_of("lpj.state = 'succeeded'"));
        }
        assert(views(terms@) =~= status_terms(statuses@, queue_available));
        if terms.len() > 0 {
            let mut f: Vec<char> = vec!['('];
            append_all(&mut f, &join_exec(&terms, &chars_of(" OR ")));
            f.push(')');
            proof {
                reveal_strlit("(");
                reveal_strlit(")");
            }
            assert(f@ =~= "("@ + join(status_terms(statuses@, queue_available), " OR "@) + ")"@);
            r.push(f);
        }
    }
    assert(views(r@) =~= status_filter(*q, queue_available));
    assert(strs(values@) =~= strs(before) + (if status_filtered(q.statuses@)
        && q.statuses@.contains(StatusToken::Processing) && queue_available {
        seq![queue_job_type@]
    } else {
        seq![]
    }));
    r
}

/// The `ORDER BY` list of an order; relevance ranks full-text matches
/// first (others score 1000000000) and needs free text.
pub open spec fn order_sql_spec(order: OrderToken, has_free_text: bool) -> Seq<char> {
    match order {
        OrderToken::Newest => "h.created_at DESC, h.id DESC"@,
        OrderToken::Oldest => "h.created_at ASC, h.id ASC"@,
        OrderToken::MostClicked => "h.clicks_count DESC, h.created_at DESC, h.id DESC"@,
        OrderToken::RecentlyClicked => "(h.last_clicked_at IS NULL) ASC, h.last_clicked_at DESC, h.created_at DESC, h.id DESC"@,
        OrderToken::Random => "random()"@,
        OrderToken::Relevance => if has_free_text {
            "COALESCE(fts.score, 1000000000) ASC, h.created_at DESC, h.id DESC"@
        } else {
            "h.created_at DESC, h.id DESC"@
        },
    }
}

/// One `ORDER BY` key: an expression and whether larger values come first.
pub open spec fn sort_key(key: (Seq<char>, bool)) -> Seq<char> {
    key.0 + if key.1 {
        " DESC"@
    } else {
        " ASC"@
    }
}

/// An `ORDER BY` list of keys, most significant first.
pub open spec fn sort_keys(keys: Seq<(Seq<char>, bool)>) -> Seq<char> {
    join(keys.map_values(|k: (Seq<char>, bool)| sort_key(k)), ", "@)
}

/// Creation time, then id, both newest first (`desc`) or both oldest first.
pub open spec fn recency_keys(desc: bool) -> Seq<(Seq<char>, bool)> {
    seq![("h.created_at"@, desc), ("h.id"@, desc)]
}

/// What each order sorts by: newest lists the latest created first;
/// oldest is exactly its reverse; most clicked lists more clicks first;
/// recently clicked lists clicked links before never-clicked ones and the
/// latest click first; relevance, with free text, lists the best (lowest)
/// full-text score first and otherwise is newest; each breaks ties newest
/// first.
pub proof fn law_order_sort_keys(has_free_text: bool)
    ensures
        order_sql_spec(OrderToken::Newest, has_free_text) == sort_keys(recency_keys(true)),
        order_sql_spec(OrderToken::Oldest, has_free_text) == sort_keys(recency_keys(false)),
        order_sql_spec(OrderToken::MostClicked, has_free_text) == sort_keys(
            seq![("h.clicks_count"@, true)] + recency_keys(true),
        ),
        order_sql_spec(OrderToken::RecentlyClicked, has_free_text) == sort_keys(
            seq![("(h.last_clicked_at IS NULL)"@, false), ("h.last_clicked_at"@, true)] + recency_keys(true),
        ),
        order_sql_spec(OrderToken::Relevance, has_free_text) == sort_keys(
            if has_free_text {
                seq![("COALESCE(fts.score, 1000000000)"@, false)] + recency_keys(true)
            } else {
                recency_keys(true)
            },
        ),
{
    reveal_with_fuel(join, 5);
    reveal_strlit(" DESC");
    reveal_strlit(" ASC");
    reveal_strlit(", ");
    reveal_strlit("h.created_at");
    reveal_strlit("h.id");
    reveal_strlit("h.clicks_count");
    reveal_strlit("(h.last_clicked_at IS NULL)");
    reveal_strlit("h.last_clicked_at");
    reveal_strlit("COALESCE(fts.score, 1000000000)");
    reveal_strlit("h.created_at DESC, h.id DESC");
    reveal_strlit("h.created_at ASC, h.id ASC");
    reveal_strlit("h.clicks_count DESC, h.created_at DESC, h.id DESC");
    reveal_strlit("(h.last_clicked_at IS NULL) ASC, h.last_clicked_at DESC, h.created_at DESC, h.id DESC");
    reveal_strlit("COALESCE(fts.score, 1000000000) ASC, h.created_at DESC, h.id DESC");
    let f = |k: (Seq<char>, bool)| sort_key(k);
    let newest = recency_keys(true);
    assert(sort_keys(newest) =~= "h.created_at DESC, h.id DESC"@) by {
        assert(newest.map_values(f) =~= seq![sort_key(newest[0]), sort_key(newest[1])]);
        assert(newest.map_values(f).drop_last() =~= seq![sort_key(newest[0])]);
    }
    let oldest = recency_keys(false);
    assert(sort_keys(oldest) =~= "h.created_at ASC, h.id ASC"@) by {
        assert(oldest.map_values(f) =~= seq![sort_key(oldest[0]), sort_key(oldest[1])]);
        assert(oldest.map_values(f).drop_last() =~= seq![sort_key(oldest[0])]);
    }
    let clicks = seq![("h.clicks_count"@, true)] + newest;
    assert(sort_keys(clicks) =~= "h.clicks_count DESC, h.created_at DESC, h.id DESC"@) by {
        let m = clicks.map_values(f);
        assert(m =~= seq![sort_key(clicks[0]), sort_key(newest[0]), sort_key(newest[1])]);
        assert(m.drop_last() =~= seq![sort_key(clicks[0]), sort_key(newest[0])]);
        assert(m.drop_last().drop_last() =~= seq![sort_key(clicks[0])]);
    }
    let recent = seq![("(h.last_clicked_at IS NULL)"@, false), ("h.last_clicked_at"@, true)] + newest;
    assert(sort_keys(recent) =~= "(h.last_clicked_at IS NULL) ASC, h.last_clicked_at DESC, h.created_at DESC, h.id DESC"@) by {
        let m = recent.map_values(f);
        assert(m =~= seq![sort_key(recent[0]), sort_key(recent[1]), sort_key(newest[0]), sort_key(newest[1])]);
        assert(m.drop_last() =~= seq![sort_key(recent[0]), sort_key(recent[1]), sort_key(newest[0])]);
        assert(m.drop_last().drop_last() =~= seq![sort_key(recent[0]), sort_key(recent[1])]);
        assert(m.drop_last().drop_last().drop_last() =~= seq![sort_key(recent[0])]);
    }
    let rank = seq![("COALESCE(fts.score, 1000000000)"@, false)] + newest;
    assert(sort_keys(rank) =~= "COALESCE(fts.score, 1000000000) ASC, h.created_at DESC, h.id DESC"@) by {
        let m = rank.map_values(f);
        assert(m =~= seq![sort_key(rank[0]), sort_key(newest[0]), sort_key(newest[1])]);
        assert(m.drop_last() =~= seq![sort_key(rank[0]), sort_key(newest[0])]);
        assert(m.drop_last().drop_last() =~= seq![sort_key(rank[0])]);
    }
}

pub open spec fn joins_spec(q: ParsedHyperlinkQuery, has_free_text: bool) -> Seq<Seq<char>> {
    (if status_filtered(q.statuses@) { seq![LATEST_JOB_JOIN@] } else { seq![] })
    + (if has_free_text { seq![FTS_JOIN@, SEARCH_DOC_JOIN@] } else { seq![] })
}

/// The bound values: the full-text query, the fallback values, then the
/// queue job type when processing rows are looked up in the queue.
pub open spec fn values_spec(q: ParsedHyperlinkQuery, terms: Seq<TermSpec>, queue_available: bool, job_type: Seq<char>) -> Seq<Seq<char>> {
    (if terms.len() > 0 {
        seq![match fts_query_spec(terms) { Some(m) => m, None => Seq::empty() }] + term_fallbacks(terms).1
    } else { seq![] })
    + (if status_filtered(q.statuses@) && q.statuses@.contains(StatusToken::Processing) && queue_available {
        seq![job_type]
    } else { seq![] })
}

/// Builds the page query for a parsed query and its search terms.
/// `queue_job_type` names processing tasks in the queue table.
pub fn build_hyperlink_sql_parts(
    parsed_query: &ParsedHyperlinkQuery,
    search_terms: &[SearchTerm],
    order: OrderToken,
    queue_jobs_table_available: bool,
    queue_job_type: &str,
) -> (parts: HyperlinkSqlParts)
    ensures
        parts.with_clause@ == (if search_terms@.len() > 0 { FTS_WITH_CLAUSE@ } else { Seq::empty() }),
        parts.joins_sql@ == join(joins_spec(*parsed_query, search_terms@.len() > 0), "\n"@),
        parts.where_sql@ == where_sql_spec(*parsed_query, term_specs(search_terms@), queue_jobs_table_available),
        parts.order_sql@ == order_sql_spec(order, search_terms@.len() > 0),
        strs(parts.values@) == values_spec(*parsed_query, term_specs(search_terms@), queue_jobs_table_available, queue_job_type@),
{
    let ghost ts = term_specs(search_terms@);
    let mut values: Vec<String> = Vec::new();
    let mut joins: Vec<Vec<char>> = Vec::new();
    let mut filters: Vec<Vec<char>> = Vec::new();
    let has_free_text = search_terms.len() > 0;
    let with_clause = if has_free_text {
        let match_query = match build_fts_match_query(search_terms) {
            Some(m) => m,
            None => String::new(),
        };
        values.push(match_query);
        FTS_WITH_CLAUSE.to_string()
    } else {
        String::new()
    };
    let status_selection = parsed_query.effective_status();
    let filtered = match status_selection {
        StatusSelection::All => false,
        StatusSelection::Selected(_) => true,
    };
    assert(filtered == status_filtered(parsed_query.statuses@));
    if filtered {
        joins.push(chars_of(LATEST_JOB_JOIN));
    }
    if has_free_text {
        joins.push(chars_of(FTS_JOIN));
        joins.push(chars_of(SEARCH_DOC_JOIN));
    }
    assert(views(joins@) =~= joins_spec(*parsed_query, has_free_text));
    let ghost v0 = values@;
    extend_views(&mut filters, search_filter_exec(search_terms, &mut values));
    extend_views(&mut filters, scope_filter_exec(parsed_query));
    extend_views(&mut filters, type_filter_exec(parsed_query));
    extend_views(&mut filters, click_filter_exec(parsed_query));
    extend_views(
        &mut filters,
        status_filter_exec(parsed_query, filtered, queue_jobs_table_available, queue_job_type, &mut values),
    );
    assert(views(filters@) =~= filters_spec(*parsed_query, ts, queue_jobs_table_available));
    assert(strs(values@) =~= values_spec(*parsed_query, ts, queue_jobs_table_available, queue_job_type@));
    let where_sql = if filters.len() == 0 {
        "1 = 1".to_string()
    } else {
        string_from_chars(&join_exec(&filters, &chars_of(" AND ")))
    };
    let order_sql = match order {
        OrderToken::Newest => "h.created_at DESC, h.id DESC".to_string(),
        OrderToken::Oldest => "h.created_at ASC, h.id ASC".to_string(),
        OrderToken::MostClicked => "h.clicks_count DESC, h.created_at DESC, h.id DESC".to_string(),
        OrderToken::RecentlyClicked => "(h.last_clicked_at IS NULL) ASC, h.last_clicked_at DESC, h.created_at DESC, h.id DESC".to_string(),
        OrderToken::Random => "random()".to_string(),
        OrderToken::Relevance => if has_free_text {
            "COALESCE(fts.score, 1000000000) ASC, h.created_at DESC, h.id DESC".to_string()
        } else {
            "h.created_at DESC, h.id DESC".to_string()
        },
    };
    HyperlinkSqlParts {
        with_clause,
        joins_sql: string_from_chars(&join_exec(&joins, &chars_of("\n"))),
        where_sql,
        order_sql,
        values,
    }
}


// ---------------------------------------------------------------------------
// Snippets
// ---------------------------------------------------------------------------

/// The snippet shown for a hit: from its readable text when that matches,
/// else its title (whitespace collapsed), else its URL; `None` when
/// nothing matches.
pub open spec fn hit_snippet_spec(readable_text: Seq<char>, title: Seq<char>, url: Seq<char>, terms: Seq<TermSpec>) -> Option<Seq<char>> {
    match match_snippet_spec(markdown_plain(readable_text), terms) {
        Some(s) => Some(s),
        None => match highlight_spec(collapse_ws(title), terms) {
            Some(s) => Some(s),
            None => highlight_spec(url, terms),
        },
    }
}

pub fn select_match_snippet(readable_text: &str, title: &str, url: &str, search_terms: &[SearchTerm]) -> (r: Option<String>)
    ensures
        opt_string_view(r) == hit_snippet_spec(readable_text@, title@, url@, term_specs(search_terms@)),
{
    let plain = markdown_to_plain_text(readable_text);
    if let Some(snippet) = build_match_snippet_html_from_text(plain.as_str(), search_terms) {
        return Some(snippet);
    }
    let title_text = collapse_whitespace(title);
    if let Some(snippet) = highlight_plain_text_html(title_text.as_str(), search_terms) {
        return Some(snippet);
    }
    highlight_plain_text_html(url, search_terms)
}

// ---------------------------------------------------------------------------
// The index page
// ---------------------------------------------------------------------------

/// The states of a processing job that the index tells apart.
#[derive(Clone, Copy, Debug, PartialEq, Eq, Structural)]
pub enum JobState {
    Queued,
    Running,
    Succeeded,
    Failed,
}

/// The badge shown for a hyperlink's latest job.
#[derive(Clone, Copy, Debug, PartialEq, Eq, Structural)]
pub enum IndexStatus {
    Processing,
    Failed,
}

/// A latest job with its id and state.
#[derive(Clone, Copy, Debug, PartialEq, Eq, Structural)]
pub struct JobRef {
    pub id: i32,
    pub state: JobState,
}

/// The badge for a latest job: processing while queued or running (and,
/// when the live queue ids are known, only if the job is among them),
/// failed when failed, none otherwise.
pub open spec fn index_status_spec(job: Option<JobRef>, active: Option<Seq<i32>>) -> Option<IndexStatus> {
    match job {
        None => None,
        Some(j) => match j.state {
            JobState::Queued | JobState::Running => match active {
                Some(ids) => if ids.contains(j.id) {
                    Some(IndexStatus::Processing)
                } else {
                    None
                },
                None => Some(IndexStatus::Processing),
            },
            JobState::Failed => Some(IndexStatus::Failed),
            JobState::Succeeded => None,
        },
    }
}

fn contains_i32(v: &Vec<i32>, x: i32) -> (b: bool)
    ensures
        b == v@.contains(x),
{
    let mut i: usize = 0;
    while i < v.len()
        invariant
            i <= v.len(),
            forall|k: int| 0 <= k < i ==> v@[k] != x,
        decreases v.len() - i,
    {
        if v[i] == x {
            assert(v@[i as int] == x);
            return true;
        }
        i += 1;
    }
    false
}

pub fn index_status(job: Option<JobRef>, active_processing_job_ids: Option<&Vec<i32>>) -> (r: Option<IndexStatus>)
    ensures
        r == index_status_spec(job, match active_processing_job_ids {
            Some(v) => Some(v@),
            None => None,
        }),
{
    let j = match job {
        Some(j) => j,
        None => {
            return None;
        },
    };
    match j.state {
        JobState::Queued | JobState::Running => match active_processing_job_ids {
            Some(ids) => if contains_i32(ids, j.id) {
                Some(IndexStatus::Processing)
            } else {
                None
            },
            None => Some(IndexStatus::Processing),
        },
        JobState::Failed => Some(IndexStatus::Failed),
        JobState::Succeeded => None,
    }
}

pub fn hyperlink_source_type_name(source_type: &HyperlinkSourceType) -> (r: &'static str)
    ensures
        r@ == (match *source_type {
            HyperlinkSourceType::Unknown => "unknown"@,
            HyperlinkSourceType::Html => "html"@,
            HyperlinkSourceType::Pdf => "pdf"@,
        }),
{
    match source_type {
        HyperlinkSourceType::Unknown => "unknown",
        HyperlinkSourceType::Html => "html",
        HyperlinkSourceType::Pdf => "pdf",
    }
}

/// The error of a latest job, shown only when it failed.
pub fn latest_error_message<'a>(state: Option<JobState>, error_message: Option<&'a str>) -> (r: Option<&'a str>)
    ensures
        r == (if state == Some(JobState::Failed) {
            error_message
        } else {
            None
        }),
{
    match state {
        Some(JobState::Failed) => error_message,
        _ => None,
    }
}

fn join_strings(items: &Vec<String>, sep: &str) -> (r: String)
    ensures
        r@ == join(strs(items@), sep@),
{
    let mut parts: Vec<Vec<char>> = Vec::new();
    let mut i: usize = 0;
    while i < items.len()
        invariant
            i <= items.len(),
            views(parts@) == strs(items@).take(i as int),
        decreases items.len() - i,
    {
        let ghost before = parts@;
        parts.push(chars_of(items[i].as_str()));
        assert(views(parts@) =~= views(before).push(items@[i as int]@));
        assert(strs(items@).take(i + 1) =~= strs(items@).take(i as int).push(items@[i as int]@));
        i += 1;
    }
    assert(strs(items@).take(i as int) =~= strs(items@));
    string_from_chars(&join_exec(&parts, &chars_of(sep)))
}

/// The tags offered for editing: the user's own tags, or the visible ones
/// when the user has none, comma-separated.
pub fn manual_tags_input_value(user_tags: &Vec<String>, visible_tags: &Vec<String>) -> (r: String)
    ensures
        r@ == (if user_tags@.len() == 0 {
            join(strs(visible_tags@), ", "@)
        } else {
            join(strs(user_tags@), ", "@)
        }),
{
    if user_tags.len() == 0 {
        join_strings(visible_tags, ", ")
    } else {
        join_strings(user_tags, ", ")
    }
}

/// The tagging vocabulary, comma-separated.
pub fn tagging_vocabulary_hint(tagging_vocabulary: &Vec<String>) -> (r: String)
    ensures
        r@ == join(strs(tagging_vocabulary@), ", "@),
{
    join_strings(tagging_vocabulary, ", ")
}

/// A page of the index and the query it answers, as the page shows them.
pub struct HyperlinkFetchResults {
    pub hyperlink_ids: Vec<i32>,
    pub active_processing_job_ids: Vec<i32>,
    pub thumbnail_hyperlink_ids: Vec<i32>,
    pub dark_thumbnail_hyperlink_ids: Vec<i32>,
    pub parsed_query: ParsedHyperlinkQuery,
    pub ignored_tokens: Vec<String>,
    pub free_text: String,
    pub raw_q: String,
    pub page: u64,
    pub total_pages: u64,
}

/// The index link for a query and page: `q` (left out when empty) and
/// `page`, form-encoded; just the page when encoding fails.
pub open spec fn index_href_spec(raw_q: Seq<char>, page: u64) -> Seq<char> {
    let pairs = (if raw_q.len() > 0 { seq![("q"@, raw_q)] } else { seq![] }) + seq![("page"@, dec_nat(page as nat))];
    "/hyperlinks?"@ + match form_encoded(pairs) {
        Some(q) => q,
        None => "page="@ + dec_nat(page as nat),
    }
}

pub fn hyperlinks_index_href(raw_q: &str, page: u64) -> (r: String)
    ensures
        r@ == index_href_spec(raw_q@, page),
{
    let mut pairs: Vec<(String, String)> = Vec::new();
    if chars_of(raw_q).len() > 0 {
        pairs.push(("q".to_string(), raw_q.to_string()));
    }
    pairs.push(("page".to_string(), format_u64(page)));
    assert(pairs_view(pairs@) =~= (if raw_q@.len() > 0 { seq![("q"@, raw_q@)] } else { seq![] }) + seq![("page"@, dec_nat(page as nat))]);
    let query = match encode_form_pairs(&pairs) {
        Some(q) => q,
        None => {
            let mut t = chars_of("page=");
            append_all(&mut t, &chars_of(format_u64(page).as_str()));
            string_from_chars(&t)
        },
    };
    let mut out = chars_of("/hyperlinks?");
    append_all(&mut out, &chars_of(query.as_str()));
    string_from_chars(&out)
}

pub open spec fn order_name(o: OrderToken) -> Seq<char> {
    match o {
        OrderToken::Newest => "newest"@,
        OrderToken::Oldest => "oldest"@,
        OrderToken::MostClicked => "most-clicked"@,
        OrderToken::RecentlyClicked => "recently-clicked"@,
        OrderToken::Random => "random"@,
        OrderToken::Relevance => "relevance"@,
    }
}

/// The status picker's value for a status.
pub open spec fn status_name(st: StatusToken) -> Seq<char> {
    match st {
        StatusToken::All => "all"@,
        StatusToken::Processing => "processing"@,
        StatusToken::Failed => "failed"@,
        StatusToken::Idle => "idle"@,
        StatusToken::Succeeded => "succeeded"@,
    }
}

/// The type picker's value for a type selection.
pub open spec fn type_selection_name(sel: TypeSelection) -> Seq<char> {
    match sel {
        TypeSelection::All => "all"@,
        TypeSelection::PdfOnly => "pdf"@,
        TypeSelection::NonPdfOnly => "non-pdf"@,
    }
}

/// The pickers' values read back as what they show: an order's name is
/// the `order:` value of that order, and each short alias (`new`, `old`,
/// `top`, `recent`, `rank`) means the order whose name it abbreviates; a
/// status's name is the `status:` value of that status; a type selection's
/// name, given as the only `type:` value, selects it again.
pub proof fn law_picker_values_round_trip(o: OrderToken, st: StatusToken, sel: TypeSelection)
    ensures
        order_token_of(order_name(o)) == Some(o),
        order_token_of("new"@) == Some(OrderToken::Newest),
        order_token_of("old"@) == Some(OrderToken::Oldest),
        order_token_of("top"@) == Some(OrderToken::MostClicked),
        order_token_of("recent"@) == Some(OrderToken::RecentlyClicked),
        order_token_of("rank"@) == Some(OrderToken::Relevance),
        crate::query::status_token_of(status_name(st)) == Some(st),
        crate::query::type_token_of(type_selection_name(sel)) matches Some(t)
            && crate::query::effective_type_spec(seq![t]) == sel,
{
    reveal_strlit("newest");
    reveal_strlit("new");
    reveal_strlit("oldest");
    reveal_strlit("old");
    reveal_strlit("most-clicked");
    reveal_strlit("top");
    reveal_strlit("recently-clicked");
    reveal_strlit("recent");
    reveal_strlit("random");
    reveal_strlit("relevance");
    reveal_strlit("rank");
    reveal_strlit("all");
    reveal_strlit("processing");
    reveal_strlit("queued");
    reveal_strlit("running");
    reveal_strlit("failed");
    reveal_strlit("error");
    reveal_strlit("idle");
    reveal_strlit("succeeded");
    reveal_strlit("success");
    reveal_strlit("pdf");
    reveal_strlit("non-pdf");
    reveal_strlit("nonpdf");
    assert("new"@ != "newest"@) by {
        assert("new"@.len() != "newest"@.len());
    }
    assert("oldest"@ != "newest"@) by {
        assert("oldest"@[0] != "newest"@[0]);
    }
    assert("oldest"@ != "new"@) by {
        assert("oldest"@.len() != "new"@.len());
    }
    assert("old"@ != "newest"@) by {
        assert("old"@.len() != "newest"@.len());
    }
    assert("old"@ != "new"@) by {
        assert("old"@[0] != "new"@[0]);
    }
    assert("old"@ != "oldest"@) by {
        assert("old"@.len() != "oldest"@.len());
    }
    assert("most-clicked"@ != "newest"@) by {
        assert("most-clicked"@.len() != "newest"@.len());
    }
    assert("most-clicked"@ != "new"@) by {
        assert("most-clicked"@.len() != "new"@.len());
    }
    assert("most-clicked"@ != "oldest"@) by {
        assert("most-clicked"@.len() != "oldest"@.len());
    }
    assert("most-clicked"@ != "old"@) by {
        assert("most-clicked"@.len() != "old"@.len());
    }
    assert("top"@ != "newest"@) by {
        assert("top"@.len() != "newest"@.len());
    }
    assert("top"@ != "new"@) by {
        assert("top"@[0] != "new"@[0]);
    }
    assert("top"@ != "oldest"@) by {
        assert("top"@.len() != "oldest"@.len());
    }
    assert("top"@ != "old"@) by {
        assert("top"@[0] != "old"@[0]);
    }
    assert("top"@ != "most-clicked"@) by {
        assert("top"@.len() != "most-clicked"@.len());
    }
    assert("recently-clicked"@ != "newest"@) by {
        assert("recently-clicked"@.len() != "newest"@.len());
    }
    assert("recently-clicked"@ != "new"@) by {
        assert("recently-clicked"@.len() != "new"@.len());
    }
    assert("recently-clicked"@ != "oldest"@) by {
        assert("recently-clicked"@.len() != "oldest"@.len());
    }
    assert("recently-clicked"@ != "old"@) by {
        assert("recently-clicked"@.len() != "old"@.len());
    }
    assert("recently-clicked"@ != "most-clicked"@) by {
        assert("recently-clicked"@.len() != "most-clicked"@.len());
    }
    assert("recently-clicked"@ != "top"@) by {
        assert("recently-clicked"@.len() != "top"@.len());
    }
    assert("recent"@ != "newest"@) by {
        assert("recent"@[0] != "newest"@[0]);
    }
    assert("recent"@ != "new"@) by {
        assert("recent"@.len() != "new"@.len());
    }
    assert("recent"@ != "oldest"@) by {
        assert("recent"@[0] != "oldest"@[0]);
    }
    assert("recent"@ != "old"@) by {
        assert("recent"@.len() != "old"@.len());
    }
    assert("recent"@ != "most-clicked"@) by {
        assert("recent"@.len() != "most-clicked"@.len());
    }
    assert("recent"@ != "top"@) by {
        assert("recent"@.len() != "top"@.len());
    }
    assert("recent"@ != "recently-clicked"@) by {
        assert("recent"@.len() != "recently-clicked"@.len());
    }
    assert("random"@ != "newest"@) by {
        assert("random"@[0] != "newest"@[0]);
    }
    assert("random"@ != "new"@) by {
        assert("random"@.len() != "new"@.len());
    }
    assert("random"@ != "oldest"@) by {
        assert("random"@[0] != "oldest"@[0]);
    }
    assert("random"@ != "old"@) by {
        assert("random"@.len() != "old"@.len());
    }
    assert("random"@ != "most-clicked"@) by {
        assert("random"@.len() != "most-clicked"@.len());
    }
    assert("random"@ != "top"@) by {
        assert("random"@.len() != "top"@.len());
    }
    assert("random"@ != "recently-clicked"@) by {
        assert("random"@.len() != "recently-clicked"@.len());
    }
    assert("random"@ != "recent"@) by {
        assert("random"@[1] != "recent"@[1]);
    }
    assert("relevance"@ != "newest"@) by {
        assert("relevance"@.len() != "newest"@.len());
    }
    assert("relevance"@ != "new"@) by {
        assert("relevance"@.len() != "new"@.len());
    }
    assert("relevance"@ != "oldest"@) by {
        assert("relevance"@.len() != "oldest"@.len());
    }
    assert("relevance"@ != "old"@) by {
        assert("relevance"@.len() != "old"@.len());
    }
    assert("relevance"@ != "most-clicked"@) by {
        assert("relevance"@.len() != "most-clicked"@.len());
    }
    assert("relevance"@ != "top"@) by {
        assert("relevance"@.len() != "top"@.len());
    }
    assert("relevance"@ != "recently-clicked"@) by {
        assert("relevance"@.len() != "recently-clicked"@.len());
    }
    assert("relevance"@ != "recent"@) by {
        assert("relevance"@.len() != "recent"@.len());
    }
    assert("relevance"@ != "random"@) by {
        assert("relevance"@.len() != "random"@.len());
    }
    assert("rank"@ != "newest"@) by {
        assert("rank"@.len() != "newest"@.len());
    }
    assert("rank"@ != "new"@) by {
        assert("rank"@.len() != "new"@.len());
    }
    assert("rank"@ != "oldest"@) by {
        assert("rank"@.len() != "oldest"@.len());
    }
    assert("rank"@ != "old"@) by {
        assert("rank"@.len() != "old"@.len());
    }
    assert("rank"@ != "most-clicked"@) by {
        assert("rank"@.len() != "most-clicked"@.len());
    }
    assert("rank"@ != "top"@) by {
        assert("rank"@.len() != "top"@.len());
    }
    assert("rank"@ != "recently-clicked"@) by {
        assert("rank"@.len() != "recently-clicked"@.len());
    }
    assert("rank"@ != "recent"@) by {
        assert("rank"@.len() != "recent"@.len());
    }
    assert("rank"@ != "random"@) by {
        assert("rank"@.len() != "random"@.len());
    }
    assert("rank"@ != "relevance"@) by {
        assert("rank"@.len() != "relevance"@.len());
    }
    assert("processing"@ != "all"@) by {
        assert("processing"@.len() != "all"@.len());
    }
    assert("queued"@ != "all"@) by {
        assert("queued"@.len() != "all"@.len());
    }
    assert("queued"@ != "processing"@) by {
        assert("queued"@.len() != "processing"@.len());
    }
    assert("running"@ != "all"@) by {
        assert("running"@.len() != "all"@.len());
    }
    assert("running"@ != "processing"@) by {
        assert("running"@.len() != "processing"@.len());
    }
    assert("running"@ != "queued"@) by {
        assert("running"@.len() != "queued"@.len());
    }
    assert("failed"@ != "all"@) by {
        assert("failed"@.len() != "all"@.len());
    }
    assert("failed"@ != "processing"@) by {
        assert("failed"@.len() != "processing"@.len());
    }
    assert("failed"@ != "queued"@) by {
        assert("failed"@[0] != "queued"@[0]);
    }
    assert("failed"@ != "running"@) by {
        assert("failed"@.len() != "running"@.len());
    }
    assert("error"@ != "all"@) by {
        assert("error"@.len() != "all"@.len());
    }
    assert("error"@ != "processing"@) by {
        assert("error"@.len() != "processing"@.len());
    }
    assert("error"@ != "queued"@) by {
        assert("error"@.len() != "queued"@.len());
    }
    assert("error"@ != "running"@) by {
        assert("error"@.len() != "running"@.len());
    }
    assert("error"@ != "failed"@) by {
        assert("error"@.len() != "failed"@.len());
    }
    assert("idle"@ != "all"@) by {
        assert("idle"@.len() != "all"@.len());
    }
    assert("idle"@ != "processing"@) by {
        assert("idle"@.len() != "processing"@.len());
    }
    assert("idle"@ != "queued"@) by {
        assert("idle"@.len() != "queued"@.len());
    }
    assert("idle"@ != "running"@) by {
        assert("idle"@.len() != "running"@.len());
    }
    assert("idle"@ != "failed"@) by {
        assert("idle"@.len() != "failed"@.len());
    }
    assert("idle"@ != "error"@) by {
        assert("idle"@.len() != "error"@.len());
    }
    assert("succeeded"@ != "all"@) by {
        assert("succeeded"@.len() != "all"@.len());
    }
    assert("succeeded"@ != "processing"@) by {
        assert("succeeded"@.len() != "processing"@.len());
    }
    assert("succeeded"@ != "queued"@) by {
        assert("succeeded"@.len() != "queued"@.len());
    }
    assert("succeeded"@ != "running"@) by {
        assert("succeeded"@.len() != "running"@.len());
    }
    assert("succeeded"@ != "failed"@) by {
        assert("succeeded"@.len() != "failed"@.len());
    }
    assert("succeeded"@ != "error"@) by {
        assert("succeeded"@.len() != "error"@.len());
    }
    assert("succeeded"@ != "idle"@) by {
        assert("succeeded"@.len() != "idle"@.len());
    }
    assert("success"@ != "all"@) by {
        assert("success"@.len() != "all"@.len());
    }
    assert("success"@ != "processing"@) by {
        assert("success"@.len() != "processing"@.len());
    }
    assert("success"@ != "queued"@) by {
        assert("success"@.len() != "queued"@.len());
    }
    assert("success"@ != "running"@) by {
        assert("success"@[0] != "running"@[0]);
    }
    assert("success"@ != "failed"@) by {
        assert("success"@.len() != "failed"@.len());
    }
    assert("success"@ != "error"@) by {
        assert("success"@.len() != "error"@.len());
    }
    assert("success"@ != "idle"@) by {
        assert("success"@.len() != "idle"@.len());
    }
    assert("success"@ != "succeeded"@) by {
        assert("success"@.len() != "succeeded"@.len());
    }
    assert("pdf"@ != "all"@) by {
        assert("pdf"@[0] != "all"@[0]);
    }
    assert("non-pdf"@ != "all"@) by {
        assert("non-pdf"@.len() != "all"@.len());
    }
    assert("non-pdf"@ != "pdf"@) by {
        assert("non-pdf"@.len() != "pdf"@.len());
    }
    assert("nonpdf"@ != "all"@) by {
        assert("nonpdf"@.len() != "all"@.len());
    }
    assert("nonpdf"@ != "pdf"@) by {
        assert("nonpdf"@.len() != "pdf"@.len());
    }
    assert("nonpdf"@ != "non-pdf"@) by {
        assert("nonpdf"@.len() != "non-pdf"@.len());
    }
    match sel {
        TypeSelection::All => {
            assert(seq![TypeToken::All].contains(TypeToken::All)) by {
                assert(seq![TypeToken::All][0] == TypeToken::All);
            }
        },
        TypeSelection::PdfOnly => {
            assert(seq![TypeToken::Pdf][0] == TypeToken::Pdf);
            assert(!seq![TypeToken::Pdf].contains(TypeToken::All));
            assert(!seq![TypeToken::Pdf].contains(TypeToken::NonPdf));
        },
        TypeSelection::NonPdfOnly => {
            assert(!seq![TypeToken::NonPdf].contains(TypeToken::All));
            assert(!seq![TypeToken::NonPdf].contains(TypeToken::Pdf));
        },
    }
}

impl HyperlinkFetchResults {
    pub open spec fn has_free_text_spec(&self) -> bool {
        trim(self.free_text@).len() > 0
    }

    pub fn has_free_text(&self) -> (b: bool)
        ensures
            b == self.has_free_text_spec(),
    {
        trim_exec(&chars_of(self.free_text.as_str())).len() > 0
    }

    /// The link to the previous page, from the second page on.
    pub fn prev_page_href(&self) -> (r: Option<String>)
        ensures
            opt_string_view(r) == (if self.page > 1 {
                Some(index_href_spec(self.raw_q@, (self.page - 1) as u64))
            } else {
                None
            }),
    {
        if self.page > 1 {
            Some(hyperlinks_index_href(self.raw_q.as_str(), self.page - 1))
        } else {
            None
        }
    }

    /// The link to the next page, before the last page.
    pub fn next_page_href(&self) -> (r: Option<String>)
        ensures
            opt_string_view(r) == (if self.page < self.total_pages {
                Some(index_href_spec(self.raw_q@, (self.page + 1) as u64))
            } else {
                None
            }),
    {
        if self.page < self.total_pages {
            Some(hyperlinks_index_href(self.raw_q.as_str(), self.page + 1))
        } else {
            None
        }
    }

    /// The status picker: the single status filtered on, else `all`.
    pub fn status_select_value(&self) -> (r: &'static str)
        ensures
            r@ == (if self.parsed_query.statuses@.len() != 1 || self.parsed_query.statuses@.contains(StatusToken::All) {
                "all"@
            } else {
                status_name(self.parsed_query.statuses@[0])
            }),
    {
        let statuses = &self.parsed_query.statuses;
        if statuses.len() == 0 || contains_token(statuses, &StatusToken::All) {
            return "all";
        }
        if statuses.len() != 1 {
            return "all";
        }
        match statuses[0] {
            StatusToken::All => "all",
            StatusToken::Processing => "processing",
            StatusToken::Failed => "failed",
            StatusToken::Idle => "idle",
            StatusToken::Succeeded => "succeeded",
        }
    }

    /// The type picker: `pdf` or `non-pdf` when exactly one applies.
    pub fn type_select_value(&self) -> (r: &'static str)
        ensures
            r@ == type_selection_name(crate::query::effective_type_spec(self.parsed_query.types@)),
    {
        match self.parsed_query.effective_type() {
            TypeSelection::All => "all",
            TypeSelection::PdfOnly => "pdf",
            TypeSelection::NonPdfOnly => "non-pdf",
        }
    }

    /// The order picker: the effective order.
    pub fn order_select_value(&self) -> (r: &'static str)
        ensures
            r@ == order_name(effective_order_spec(self.parsed_query.orders@, self.has_free_text_spec())),
    {
        let has_free_text = self.has_free_text();
        match self.parsed_query.effective_order(has_free_text) {
            OrderToken::Newest => "newest",
            OrderToken::Oldest => "oldest",
            OrderToken::MostClicked => "most-clicked",
            OrderToken::RecentlyClicked => "recently-clicked",
            OrderToken::Random => "random",
            OrderToken::Relevance => "relevance",
        }
    }

    pub open spec fn discovered_checked_spec(&self) -> bool {
        self.parsed_query.scopes@.contains(ScopeToken::All) || self.parsed_query.scopes@.contains(ScopeToken::Discovered)
    }

    /// The "show discovered links" box is ticked.
    pub fn show_discovered_links_checked(&self) -> (b: bool)
        ensures
            b == self.discovered_checked_spec(),
    {
        contains_token(&self.parsed_query.scopes, &ScopeToken::All) || contains_token(&self.parsed_query.scopes, &ScopeToken::Discovered)
    }

    /// The filter panel starts open when any filter was given.
    pub fn mobile_filters_open(&self) -> (b: bool)
        ensures
            b == (self.parsed_query.statuses@.len() > 0 || self.parsed_query.types@.len() > 0
                || self.parsed_query.orders@.len() > 0 || self.discovered_checked_spec()),
    {
        self.parsed_query.statuses.len() > 0 || self.parsed_query.types.len() > 0
            || self.parsed_query.orders.len() > 0 || self.show_discovered_links_checked()
    }

    /// Some filter narrows the listing: a status other than all, only
    /// discovered links, only PDFs or only non-PDFs, or free text.
    pub fn has_effective_filter(&self) -> (b: bool)
        ensures
            b == ({
                let q = self.parsed_query;
                let status_active = q.statuses@.len() > 0 && !q.statuses@.contains(StatusToken::All);
                let scope_active = q.scopes@.contains(ScopeToken::Discovered) && !q.scopes@.contains(ScopeToken::All)
                    && !q.scopes@.contains(ScopeToken::Root);
                let type_active = !q.types@.contains(TypeToken::All) && (q.types@.contains(TypeToken::Pdf) != q.types@.contains(TypeToken::NonPdf));
                status_active || scope_active || type_active || self.has_free_text_spec()
            }),
    {
        let q = &self.parsed_query;
        let status_active = q.statuses.len() > 0 && !contains_token(&q.statuses, &StatusToken::All);
        let scope_active = contains_token(&q.scopes, &ScopeToken::Discovered) && !contains_token(&q.scopes, &ScopeToken::All)
            && !contains_token(&q.scopes, &ScopeToken::Root);
        let type_active = !contains_token(&q.types, &TypeToken::All) && (contains_token(&q.types, &TypeToken::Pdf) != contains_token(&q.types, &TypeToken::NonPdf));
        status_active || scope_active || type_active || self.has_free_text()
    }

    /// The badge of a listed hyperlink's latest job, going by the live
    /// queue.
    pub fn index_status(&self, job: Option<JobRef>) -> (r: Option<IndexStatus>)
        ensures
            r == index_status_spec(job, Some(self.active_processing_job_ids@)),
    {
        index_status(job, Some(&self.active_processing_job_ids))
    }

    /// The inline thumbnail of a listed hyperlink, when it has one.
    pub fn thumbnail_inline_path(&self, hyperlink_id: i32) -> (r: Option<String>)
        ensures
            opt_string_view(r) == (if self.thumbnail_hyperlink_ids@.contains(hyperlink_id) {
                Some(artifact_path_spec(hyperlink_id as int, HyperlinkArtifactKind::ScreenshotThumbWebp, "/inline"@))
            } else {
                None
            }),
    {
        if contains_i32(&self.thumbnail_hyperlink_ids, hyperlink_id) {
            Some(artifact_inline_path(hyperlink_id, &HyperlinkArtifactKind::ScreenshotThumbWebp))
        } else {
            None
        }
    }

    /// The inline dark thumbnail of a listed hyperlink, when it has one.
    pub fn thumbnail_dark_inline_path(&self, hyperlink_id: i32) -> (r: Option<String>)
        ensures
            opt_string_view(r) == (if self.dark_thumbnail_hyperlink_ids@.contains(hyperlink_id) {
                Some(artifact_path_spec(hyperlink_id as int, HyperlinkArtifactKind::ScreenshotThumbDarkWebp, "/inline"@))
            } else {
                None
            }),
    {
        if contains_i32(&self.dark_thumbnail_hyperlink_ids, hyperlink_id) {
            Some(artifact_inline_path(hyperlink_id, &HyperlinkArtifactKind::ScreenshotThumbDarkWebp))
        } else {
            None
        }
    }
}


// ---------------------------------------------------------------------------
// Laws
// ---------------------------------------------------------------------------

proof fn lemma_last_page_starts_before_end(rows: int, per: int)
    requires
        rows >= 1,
        per >= 1,
    ensures
        ceil_div(rows, per) >= 1,
        (ceil_div(rows, per) - 1) * per < rows,
{
    let q = rows / per;
    let r = rows % per;
    assert(rows == q * per + r && 0 <= r < per) by (nonlinear_arith)
        requires
            per >= 1,
            q == rows / per,
            r == rows % per,
    ;
    if r == 0 {
        assert(q >= 1) by (nonlinear_arith)
            requires
                rows == q * per,
                rows >= 1,
                per >= 1,
        ;
        assert((q - 1) * per < rows) by (nonlinear_arith)
            requires
                rows == q * per,
                per >= 1,
        ;
    } else {
        assert(q * per < rows);
    }
}

/// The page shown never starts past the last hyperlink: whatever page is
/// requested, the page shown lies between 1 and the page count, and when
/// there are hyperlinks its first row exists.
pub proof fn law_shown_page_in_range(total_rows: u64, per_page: u64, requested: u64)
    requires
        requested >= 1,
    ensures
        ({
            let per = if per_page < 1 { 1 } else { per_page as int };
            let pages = if total_rows == 0 { 1 } else { ceil_div(total_rows as int, per) };
            let page = if requested <= pages { requested as int } else { pages };
            &&& 1 <= page <= pages
            &&& total_rows > 0 ==> offset_of(page, per_page as int) < total_rows
        }),
{
    let per = if per_page < 1 { 1 } else { per_page as int };
    if total_rows > 0 {
        lemma_last_page_starts_before_end(total_rows as int, per);
        let pages = ceil_div(total_rows as int, per);
        let page = if requested <= pages { requested as int } else { pages };
        assert((page - 1) * per <= (pages - 1) * per) by (nonlinear_arith)
            requires
                1 <= page <= pages,
                per >= 1,
        ;
    }
}

} // verus!
