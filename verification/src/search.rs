//! Free-text search terms and the highlighted match snippets shown for them.
use vstd::prelude::*;

use crate::text::{
    append_all, chars_of, collapse_whitespace_chars, collapse_ws, subvec, trim, trim_exec, find_exec, find_from, is_alphanumeric, is_whitespace, is_ws,
    lemma_find_from_props, lower_ascii, lowercase_chars, split_whitespace,
    string_from_chars, to_ascii_lowercase, unicode_alphanumeric, unicode_lowercase, views, words,
};

verus! {

/// A normalized search term; `exact` terms came from a quoted phrase and
/// only match at word boundaries.
#[derive(Clone, Debug, PartialEq, Eq)]
pub struct SearchTerm {
    pub value: String,
    pub exact: bool,
}

pub struct TermSpec {
    pub value: Seq<char>,
    pub exact: bool,
}

impl SearchTerm {
    pub open spec fn spec(&self) -> TermSpec {
        TermSpec { value: self.value@, exact: self.exact }
    }
}

pub open spec fn term_specs(terms: Seq<SearchTerm>) -> Seq<TermSpec> {
    terms.map_values(|t: SearchTerm| t.spec())
}

// ---------------------------------------------------------------------------
// Normalization
// ---------------------------------------------------------------------------

/// The alphanumeric characters of `t`, lower-cased (Unicode).
pub open spec fn alnum_lowered(t: Seq<char>) -> Seq<char>
    decreases t.len(),
{
    if t.len() == 0 {
        Seq::empty()
    } else {
        alnum_lowered(t.drop_last()) + if unicode_alphanumeric(t.last()) {
            unicode_lowercase(t.last())
        } else {
            Seq::empty()
        }
    }
}

pub fn normalize_unquoted_search_term(token: &str) -> (r: Option<String>)
    ensures
        match r {
            Some(v) => v@ == alnum_lowered(token@) && v@.len() > 0,
            None => alnum_lowered(token@).len() == 0,
        },
{
    let t = chars_of(token);
    let n = alnum_lowered_exec(&t);
    if n.len() == 0 {
        None
    } else {
        Some(string_from_chars(&n))
    }
}

fn alnum_lowered_exec(t: &Vec<char>) -> (r: Vec<char>)
    ensures
        r@ == alnum_lowered(t@),
{
    let mut r: Vec<char> = Vec::new();
    let mut i: usize = 0;
    while i < t.len()
        invariant
            i <= t.len(),
            r@ == alnum_lowered(t@.take(i as int)),
        decreases t.len() - i,
    {
        assert(t@.take(i + 1).drop_last() =~= t@.take(i as int));
        if is_alphanumeric(t[i]) {
            let l = lowercase_chars(t[i]);
            append_all(&mut r, &l);
        } else {
            assert(r@ =~= r@ + Seq::<char>::empty());
        }
        i += 1;
    }
    assert(t@.take(i as int) =~= t@);
    r
}

/// Separators inside a quoted phrase that become a single space.
pub open spec fn is_phrase_separator(c: char) -> bool {
    is_ws(c) || c == '-' || c == '_' || c == '/' || c == '\\'
}

/// Scanning state of a quoted phrase: the normalized text so far and
/// whether a separator is pending.
pub open spec fn phrase_state(f: Seq<char>) -> (Seq<char>, bool)
    decreases f.len(),
{
    if f.len() == 0 {
        (Seq::empty(), false)
    } else {
        let (n, pending) = phrase_state(f.drop_last());
        let ch = f.last();
        if unicode_alphanumeric(ch) {
            (
                (if pending && n.len() > 0 {
                    n.push(' ')
                } else {
                    n
                }) + unicode_lowercase(ch),
                false,
            )
        } else if is_phrase_separator(ch) {
            (n, true)
        } else {
            (n, pending)
        }
    }
}

pub open spec fn phrase_normalized(f: Seq<char>) -> Seq<char> {
    phrase_state(f).0
}

pub fn normalize_exact_search_term(fragment: &str) -> (r: Option<String>)
    ensures
        match r {
            Some(v) => v@ == phrase_normalized(fragment@) && v@.len() > 0,
            None => phrase_normalized(fragment@).len() == 0,
        },
{
    let f = chars_of(fragment);
    let n = phrase_normalized_exec(&f);
    if n.len() == 0 {
        None
    } else {
        Some(string_from_chars(&n))
    }
}

fn phrase_normalized_exec(f: &Vec<char>) -> (r: Vec<char>)
    ensures
        r@ == phrase_normalized(f@),
{
    let mut n: Vec<char> = Vec::new();
    let mut pending = false;
    let mut i: usize = 0;
    while i < f.len()
        invariant
            i <= f.len(),
            (n@, pending) == phrase_state(f@.take(i as int)),
        decreases f.len() - i,
    {
        assert(f@.take(i + 1).drop_last() =~= f@.take(i as int));
        let ch = f[i];
        if is_alphanumeric(ch) {
            if pending && n.len() > 0 {
                n.push(' ');
            }
            pending = false;
            let l = lowercase_chars(ch);
            append_all(&mut n, &l);
        } else if is_whitespace(ch) || ch == '-' || ch == '_' || ch == '/' || ch == '\\' {
            pending = true;
        }
        i += 1;
    }
    assert(f@.take(i as int) =~= f@);
    n
}

// ---------------------------------------------------------------------------
// Splitting free text into terms
// ---------------------------------------------------------------------------

pub open spec fn unquoted_terms_of(ws: Seq<Seq<char>>) -> Seq<TermSpec>
    decreases ws.len(),
{
    if ws.len() == 0 {
        Seq::empty()
    } else {
        let prev = unquoted_terms_of(ws.drop_last());
        let v = alnum_lowered(ws.last());
        if v.len() > 0 {
            prev.push(TermSpec { value: v, exact: false })
        } else {
            prev
        }
    }
}

/// The fuzzy terms of an unquoted fragment: its words, normalized, empty
/// ones dropped.
pub open spec fn unquoted_terms(fragment: Seq<char>) -> Seq<TermSpec> {
    unquoted_terms_of(words(fragment))
}

/// The exact term of a quoted fragment, if it normalizes to anything.
pub open spec fn exact_terms(fragment: Seq<char>) -> Seq<TermSpec> {
    let v = phrase_normalized(fragment);
    if v.len() > 0 {
        seq![TermSpec { value: v, exact: true }]
    } else {
        Seq::empty()
    }
}

/// Scanning state over the free text: the terms so far, the fragment being
/// read, and whether it is inside quotes.
pub open spec fn terms_state(s: Seq<char>) -> (Seq<TermSpec>, Seq<char>, bool)
    decreases s.len(),
{
    if s.len() == 0 {
        (Seq::empty(), Seq::empty(), false)
    } else {
        let (terms, fragment, in_quotes) = terms_state(s.drop_last());
        if s.last() == '"' {
            (
                terms + if in_quotes {
                    exact_terms(fragment)
                } else {
                    unquoted_terms(fragment)
                },
                Seq::empty(),
                !in_quotes,
            )
        } else {
            (terms, fragment.push(s.last()), in_quotes)
        }
    }
}

/// The search terms of free text: quoted phrases are exact terms, the rest
/// splits into fuzzy terms; an unclosed quote reads as unquoted text.
pub open spec fn search_terms_of(s: Seq<char>) -> Seq<TermSpec> {
    let (terms, fragment, _) = terms_state(s);
    terms + unquoted_terms(fragment)
}

pub fn push_unquoted_search_terms(terms: &mut Vec<SearchTerm>, fragment: &str)
    ensures
        term_specs(final(terms)@) == term_specs(old(terms)@) + unquoted_terms(fragment@),
{
    let f = chars_of(fragment);
    push_unquoted_chars(terms, &f);
}

fn push_unquoted_chars(terms: &mut Vec<SearchTerm>, f: &Vec<char>)
    ensures
        term_specs(final(terms)@) == term_specs(old(terms)@) + unquoted_terms(f@),
{
    let ws = split_whitespace(f);
    let ghost wsv = words(f@);
    let mut i: usize = 0;
    assert(term_specs(terms@) =~= term_specs(old(terms)@) + unquoted_terms_of(wsv.take(0)));
    while i < ws.len()
        invariant
            i <= ws.len(),
            views(ws@) == wsv,
            term_specs(terms@) == term_specs(old(terms)@) + unquoted_terms_of(wsv.take(i as int)),
        decreases ws.len() - i,
    {
        assert(wsv.take(i + 1).drop_last() =~= wsv.take(i as int));
        assert(wsv.take(i + 1).last() == ws@[i as int]@);
        let v = alnum_lowered_exec(&ws[i]);
        if v.len() > 0 {
            let ghost before = terms@;
            terms.push(SearchTerm { value: string_from_chars(&v), exact: false });
            assert(term_specs(terms@) =~= term_specs(before).push(
                TermSpec { value: v@, exact: false },
            ));
        }
        i += 1;
    }
    assert(wsv.take(i as int) =~= wsv);
}

pub fn push_exact_search_term(terms: &mut Vec<SearchTerm>, fragment: &str)
    ensures
        term_specs(final(terms)@) == term_specs(old(terms)@) + exact_terms(fragment@),
{
    let f = chars_of(fragment);
    push_exact_chars(terms, &f);
}

fn push_exact_chars(terms: &mut Vec<SearchTerm>, f: &Vec<char>)
    ensures
        term_specs(final(terms)@) == term_specs(old(terms)@) + exact_terms(f@),
{
    let v = phrase_normalized_exec(f);
    let ghost before = terms@;
    if v.len() > 0 {
        terms.push(SearchTerm { value: string_from_chars(&v), exact: true });
    }
    assert(term_specs(terms@) =~= term_specs(before) + exact_terms(f@));
}

/// Splits free text into search terms.
pub fn parse_search_terms(free_text: &str) -> (r: Vec<SearchTerm>)
    ensures
        term_specs(r@) == search_terms_of(free_text@),
{
    let s = chars_of(free_text);
    let mut terms: Vec<SearchTerm> = Vec::new();
    let mut fragment: Vec<char> = Vec::new();
    let mut in_quotes = false;
    let mut i: usize = 0;
    assert(term_specs(terms@) =~= Seq::<TermSpec>::empty());
    while i < s.len()
        invariant
            i <= s.len(),
            (term_specs(terms@), fragment@, in_quotes) == terms_state(s@.take(i as int)),
        decreases s.len() - i,
    {
        assert(s@.take(i + 1).drop_last() =~= s@.take(i as int));
        let ch = s[i];
        if ch == '"' {
            if in_quotes {
                push_exact_chars(&mut terms, &fragment);
            } else {
                push_unquoted_chars(&mut terms, &fragment);
            }
            fragment = Vec::new();
            in_quotes = !in_quotes;
        } else {
            fragment.push(ch);
        }
        i += 1;
    }
    assert(s@.take(i as int) =~= s@);
    push_unquoted_chars(&mut terms, &fragment);
    terms
}


// ---------------------------------------------------------------------------
// HTML escaping
// ---------------------------------------------------------------------------

/// The HTML text for one character.
pub open spec fn escape_char(c: char) -> Seq<char> {
    if c == '&' {
        "&amp;"@
    } else if c == '<' {
        "&lt;"@
    } else if c == '>' {
        "&gt;"@
    } else if c == '"' {
        "&quot;"@
    } else if c == '\'' {
        "&#39;"@
    } else {
        seq![c]
    }
}

pub open spec fn escape_seq(s: Seq<char>) -> Seq<char>
    decreases s.len(),
{
    if s.len() == 0 {
        Seq::empty()
    } else {
        escape_seq(s.drop_last()) + escape_char(s.last())
    }
}

fn push_escaped(out: &mut Vec<char>, c: char)
    ensures
        final(out)@ == old(out)@ + escape_char(c),
{
    if c == '&' {
        append_all(out, &chars_of("&amp;"));
    } else if c == '<' {
        append_all(out, &chars_of("&lt;"));
    } else if c == '>' {
        append_all(out, &chars_of("&gt;"));
    } else if c == '"' {
        append_all(out, &chars_of("&quot;"));
    } else if c == '\'' {
        append_all(out, &chars_of("&#39;"));
    } else {
        out.push(c);
    }
}

fn escape_chars(s: &Vec<char>) -> (r: Vec<char>)
    ensures
        r@ == escape_seq(s@),
{
    let mut out: Vec<char> = Vec::new();
    let mut i: usize = 0;
    while i < s.len()
        invariant
            i <= s.len(),
            out@ == escape_seq(s@.take(i as int)),
        decreases s.len() - i,
    {
        assert(s@.take(i + 1).drop_last() =~= s@.take(i as int));
        push_escaped(&mut out, s[i]);
        i += 1;
    }
    assert(s@.take(i as int) =~= s@);
    out
}

/// Escapes `&`, `<`, `>`, `"` and `'` for HTML.
pub fn escape_html(value: &str) -> (r: String)
    ensures
        r@ == escape_seq(value@),
{
    string_from_chars(&escape_chars(&chars_of(value)))
}

// ---------------------------------------------------------------------------
// Matching
// ---------------------------------------------------------------------------

/// No alphanumeric character touches the range `[start, end)` of `s`.
pub open spec fn at_word_boundary(s: Seq<char>, start: int, end: int) -> bool {
    (start == 0 || !unicode_alphanumeric(s[start - 1])) && (end >= s.len()
        || !unicode_alphanumeric(s[end]))
}

pub fn is_left_word_boundary_ascii(value: &Vec<char>, start: usize) -> (b: bool)
    requires
        start <= value.len(),
    ensures
        b == (start == 0 || !unicode_alphanumeric(value@[start - 1])),
{
    if start == 0 {
        return true;
    }
    !is_alphanumeric(value[start - 1])
}

pub fn is_right_word_boundary_ascii(value: &Vec<char>, end: usize) -> (b: bool)
    ensures
        b == (end >= value.len() || !unicode_alphanumeric(value@[end as int])),
{
    if end >= value.len() {
        return true;
    }
    !is_alphanumeric(value[end])
}

pub fn is_word_boundary_range_ascii(value: &Vec<char>, start: usize, end: usize) -> (b: bool)
    requires
        start <= value.len(),
    ensures
        b == at_word_boundary(value@, start as int, end as int),
{
    is_left_word_boundary_ascii(value, start) && is_right_word_boundary_ascii(value, end)
}

/// The starts of the matches of a term that count, scanning left to right
/// from `from` as `str::match_indices` does (matches do not overlap); for an
/// exact term, matches not at a word boundary are skipped.
pub open spec fn term_matches_from(s: Seq<char>, pat: Seq<char>, exact: bool, from: int) -> Seq<
    int,
>
    decreases s.len() + 1 - from,
{
    if pat.len() == 0 || from < 0 {
        Seq::empty()
    } else {
        match find_from(s, pat, from) {
            None => Seq::empty(),
            Some(i) => {
                if i < from || i + pat.len() > s.len() {
                    Seq::empty()
                } else {
                    let rest = term_matches_from(s, pat, exact, i + pat.len());
                    if !exact || at_word_boundary(s, i, i + pat.len()) {
                        seq![i] + rest
                    } else {
                        rest
                    }
                }
            },
        }
    }
}

pub open spec fn term_matches(s: Seq<char>, t: TermSpec) -> Seq<int> {
    term_matches_from(s, t.value, t.exact, 0)
}

pub open spec fn ints(v: Seq<usize>) -> Seq<int> {
    v.map_values(|x: usize| x as int)
}

/// The counted matches of `pat` in `s`, as start indices.
fn term_match_starts(s: &Vec<char>, pat: &Vec<char>, exact: bool) -> (r: Vec<usize>)
    ensures
        ints(r@) == term_matches_from(s@, pat@, exact, 0),
        forall|k: int| 0 <= k < r.len() ==> r@[k] + pat.len() <= s.len(),
{
    let mut r: Vec<usize> = Vec::new();
    if pat.len() == 0 {
        assert(ints(r@) =~= Seq::<int>::empty());
        return r;
    }
    let mut cursor: usize = 0;
    assert(ints(r@) + term_matches_from(s@, pat@, exact, 0) =~= term_matches_from(
        s@,
        pat@,
        exact,
        0,
    ));
    loop
        invariant
            cursor <= s.len(),
            pat.len() > 0,
            ints(r@) + term_matches_from(s@, pat@, exact, cursor as int) == term_matches_from(
                s@,
                pat@,
                exact,
                0,
            ),
            forall|k: int| 0 <= k < r.len() ==> r@[k] + pat.len() <= s.len(),
        decreases s.len() - cursor,
    {
        match find_exec(s, pat, cursor) {
            None => {
                assert(ints(r@) + term_matches_from(s@, pat@, exact, cursor as int) =~= ints(r@));
                return r;
            },
            Some(i) => {
                proof {
                    lemma_find_from_props(s@, pat@, cursor as int);
                }
                let end = i + pat.len();
                let ghost before = r@;
                if !exact || is_word_boundary_range_ascii(s, i, end) {
                    r.push(i);
                    assert(ints(r@) =~= ints(before).push(i as int));
                    assert(ints(before) + term_matches_from(s@, pat@, exact, cursor as int)
                        =~= ints(r@) + term_matches_from(s@, pat@, exact, end as int));
                }
                cursor = end;
            },
        }
    }
}

/// Position `p` lies inside one of the matches starting at `starts`, each
/// `len` characters long.
pub open spec fn in_matches(starts: Seq<int>, len: int, p: int) -> bool
    decreases starts.len(),
{
    if starts.len() == 0 {
        false
    } else {
        in_matches(starts.drop_last(), len, p) || (starts.last() <= p < starts.last() + len)
    }
}

/// Position `p` of `s` lies inside a counted match of one of the terms.
pub open spec fn covered(s: Seq<char>, terms: Seq<TermSpec>, p: int) -> bool
    decreases terms.len(),
{
    if terms.len() == 0 {
        false
    } else {
        covered(s, terms.drop_last(), p) || in_matches(
            term_matches(s, terms.last()),
            terms.last().value.len() as int,
            p,
        )
    }
}

/// Characters of `v` in order, each escaped, with every maximal run of
/// positions for which `cov` holds wrapped in `<em>` and `</em>`.
pub open spec fn highlight_prefix(v: Seq<char>, cov: spec_fn(int) -> bool, n: int) -> Seq<char>
    decreases n,
{
    if n <= 0 {
        Seq::empty()
    } else {
        let p = n - 1;
        highlight_prefix(v, cov, n - 1) + (if cov(p) && (p == 0 || !cov(p - 1)) {
            "<em>"@
        } else {
            Seq::empty()
        }) + escape_char(v[p]) + (if cov(p) && (p + 1 == v.len() || !cov(p + 1)) {
            "</em>"@
        } else {
            Seq::empty()
        })
    }
}

/// The highlighted HTML for `value`, matching on its ASCII-lower-cased form:
/// `None` when no term matches anywhere.
pub open spec fn highlight_spec(value: Seq<char>, terms: Seq<TermSpec>) -> Option<Seq<char>> {
    let norm = lower_ascii(value);
    if exists|p: int| 0 <= p < value.len() && covered(norm, terms, p) {
        Some(highlight_prefix(value, |p: int| covered(norm, terms, p), value.len() as int))
    } else {
        None
    }
}

pub open spec fn opt_view(o: Option<Vec<char>>) -> Option<Seq<char>> {
    match o {
        Some(v) => Some(v@),
        None => None,
    }
}

pub open spec fn opt_string_view(o: Option<String>) -> Option<Seq<char>> {
    match o {
        Some(v) => Some(v@),
        None => None,
    }
}

/// Which positions of `norm` lie inside a counted match of a term.
fn coverage_mask(norm: &Vec<char>, terms: &[SearchTerm]) -> (mask: Vec<bool>)
    ensures
        mask.len() == norm.len(),
        forall|q: int| 0 <= q < norm.len() ==> mask@[q] == covered(norm@, term_specs(terms@), q),
{
    let ghost ts = term_specs(terms@);
    let mut mask: Vec<bool> = Vec::new();
    let mut q: usize = 0;
    while q < norm.len()
        invariant
            q <= norm.len(),
            mask.len() == q,
            forall|x: int| 0 <= x < q ==> !mask@[x],
        decreases norm.len() - q,
    {
        mask.push(false);
        q += 1;
    }
    let mut j: usize = 0;
    while j < terms.len()
        invariant
            j <= terms.len(),
            ts == term_specs(terms@),
            mask.len() == norm.len(),
            forall|x: int| 0 <= x < norm.len() ==> mask@[x] == covered(norm@, ts.take(j as int), x),
        decreases terms.len() - j,
    {
        let pat = chars_of(terms[j].value.as_str());
        let exact = terms[j].exact;
        let starts = term_match_starts(norm, &pat, exact);
        let ghost len = pat.len() as int;
        let mut k: usize = 0;
        assert(ts.take(j + 1).drop_last() =~= ts.take(j as int));
        assert(ts.take(j + 1).last() == terms@[j as int].spec());
        while k < starts.len()
            invariant
                j < terms.len(),
                k <= starts.len(),
                len == pat.len(),
                ts == term_specs(terms@),
                ints(starts@) == term_matches_from(norm@, pat@, exact, 0),
                forall|x: int| 0 <= x < starts.len() ==> starts@[x] + pat.len() <= norm.len(),
                mask.len() == norm.len(),
                forall|x: int|
                    0 <= x < norm.len() ==> mask@[x] == (covered(norm@, ts.take(j as int), x)
                        || in_matches(ints(starts@).take(k as int), len, x)),
            decreases starts.len() - k,
        {
            let st = starts[k];
            let en = st + pat.len();
            let mut p = st;
            while p < en
                invariant
                    st <= p <= en,
                    en == st + pat.len(),
                    en <= norm.len(),
                    mask.len() == norm.len(),
                    forall|x: int|
                        0 <= x < norm.len() ==> mask@[x] == (covered(norm@, ts.take(j as int), x)
                            || in_matches(ints(starts@).take(k as int), len, x) || (st <= x < p)),
                decreases en - p,
            {
                mask[p] = true;
                p += 1;
            }
            assert(ints(starts@).take(k + 1).drop_last() =~= ints(starts@).take(k as int));
            k += 1;
        }
        assert(ints(starts@).take(k as int) =~= ints(starts@));
        j += 1;
    }
    assert(ts.take(j as int) =~= ts);
    mask
}

/// Highlights the matches of the terms in `v` (see [`highlight_spec`]).
fn highlight_chars(v: &Vec<char>, terms: &[SearchTerm]) -> (r: Option<Vec<char>>)
    ensures
        opt_view(r) == highlight_spec(v@, term_specs(terms@)),
{
    let norm = to_ascii_lowercase(v);
    let mask = coverage_mask(&norm, terms);
    let ghost ts = term_specs(terms@);
    let ghost cov = |p: int| covered(norm@, ts, p);
    let n = v.len();
    let mut any = false;
    let mut i: usize = 0;
    while i < n
        invariant
            i <= n,
            n == v.len(),
            mask.len() == n,
            any <==> exists|p: int| 0 <= p < i && mask@[p],
        decreases n - i,
    {
        if mask[i] {
            any = true;
        }
        i += 1;
    }
    if !any {
        assert forall|p: int| 0 <= p < v.len() implies !covered(norm@, ts, p) by {
            assert(mask@[p] == covered(norm@, ts, p));
        }
        return None;
    }
    let mut out: Vec<char> = Vec::new();
    let mut p: usize = 0;
    while p < n
        invariant
            p <= n,
            n == v.len(),
            mask.len() == n,
            forall|q: int| 0 <= q < n ==> mask@[q] == cov(q),
            out@ == highlight_prefix(v@, cov, p as int),
        decreases n - p,
    {
        if mask[p] && (p == 0 || !mask[p - 1]) {
            append_all(&mut out, &chars_of("<em>"));
        }
        push_escaped(&mut out, v[p]);
        if mask[p] && (p + 1 == n || !mask[p + 1]) {
            append_all(&mut out, &chars_of("</em>"));
        }
        p += 1;
    }
    proof {
        let w = choose|q: int| 0 <= q < n && mask@[q];
        assert(covered(norm@, ts, w));
    }
    Some(out)
}

/// Escapes `value` for HTML with every run of matched characters wrapped
/// in `<em>`; `None` when no term matches.
pub fn highlight_plain_text_html(value: &str, search_terms: &[SearchTerm]) -> (r: Option<String>)
    ensures
        opt_string_view(r) == highlight_spec(value@, term_specs(search_terms@)),
{
    match highlight_chars(&chars_of(value), search_terms) {
        Some(h) => Some(string_from_chars(&h)),
        None => None,
    }
}


// ---------------------------------------------------------------------------
// Snippets
// ---------------------------------------------------------------------------

/// The first counted match among the terms, as (start, length) in
/// characters: the earliest start, the earlier term on a tie.
pub open spec fn first_match(s: Seq<char>, terms: Seq<TermSpec>) -> Option<(int, int)>
    decreases terms.len(),
{
    if terms.len() == 0 {
        None
    } else {
        let prev = first_match(s, terms.drop_last());
        let t = terms.last();
        let ms = term_matches(s, t);
        if ms.len() == 0 {
            prev
        } else {
            match prev {
                Some((best, _)) => if best <= ms[0] {
                    prev
                } else {
                    Some((ms[0], t.value.len() as int))
                },
                None => Some((ms[0], t.value.len() as int)),
            }
        }
    }
}

/// Finds the first counted match of the terms in the ASCII-lower-cased
/// `value` (see [`first_match`]).
pub fn first_match_range(value: &Vec<char>, search_terms: &[SearchTerm]) -> (r: Option<
    (usize, usize),
>)
    ensures
        match r {
            Some((a, b)) => first_match(lower_ascii(value@), term_specs(search_terms@)) == Some(
                (a as int, b as int),
            ) && a + b <= value.len(),
            None => first_match(lower_ascii(value@), term_specs(search_terms@)) is None,
        },
{
    let norm = to_ascii_lowercase(value);
    let ghost ts = term_specs(search_terms@);
    let mut best: Option<(usize, usize)> = None;
    let mut j: usize = 0;
    while j < search_terms.len()
        invariant
            j <= search_terms.len(),
            ts == term_specs(search_terms@),
            norm@ == lower_ascii(value@),
            norm.len() == value.len(),
            match best {
                Some((a, b)) => first_match(norm@, ts.take(j as int)) == Some((a as int, b as int))
                    && a + b <= value.len(),
                None => first_match(norm@, ts.take(j as int)) is None,
            },
        decreases search_terms.len() - j,
    {
        assert(ts.take(j + 1).drop_last() =~= ts.take(j as int));
        assert(ts.take(j + 1).last() == search_terms@[j as int].spec());
        let pat = chars_of(search_terms[j].value.as_str());
        let starts = term_match_starts(&norm, &pat, search_terms[j].exact);
        if starts.len() > 0 {
            assert(ints(starts@)[0] == starts@[0] as int);
            let st = starts[0];
            match best {
                Some((a, _)) => {
                    if a > st {
                        best = Some((st, pat.len()));
                    }
                },
                None => {
                    best = Some((st, pat.len()));
                },
            }
        }
        j += 1;
    }
    assert(ts.take(j as int) =~= ts);
    best
}

/// Bytes that `char::len_utf8` counts for a character.
pub open spec fn utf8_width(c: char) -> int {
    if (c as u32) < 0x80 {
        1
    } else if (c as u32) < 0x800 {
        2
    } else if (c as u32) < 0x10000 {
        3
    } else {
        4
    }
}

/// Length in bytes of the UTF-8 encoding of `s`.
pub open spec fn utf8_len(s: Seq<char>) -> int
    decreases s.len(),
{
    if s.len() == 0 {
        0
    } else {
        utf8_len(s.drop_last()) + utf8_width(s.last())
    }
}

fn utf8_width_exec(c: char) -> (w: u128)
    ensures
        w == utf8_width(c),
{
    let u = c as u32;
    if u < 0x80 {
        1
    } else if u < 0x800 {
        2
    } else if u < 0x10000 {
        3
    } else {
        4
    }
}

/// The byte offset of every character boundary of `s`, in order.
fn utf8_offsets(s: &Vec<char>) -> (offs: Vec<u128>)
    ensures
        offs.len() == s.len() + 1,
        forall|i: int| 0 <= i <= s.len() ==> offs@[i] == utf8_len(s@.take(i)),
        forall|a: int, b: int| 0 <= a < b <= s.len() ==> offs@[a] < offs@[b],
        forall|i: int| 0 <= i <= s.len() ==> offs@[i] <= 4 * i,
{
    let mut offs: Vec<u128> = vec![0];
    let mut acc: u128 = 0;
    let mut i: usize = 0;
    assert(s@.take(0) =~= Seq::<char>::empty());
    while i < s.len()
        invariant
            i <= s.len(),
            offs.len() == i + 1,
            acc == offs@[i as int],
            acc <= 4 * i,
            forall|k: int| 0 <= k <= i ==> offs@[k] == utf8_len(s@.take(k)),
            forall|a: int, b: int| 0 <= a < b <= i ==> offs@[a] < offs@[b],
            forall|k: int| 0 <= k <= i ==> offs@[k] <= 4 * k,
        decreases s.len() - i,
    {
        assert(s@.take(i + 1).drop_last() =~= s@.take(i as int));
        acc = acc + utf8_width_exec(s[i]);
        offs.push(acc);
        i += 1;
    }
    offs
}

/// The last character boundary at or before byte `target`, as a character
/// index at most `i`.
pub open spec fn floor_from(s: Seq<char>, target: int, i: int) -> int
    decreases i,
{
    if i <= 0 {
        0
    } else if utf8_len(s.take(i)) <= target {
        i
    } else {
        floor_from(s, target, i - 1)
    }
}

/// The first character boundary at or after byte `target`, as a character
/// index at least `i`.
pub open spec fn ceil_from(s: Seq<char>, target: int, i: int) -> int
    decreases s.len() - i,
{
    if i >= s.len() {
        s.len() as int
    } else if utf8_len(s.take(i)) >= target {
        i
    } else {
        ceil_from(s, target, i + 1)
    }
}

/// The character index of the last boundary at or before byte `index`.
fn floor_char_boundary(text: &Vec<char>, offs: &Vec<u128>, index: u128) -> (r: usize)
    requires
        offs.len() == text.len() + 1,
        forall|i: int| 0 <= i <= text.len() ==> offs@[i] == utf8_len(text@.take(i)),
    ensures
        r == floor_from(text@, index as int, text.len() as int),
        r <= text.len(),
        r == 0 || offs@[r as int] <= index,
{
    let mut i = text.len();
    while i > 0 && offs[i] > index
        invariant
            i <= text.len(),
            offs.len() == text.len() + 1,
            forall|k: int| 0 <= k <= text.len() ==> offs@[k] == utf8_len(text@.take(k)),
            floor_from(text@, index as int, text.len() as int) == floor_from(
                text@,
                index as int,
                i as int,
            ),
        decreases i,
    {
        i -= 1;
    }
    i
}

/// The character index of the first boundary at or after byte `index`.
fn ceil_char_boundary(text: &Vec<char>, offs: &Vec<u128>, index: u128) -> (r: usize)
    requires
        offs.len() == text.len() + 1,
        forall|i: int| 0 <= i <= text.len() ==> offs@[i] == utf8_len(text@.take(i)),
    ensures
        r == ceil_from(text@, index as int, 0),
        r <= text.len(),
        r == text.len() || offs@[r as int] >= index,
{
    let mut i: usize = 0;
    while i < text.len() && offs[i] < index
        invariant
            i <= text.len(),
            offs.len() == text.len() + 1,
            forall|k: int| 0 <= k <= text.len() ==> offs@[k] == utf8_len(text@.take(k)),
            ceil_from(text@, index as int, 0) == ceil_from(text@, index as int, i as int),
        decreases text.len() - i,
    {
        i += 1;
    }
    i
}

/// Bytes of context kept on each side of the first match.
pub const SNIPPET_CONTEXT_BYTES: u128 = 72;

/// The character range of the snippet around a match at `ms` of `ml`
/// characters: 72 bytes of context on each side, widened to character
/// boundaries.
pub open spec fn snippet_bounds(c: Seq<char>, ms: int, ml: int) -> (int, int) {
    let start_b = utf8_len(c.take(ms));
    let end_b = utf8_len(c.take(ms + ml));
    let total = utf8_len(c);
    let lo = if start_b >= 72 {
        start_b - 72
    } else {
        0
    };
    let hi = if end_b + 72 <= total {
        end_b + 72
    } else {
        total
    };
    (floor_from(c, lo, c.len() as int), ceil_from(c, hi, 0))
}

/// The trimmed text between `from` and `to`, marked with `...` on each side
/// where text was cut.
pub open spec fn snippet_text(c: Seq<char>, from: int, to: int) -> Seq<char> {
    (if from > 0 {
        "..."@
    } else {
        Seq::empty()
    }) + trim(c.subrange(from, to)) + (if to < c.len() {
        "..."@
    } else {
        Seq::empty()
    })
}

/// The highlighted snippet of `text` around the first match of the terms,
/// or `None` when the text is blank or nothing matches.
pub open spec fn match_snippet_spec(text: Seq<char>, terms: Seq<TermSpec>) -> Option<Seq<char>> {
    let c = collapse_ws(text);
    if c.len() == 0 {
        None
    } else {
        match first_match(lower_ascii(c), terms) {
            None => None,
            Some((ms, ml)) => {
                let (from, to) = snippet_bounds(c, ms, ml);
                highlight_spec(snippet_text(c, from, to), terms)
            },
        }
    }
}

/// Builds the highlighted snippet shown for a search hit in readable text.
pub fn build_match_snippet_html_from_text(text: &str, search_terms: &[SearchTerm]) -> (r: Option<
    String,
>)
    ensures
        opt_string_view(r) == match_snippet_spec(text@, term_specs(search_terms@)),
{
    let c = collapse_whitespace_chars(&chars_of(text));
    if c.len() == 0 {
        return None;
    }
    let (ms, ml) = match first_match_range(&c, search_terms) {
        Some(m) => m,
        None => {
            return None;
        },
    };
    let offs = utf8_offsets(&c);
    let start_b = offs[ms];
    let end_b = offs[ms + ml];
    let total = offs[c.len()];
    assert(c@.take(c.len() as int) =~= c@);
    let lo = if start_b >= SNIPPET_CONTEXT_BYTES {
        start_b - SNIPPET_CONTEXT_BYTES
    } else {
        0
    };
    let hi = if end_b + SNIPPET_CONTEXT_BYTES <= total {
        end_b + SNIPPET_CONTEXT_BYTES
    } else {
        total
    };
    let from = floor_char_boundary(&c, &offs, lo);
    let to = ceil_char_boundary(&c, &offs, hi);
    assert(from <= ms) by {
        if from > ms {
            assert(offs@[ms as int] < offs@[from as int]);
        }
    }
    assert(to >= ms + ml) by {
        if to < ms + ml {
            assert(offs@[to as int] < offs@[ms + ml]);
        }
    }
    assert(from as int == snippet_bounds(c@, ms as int, ml as int).0);
    assert(to as int == snippet_bounds(c@, ms as int, ml as int).1);
    let mut snippet: Vec<char> = Vec::new();
    if from > 0 {
        append_all(&mut snippet, &chars_of("..."));
    }
    append_all(&mut snippet, &trim_exec(&subvec(&c, from, to)));
    if to < c.len() {
        append_all(&mut snippet, &chars_of("..."));
    }
    assert(snippet@ =~= snippet_text(c@, from as int, to as int));
    match highlight_chars(&snippet, search_terms) {
        Some(h) => Some(string_from_chars(&h)),
        None => None,
    }
}


// ---------------------------------------------------------------------------
// Laws
// ---------------------------------------------------------------------------

/// Escaped text holds no `<`, `>`, `"` or `'`: it cannot open a tag or end
/// an attribute value.
pub proof fn law_escaped_text_is_inert(s: Seq<char>)
    ensures
        forall|i: int|
            0 <= i < escape_seq(s).len() ==> {
                let c = #[trigger] escape_seq(s)[i];
                c != '<' && c != '>' && c != '"' && c != '\''
            },
    decreases s.len(),
{
    reveal_strlit("&amp;");
    reveal_strlit("&lt;");
    reveal_strlit("&gt;");
    reveal_strlit("&quot;");
    reveal_strlit("&#39;");
    if s.len() > 0 {
        law_escaped_text_is_inert(s.drop_last());
        let prev = escape_seq(s.drop_last());
        let e = escape_char(s.last());
        assert forall|i: int| 0 <= i < escape_seq(s).len() implies {
            let c = #[trigger] escape_seq(s)[i];
            c != '<' && c != '>' && c != '"' && c != '\''
        } by {
            if i < prev.len() {
                assert(escape_seq(s)[i] == prev[i]);
            } else {
                assert(escape_seq(s)[i] == e[i - prev.len()]);
            }
        }
    }
}

proof fn lemma_unquoted_terms_nonempty(ws: Seq<Seq<char>>)
    ensures
        forall|i: int| 0 <= i < unquoted_terms_of(ws).len() ==> (#[trigger] unquoted_terms_of(ws)[i]).value.len() > 0
            && !unquoted_terms_of(ws)[i].exact,
    decreases ws.len(),
{
    if ws.len() > 0 {
        lemma_unquoted_terms_nonempty(ws.drop_last());
        let prev = unquoted_terms_of(ws.drop_last());
        let v = alnum_lowered(ws.last());
        if v.len() > 0 {
            let r = prev.push(TermSpec { value: v, exact: false });
            assert forall|i: int| 0 <= i < r.len() implies (#[trigger] r[i]).value.len() > 0 && !r[i].exact by {
                if i < prev.len() {
                    assert(r[i] == prev[i]);
                }
            }
        }
    }
}

proof fn lemma_terms_state_nonempty(s: Seq<char>)
    ensures
        forall|i: int| 0 <= i < terms_state(s).0.len() ==> (#[trigger] terms_state(s).0[i]).value.len() > 0,
    decreases s.len(),
{
    if s.len() > 0 {
        lemma_terms_state_nonempty(s.drop_last());
        let (terms, fragment, in_quotes) = terms_state(s.drop_last());
        if s.last() == '"' {
            let added = if in_quotes {
                exact_terms(fragment)
            } else {
                unquoted_terms(fragment)
            };
            lemma_unquoted_terms_nonempty(words(fragment));
            assert forall|i: int| 0 <= i < (terms + added).len() implies (#[trigger] (terms + added)[i]).value.len() > 0 by {
                if i >= terms.len() {
                    assert((terms + added)[i] == added[i - terms.len()]);
                }
            }
        }
    }
}

/// Every search term has some text: blank phrases and words without
/// letters or digits yield no term.
pub proof fn law_search_terms_nonempty(free_text: Seq<char>)
    ensures
        forall|i: int| 0 <= i < search_terms_of(free_text).len() ==> (#[trigger] search_terms_of(free_text)[i]).value.len() > 0,
{
    lemma_terms_state_nonempty(free_text);
    let (terms, fragment, _) = terms_state(free_text);
    lemma_unquoted_terms_nonempty(words(fragment));
    let r = terms + unquoted_terms(fragment);
    assert forall|i: int| 0 <= i < r.len() implies (#[trigger] r[i]).value.len() > 0 by {
        if i >= terms.len() {
            assert(r[i] == unquoted_terms(fragment)[i - terms.len()]);
        }
    }
}


/// Highlighted HTML with its `<em>` and `</em>` marks taken out, read from
/// the end.
pub open spec fn unmarked(s: Seq<char>) -> Seq<char>
    decreases s.len(),
{
    if s.len() >= 5 && s.subrange(s.len() - 5, s.len() as int) == "</em>"@ {
        unmarked(s.subrange(0, s.len() - 5))
    } else if s.len() >= 4 && s.subrange(s.len() - 4, s.len() as int) == "<em>"@ {
        unmarked(s.subrange(0, s.len() - 4))
    } else if s.len() > 0 {
        unmarked(s.drop_last()).push(s.last())
    } else {
        Seq::empty()
    }
}

proof fn lemma_escape_char_no_gt(c: char)
    ensures
        forall|i: int| 0 <= i < escape_char(c).len() ==> #[trigger] escape_char(c)[i] != '>',
        escape_char(c).len() > 0,
{
    reveal_strlit("&amp;");
    reveal_strlit("&lt;");
    reveal_strlit("&gt;");
    reveal_strlit("&quot;");
    reveal_strlit("&#39;");
}

proof fn lemma_unmarked_append_plain(y: Seq<char>, e: Seq<char>)
    requires
        forall|i: int| 0 <= i < e.len() ==> #[trigger] e[i] != '>',
    ensures
        unmarked(y + e) == unmarked(y) + e,
    decreases e.len(),
{
    reveal_strlit("</em>");
    reveal_strlit("<em>");
    if e.len() == 0 {
        assert(y + e =~= y);
    } else {
        let t = y + e;
        assert(t.last() == e.last());
        assert(t.last() != '>');
        assert(t.len() >= 5 ==> t.subrange(t.len() - 5, t.len() as int)[4] == t.last());
        assert(t.len() >= 4 ==> t.subrange(t.len() - 4, t.len() as int)[3] == t.last());
        assert(t.drop_last() =~= y + e.drop_last());
        lemma_unmarked_append_plain(y, e.drop_last());
        assert(e.drop_last().push(e.last()) =~= e);
    }
}

proof fn lemma_unmarked_tag(y: Seq<char>, tag: Seq<char>)
    requires
        tag == "<em>"@ || tag == "</em>"@,
    ensures
        unmarked(y + tag) == unmarked(y),
{
    reveal_strlit("</em>");
    reveal_strlit("<em>");
    let t = y + tag;
    if tag == "</em>"@ {
        assert(t.subrange(t.len() - 5, t.len() as int) =~= tag);
        assert(t.subrange(0, t.len() - 5) =~= y);
    } else {
        assert(t.subrange(t.len() - 4, t.len() as int) =~= tag);
        if t.len() >= 5 {
            let last5 = t.subrange(t.len() - 5, t.len() as int);
            assert(last5[1] == t[t.len() - 4]);
            assert(t[t.len() - 4] == tag[0]);
            assert(last5[1] != "</em>"@[1]);
        }
        assert(t.subrange(0, t.len() - 4) =~= y);
    }
}

proof fn lemma_unmarked_highlight(v: Seq<char>, cov: spec_fn(int) -> bool, n: int)
    requires
        0 <= n <= v.len(),
    ensures
        unmarked(highlight_prefix(v, cov, n)) == escape_seq(v.take(n)),
    decreases n,
{
    if n == 0 {
        assert(v.take(0) =~= Seq::<char>::empty());
    } else {
        let p = n - 1;
        lemma_unmarked_highlight(v, cov, n - 1);
        let prev = highlight_prefix(v, cov, n - 1);
        let open: Seq<char> = if cov(p) && (p == 0 || !cov(p - 1)) {
            "<em>"@
        } else {
            Seq::empty()
        };
        let close: Seq<char> = if cov(p) && (p + 1 == v.len() || !cov(p + 1)) {
            "</em>"@
        } else {
            Seq::empty()
        };
        let e = escape_char(v[p]);
        lemma_escape_char_no_gt(v[p]);
        if open.len() > 0 {
            lemma_unmarked_tag(prev, open);
        } else {
            assert(prev + open =~= prev);
        }
        lemma_unmarked_append_plain(prev + open, e);
        if close.len() > 0 {
            lemma_unmarked_tag(prev + open + e, close);
        } else {
            assert(prev + open + e + close =~= prev + open + e);
        }
        assert(v.take(n).drop_last() =~= v.take(n - 1));
        assert(v.take(n).last() == v[p]);
    }
}

/// Highlighting only adds marks: taking the `<em>` and `</em>` out of the
/// highlighted HTML of a value leaves exactly its escaped text.
pub proof fn law_highlight_only_adds_marks(value: Seq<char>, terms: Seq<TermSpec>)
    requires
        highlight_spec(value, terms) is Some,
    ensures
        unmarked(highlight_spec(value, terms)->0) == escape_seq(value),
{
    let norm = lower_ascii(value);
    lemma_unmarked_highlight(value, |p: int| covered(norm, terms, p), value.len() as int);
    assert(value.take(value.len() as int) =~= value);
}

} // verus!
