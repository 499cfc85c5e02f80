//! Font diagnostics for screenshots: which font families are required,
//! whether fontconfig resolves them, and how to install what is missing.
use vstd::prelude::*;

use crate::text::{
    append_all, chars_of, contains_exec, contains_seq, eq_lit, find_exec, find_from,
    is_ascii_alnum, is_ascii_alphanumeric, lemma_find_from_props, lines, lines_exec, lower_ascii,
    lowercase_chars, seq_eq, split_char, split_char_exec, split_once, split_once_exec,
    string_from_chars, strip_quotes, strip_quotes_exec, subvec, to_ascii_lowercase, trim, trim_exec,
    unicode_lowercase, views,
};

verus! {

/// The font fontconfig picked for a required family.
pub struct FontMatchResult {
    pub family: String,
    pub matched_font: Option<String>,
}

/// The font facts recorded with a screenshot artifact.
pub struct ScreenshotFontDiagnostics {
    pub fontconfig_found: bool,
    pub required_families: Vec<String>,
    pub missing_families: Vec<String>,
    pub resolved_matches: Vec<FontMatchResult>,
}

/// What the font check found on this machine.
pub struct FontDiagnostics {
    pub checks_enabled: bool,
    pub applicable: bool,
    pub platform: String,
    pub fontconfig_found: bool,
    pub required_families: Vec<String>,
    pub missing_families: Vec<String>,
    pub resolved_matches: Vec<FontMatchResult>,
    pub install_hint: Option<String>,
    pub fontconfig_error: Option<String>,
}

pub open spec fn strs(v: Seq<String>) -> Seq<Seq<char>> {
    v.map_values(|s: String| s@)
}

pub open spec fn opt_s(o: Option<String>) -> Option<Seq<char>> {
    match o {
        Some(s) => Some(s@),
        None => None,
    }
}

fn clone_string(s: &String) -> (r: String)
    ensures
        r@ == s@,
{
    s.clone()
}

fn clone_opt_string(o: &Option<String>) -> (r: Option<String>)
    ensures
        opt_s(r) == opt_s(*o),
{
    match o {
        Some(s) => Some(clone_string(s)),
        None => None,
    }
}

fn clone_strings(v: &Vec<String>) -> (r: Vec<String>)
    ensures
        strs(r@) == strs(v@),
{
    let mut r: Vec<String> = Vec::new();
    let mut i: usize = 0;
    while i < v.len()
        invariant
            i <= v.len(),
            strs(r@) == strs(v@.take(i as int)),
        decreases v.len() - i,
    {
        let ghost before = r@;
        let c = clone_string(&v[i]);
        r.push(c);
        assert(strs(r@) =~= strs(before).push(v@[i as int]@));
        assert(v@.take(i + 1) =~= v@.take(i as int).push(v@[i as int]));
        i += 1;
        assert(strs(r@) =~= strs(v@.take(i as int)));
    }
    assert(v@.take(i as int) =~= v@);
    r
}

pub open spec fn match_view(m: FontMatchResult) -> (Seq<char>, Option<Seq<char>>) {
    (m.family@, opt_s(m.matched_font))
}

pub open spec fn matches_view(v: Seq<FontMatchResult>) -> Seq<(Seq<char>, Option<Seq<char>>)> {
    v.map_values(|m: FontMatchResult| match_view(m))
}

fn clone_matches(v: &Vec<FontMatchResult>) -> (r: Vec<FontMatchResult>)
    ensures
        matches_view(r@) == matches_view(v@),
{
    let mut r: Vec<FontMatchResult> = Vec::new();
    let mut i: usize = 0;
    while i < v.len()
        invariant
            i <= v.len(),
            matches_view(r@) == matches_view(v@.take(i as int)),
        decreases v.len() - i,
    {
        let ghost before = r@;
        let m = FontMatchResult {
            family: clone_string(&v[i].family),
            matched_font: clone_opt_string(&v[i].matched_font),
        };
        r.push(m);
        assert(matches_view(r@) =~= matches_view(before).push(match_view(v@[i as int])));
        assert(v@.take(i + 1) =~= v@.take(i as int).push(v@[i as int]));
        i += 1;
        assert(matches_view(r@) =~= matches_view(v@.take(i as int)));
    }
    assert(v@.take(i as int) =~= v@);
    r
}

impl FontDiagnostics {
    /// Fonts are missing: the check is on and applies here, and either
    /// fontconfig is absent or some required family did not resolve.
    pub fn has_missing_fonts(&self) -> (b: bool)
        ensures
            b == (self.checks_enabled && self.applicable && (!self.fontconfig_found
                || self.missing_families@.len() > 0)),
    {
        self.checks_enabled && self.applicable && (!self.fontconfig_found
            || self.missing_families.len() > 0)
    }

    /// The facts to record with a screenshot, when the check ran.
    pub fn screenshot_artifact_context(&self) -> (r: Option<ScreenshotFontDiagnostics>)
        ensures
            r is Some <==> self.checks_enabled && self.applicable,
            r matches Some(c) ==> {
                &&& c.fontconfig_found == self.fontconfig_found
                &&& strs(c.required_families@) == strs(self.required_families@)
                &&& strs(c.missing_families@) == strs(self.missing_families@)
                &&& matches_view(c.resolved_matches@) == matches_view(self.resolved_matches@)
            },
    {
        if !self.checks_enabled || !self.applicable {
            return None;
        }
        Some(
            ScreenshotFontDiagnostics {
                fontconfig_found: self.fontconfig_found,
                required_families: clone_strings(&self.required_families),
                missing_families: clone_strings(&self.missing_families),
                resolved_matches: clone_matches(&self.resolved_matches),
            },
        )
    }
}

// ---------------------------------------------------------------------------
// Required families
// ---------------------------------------------------------------------------

/// The families checked when none are configured.
pub const DEFAULT_SCREENSHOT_REQUIRED_FONT_FAMILIES: &'static str =
    "Noto Sans,Noto Serif,Noto Sans Mono,Noto Color Emoji";

/// The comma-separated families of `pieces`, trimmed, blanks dropped, and
/// each kept only the first time it appears ignoring ASCII case.
pub open spec fn families_of(pieces: Seq<Seq<char>>) -> Seq<Seq<char>>
    decreases pieces.len(),
{
    if pieces.len() == 0 {
        Seq::empty()
    } else {
        let prev = families_of(pieces.drop_last());
        let c = trim(pieces.last());
        if c.len() == 0 || exists|i: int|
            0 <= i < prev.len() && lower_ascii(#[trigger] prev[i]) == lower_ascii(c) {
            prev
        } else {
            prev.push(c)
        }
    }
}

pub open spec fn required_families_spec(raw: Seq<char>) -> Seq<Seq<char>> {
    families_of(split_char(raw, ','))
}

fn seen_lower(families: &Vec<Vec<char>>, c: &Vec<char>) -> (b: bool)
    ensures
        b == exists|i: int|
            0 <= i < families@.len() && lower_ascii(#[trigger] families@[i]@) == lower_ascii(c@),
{
    let lc = to_ascii_lowercase(c);
    let mut i: usize = 0;
    while i < families.len()
        invariant
            i <= families.len(),
            lc@ == lower_ascii(c@),
            forall|k: int| 0 <= k < i ==> lower_ascii(#[trigger] families@[k]@) != lower_ascii(c@),
        decreases families.len() - i,
    {
        let lf = to_ascii_lowercase(&families[i]);
        if seq_eq(&lf, &lc) {
            return true;
        }
        i += 1;
    }
    false
}

/// Splits a comma-separated family list: trimmed, blanks dropped, and
/// repeats (ignoring ASCII case) dropped after the first.
pub fn parse_required_families(raw: &str) -> (r: Vec<String>)
    ensures
        strs(r@) == required_families_spec(raw@),
{
    let pieces = split_char_exec(&chars_of(raw), ',');
    let ghost ps = split_char(raw@, ',');
    let mut families: Vec<Vec<char>> = Vec::new();
    let mut i: usize = 0;
    while i < pieces.len()
        invariant
            i <= pieces.len(),
            views(pieces@) == ps,
            views(families@) == families_of(ps.take(i as int)),
        decreases pieces.len() - i,
    {
        assert(ps.take(i + 1).drop_last() =~= ps.take(i as int));
        assert(ps.take(i + 1).last() == pieces@[i as int]@);
        let c = trim_exec(&pieces[i]);
        let ghost prev = families_of(ps.take(i as int));
        let seen = seen_lower(&families, &c);
        proof {
            if seen {
                let k = choose|k: int|
                    0 <= k < families@.len() && lower_ascii(#[trigger] families@[k]@)
                        == lower_ascii(c@);
                assert(prev[k] == families@[k]@);
            } else {
                assert forall|k: int| 0 <= k < prev.len() implies lower_ascii(#[trigger] prev[k])
                    != lower_ascii(c@) by {
                    assert(prev[k] == families@[k]@);
                }
            }
        }
        if c.len() > 0 && !seen {
            let ghost before = families@;
            families.push(c);
            assert(views(families@) =~= views(before).push(c@));
        }
        i += 1;
    }
    assert(ps.take(i as int) =~= ps);
    let mut r: Vec<String> = Vec::new();
    let mut j: usize = 0;
    while j < families.len()
        invariant
            j <= families.len(),
            strs(r@) == views(families@).take(j as int),
        decreases families.len() - j,
    {
        let ghost before = r@;
        let f = string_from_chars(&families[j]);
        r.push(f);
        assert(strs(r@) =~= strs(before).push(families@[j as int]@));
        assert(views(families@).take(j + 1) =~= views(families@).take(j as int).push(
            families@[j as int]@,
        ));
        j += 1;
        assert(strs(r@) =~= views(families@).take(j as int));
    }
    assert(views(families@).take(j as int) =~= views(families@));
    r
}

pub fn default_required_families() -> (r: Vec<String>)
    ensures
        strs(r@) == required_families_spec(DEFAULT_SCREENSHOT_REQUIRED_FONT_FAMILIES@),
{
    parse_required_families(DEFAULT_SCREENSHOT_REQUIRED_FONT_FAMILIES)
}

pub proof fn lemma_families_distinct(pieces: Seq<Seq<char>>)
    ensures
        forall|i: int, j: int|
            0 <= i < j < families_of(pieces).len() ==> lower_ascii(families_of(pieces)[i])
                != lower_ascii(families_of(pieces)[j]),
        forall|i: int| 0 <= i < families_of(pieces).len() ==> families_of(pieces)[i].len() > 0,
    decreases pieces.len(),
{
    if pieces.len() > 0 {
        lemma_families_distinct(pieces.drop_last());
        let prev = families_of(pieces.drop_last());
        let c = trim(pieces.last());
        if !(c.len() == 0 || exists|i: int|
            0 <= i < prev.len() && lower_ascii(#[trigger] prev[i]) == lower_ascii(c)) {
            let f = prev.push(c);
            assert(families_of(pieces) == f);
            assert forall|i: int, j: int| 0 <= i < j < f.len() implies lower_ascii(f[i])
                != lower_ascii(f[j]) by {
                if j == prev.len() {
                    assert(f[j] == c);
                    assert(f[i] == prev[i]);
                } else {
                    assert(f[i] == prev[i] && f[j] == prev[j]);
                }
            }
            assert forall|i: int| 0 <= i < f.len() implies f[i].len() > 0 by {
                if i < prev.len() {
                    assert(f[i] == prev[i]);
                }
            }
        }
    }
}

/// A configured family list never names a family twice, even in another
/// ASCII case, and never names a blank family.
pub proof fn law_required_families_distinct(raw: Seq<char>)
    ensures
        forall|i: int, j: int|
            0 <= i < j < required_families_spec(raw).len() ==> lower_ascii(
                required_families_spec(raw)[i],
            ) != lower_ascii(required_families_spec(raw)[j]),
        forall|i: int|
            0 <= i < required_families_spec(raw).len() ==> required_families_spec(raw)[i].len()
                > 0,
{
    lemma_families_distinct(split_char(raw, ','));
}

// ---------------------------------------------------------------------------
// fc-match output
// ---------------------------------------------------------------------------

/// The family `fc-match` printed: on its first line, the first quoted text
/// when it is not blank, else the text before the first `:` when that is
/// not blank, else the whole (trimmed) line; `None` when that line is blank
/// or there is none.
pub open spec fn fc_match_family(output: Seq<char>) -> Option<Seq<char>> {
    if lines(output).len() == 0 {
        None
    } else {
        let line = trim(lines(output)[0]);
        if line.len() == 0 {
            None
        } else {
            let quoted = match find_from(line, seq!['"'], 0) {
                Some(start) => {
                    let rest = line.skip(start + 1);
                    match find_from(rest, seq!['"'], 0) {
                        Some(end) => {
                            let q = trim(rest.take(end));
                            if q.len() > 0 {
                                Some(q)
                            } else {
                                None
                            }
                        },
                        None => None,
                    }
                },
                None => None,
            };
            match quoted {
                Some(q) => Some(q),
                None => match split_once(line, ':') {
                    Some((before, _)) => if trim(before).len() > 0 {
                        Some(trim(before))
                    } else {
                        Some(line)
                    },
                    None => Some(line),
                },
            }
        }
    }
}

pub fn parse_fc_match_family(output: &str) -> (r: Option<String>)
    ensures
        opt_s(r) == fc_match_family(output@),
{
    let ls = lines_exec(&chars_of(output));
    if ls.len() == 0 {
        return None;
    }
    assert(ls@[0]@ == lines(output@)[0]);
    let line = trim_exec(&ls[0]);
    if line.len() == 0 {
        return None;
    }
    let quote: Vec<char> = vec!['"'];
    assert(quote@ =~= seq!['"']);
    if let Some(start) = find_exec(&line, &quote, 0) {
        proof {
            lemma_find_from_props(line@, quote@, 0);
        }
        let rest = subvec(&line, start + 1, line.len());
        assert(rest@ =~= line@.skip(start + 1));
        if let Some(end) = find_exec(&rest, &quote, 0) {
            proof {
                lemma_find_from_props(rest@, quote@, 0);
            }
            let head = subvec(&rest, 0, end);
            assert(head@ =~= rest@.take(end as int));
            let q = trim_exec(&head);
            if q.len() > 0 {
                return Some(string_from_chars(&q));
            }
        }
    }
    if let Some((before, _)) = split_once_exec(&line, ':') {
        let candidate = trim_exec(&before);
        if candidate.len() > 0 {
            return Some(string_from_chars(&candidate));
        }
    }
    Some(string_from_chars(&line))
}

/// The lower-cased ASCII letters and digits of a family name.
pub open spec fn compact(v: Seq<char>) -> Seq<char>
    decreases v.len(),
{
    if v.len() == 0 {
        Seq::empty()
    } else {
        compact(v.drop_last()) + keep_ascii_alnum(unicode_lowercase(v.last()))
    }
}

pub open spec fn keep_ascii_alnum(s: Seq<char>) -> Seq<char>
    decreases s.len(),
{
    if s.len() == 0 {
        Seq::empty()
    } else if is_ascii_alnum(s.last()) {
        keep_ascii_alnum(s.drop_last()).push(s.last())
    } else {
        keep_ascii_alnum(s.drop_last())
    }
}

fn keep_ascii_alnum_exec(s: &Vec<char>) -> (r: Vec<char>)
    ensures
        r@ == keep_ascii_alnum(s@),
{
    let mut r: Vec<char> = Vec::new();
    let mut i: usize = 0;
    while i < s.len()
        invariant
            i <= s.len(),
            r@ == keep_ascii_alnum(s@.take(i as int)),
        decreases s.len() - i,
    {
        assert(s@.take(i + 1).drop_last() =~= s@.take(i as int));
        if is_ascii_alphanumeric(s[i]) {
            r.push(s[i]);
        }
        i += 1;
    }
    assert(s@.take(i as int) =~= s@);
    r
}

fn compact_chars(v: &Vec<char>) -> (r: Vec<char>)
    ensures
        r@ == compact(v@),
{
    let mut r: Vec<char> = Vec::new();
    let mut i: usize = 0;
    while i < v.len()
        invariant
            i <= v.len(),
            r@ == compact(v@.take(i as int)),
        decreases v.len() - i,
    {
        assert(v@.take(i + 1).drop_last() =~= v@.take(i as int));
        let kept = keep_ascii_alnum_exec(&lowercase_chars(v[i]));
        append_all(&mut r, &kept);
        i += 1;
    }
    assert(v@.take(i as int) =~= v@);
    r
}

pub fn compact_family(value: &str) -> (r: String)
    ensures
        r@ == compact(value@),
{
    string_from_chars(&compact_chars(&chars_of(value)))
}

/// The matched font serves the required family: both compact to something,
/// and the matched name contains the required one.
pub open spec fn satisfies_family(required: Seq<char>, matched: Seq<char>) -> bool {
    let r = compact(required);
    let m = compact(matched);
    r.len() > 0 && m.len() > 0 && (m == r || contains_seq(m, r))
}

pub fn fc_match_satisfies_family(required_family: &str, matched_value: &str) -> (b: bool)
    ensures
        b == satisfies_family(required_family@, matched_value@),
{
    let r = compact_chars(&chars_of(required_family));
    let m = compact_chars(&chars_of(matched_value));
    if r.len() == 0 || m.len() == 0 {
        return false;
    }
    seq_eq(&m, &r) || contains_exec(&m, &r)
}

// ---------------------------------------------------------------------------
// Missing families are required families
// ---------------------------------------------------------------------------

/// `a` is `b` with some elements left out, the rest in order.
pub open spec fn is_subsequence(a: Seq<Seq<char>>, b: Seq<Seq<char>>) -> bool
    decreases b.len(),
{
    if b.len() == 0 {
        a.len() == 0
    } else {
        is_subsequence(a, b.drop_last()) || (a.len() > 0 && a.last() == b.last() && is_subsequence(
            a.drop_last(),
            b.drop_last(),
        ))
    }
}

proof fn lemma_empty_subsequence(b: Seq<Seq<char>>)
    ensures
        forall|a: Seq<Seq<char>>| a.len() == 0 ==> #[trigger] is_subsequence(a, b),
    decreases b.len(),
{
    if b.len() > 0 {
        lemma_empty_subsequence(b.drop_last());
        assert forall|a: Seq<Seq<char>>| a.len() == 0 implies #[trigger] is_subsequence(a, b) by {
            assert(is_subsequence(a, b.drop_last()));
        }
    }
}

proof fn lemma_self_subsequence(b: Seq<Seq<char>>)
    ensures
        is_subsequence(b, b),
    decreases b.len(),
{
    if b.len() > 0 {
        lemma_self_subsequence(b.drop_last());
    }
}

/// The families found missing are required families, in their order:
/// the missing list is a subsequence of the required one.
pub proof fn law_missing_families_are_required(
    families: Seq<Seq<char>>,
    outputs: Seq<Result<Seq<char>, Seq<char>>>,
)
    ensures
        is_subsequence(missing_of(families, outputs), families),
    decreases families.len(),
{
    if families.len() > 0 {
        law_missing_families_are_required(families.drop_last(), outputs);
        let prev = missing_of(families.drop_last(), outputs);
        let k = families.len() - 1;
        assert(families.drop_last().len() == k);
        assert forall|j: int| 0 <= j < k implies families.drop_last()[j] == families[j] by {}
        assert(missing_of(families.drop_last(), outputs) == prev);
        if match_outcome(families[k], outputs[k]).1 {
            assert(missing_of(families, outputs) == prev.push(families[k]));
            assert(prev.push(families[k]).drop_last() =~= prev);
        }
    }
}

// ---------------------------------------------------------------------------
// Putting the diagnostics together
// ---------------------------------------------------------------------------

/// The diagnostics when no fontconfig probe runs: checks switched off (on
/// Linux the check still applies and offers the install hint), or a
/// platform other than Linux. `None` when the probe has to run.
pub fn diagnostics_without_probe(
    checks_enabled: bool,
    is_linux: bool,
    platform: &str,
    required_families: Vec<String>,
    install_hint: Option<String>,
) -> (r: Option<FontDiagnostics>)
    ensures
        r is None <==> checks_enabled && is_linux,
        r matches Some(d) ==> {
            &&& d.checks_enabled == checks_enabled
            &&& d.applicable == (!checks_enabled && is_linux)
            &&& d.platform@ == platform@
            &&& !d.fontconfig_found
            &&& strs(d.required_families@) == strs(required_families@)
            &&& d.missing_families@.len() == 0
            &&& is_subsequence(strs(d.missing_families@), strs(d.required_families@))
            &&& d.resolved_matches@.len() == 0
            &&& opt_s(d.install_hint) == (if !checks_enabled {
                opt_s(install_hint)
            } else {
                None
            })
            &&& d.fontconfig_error is None
        },
{
    proof {
        lemma_empty_subsequence(strs(required_families@));
    }
    if !checks_enabled {
        return Some(
            FontDiagnostics {
                checks_enabled,
                applicable: is_linux,
                platform: platform.to_string(),
                fontconfig_found: false,
                required_families,
                missing_families: Vec::new(),
                resolved_matches: Vec::new(),
                install_hint,
                fontconfig_error: None,
            },
        );
    }
    if !is_linux {
        return Some(
            FontDiagnostics {
                checks_enabled,
                applicable: false,
                platform: platform.to_string(),
                fontconfig_found: false,
                required_families,
                missing_families: Vec::new(),
                resolved_matches: Vec::new(),
                install_hint: None,
                fontconfig_error: None,
            },
        );
    }
    None
}

/// The diagnostics when `fc-list` could not run: every required family is
/// missing.
pub fn diagnostics_without_fontconfig(
    platform: &str,
    required_families: Vec<String>,
    install_hint: Option<String>,
    error: String,
) -> (d: FontDiagnostics)
    ensures
        d.checks_enabled && d.applicable && !d.fontconfig_found,
        d.platform@ == platform@,
        strs(d.missing_families@) == strs(required_families@),
        strs(d.required_families@) == strs(required_families@),
        is_subsequence(strs(d.missing_families@), strs(d.required_families@)),
        d.resolved_matches@.len() == 0,
        opt_s(d.install_hint) == opt_s(install_hint),
        opt_s(d.fontconfig_error) == Some(error@),
{
    proof {
        lemma_self_subsequence(strs(required_families@));
    }
    FontDiagnostics {
        checks_enabled: true,
        applicable: true,
        platform: platform.to_string(),
        fontconfig_found: false,
        missing_families: clone_strings(&required_families),
        required_families,
        resolved_matches: Vec::new(),
        install_hint,
        fontconfig_error: Some(error),
    }
}

/// What the `fc-match` output for one family says: the family it printed,
/// and whether the required family counts as missing.
pub open spec fn match_outcome(family: Seq<char>, output: Result<Seq<char>, Seq<char>>) -> (
    Option<Seq<char>>,
    bool,
) {
    match output {
        Ok(out) => {
            let m = fc_match_family(out);
            let value = match m {
                Some(v) => v,
                None => out,
            };
            (m, !satisfies_family(family, value))
        },
        Err(_) => (None, true),
    }
}

pub open spec fn result_view(r: Result<String, String>) -> Result<Seq<char>, Seq<char>> {
    match r {
        Ok(s) => Ok(s@),
        Err(e) => Err(e@),
    }
}

/// The families whose outcome is "missing", in order.
pub open spec fn missing_of(
    families: Seq<Seq<char>>,
    outputs: Seq<Result<Seq<char>, Seq<char>>>,
) -> Seq<Seq<char>>
    decreases families.len(),
{
    if families.len() == 0 {
        Seq::empty()
    } else {
        let prev = missing_of(families.drop_last(), outputs);
        let k = families.len() - 1;
        if match_outcome(families[k], outputs[k]).1 {
            prev.push(families[k])
        } else {
            prev
        }
    }
}

/// The diagnostics once `fc-list` ran and `outputs[i]` is what `fc-match`
/// answered for `required_families[i]`.
pub fn diagnostics_from_matches(
    platform: &str,
    required_families: Vec<String>,
    outputs: &Vec<Result<String, String>>,
    install_hint: Option<String>,
) -> (d: FontDiagnostics)
    requires
        outputs.len() == required_families.len(),
    ensures
        d.checks_enabled && d.applicable && d.fontconfig_found,
        d.platform@ == platform@,
        strs(d.required_families@) == strs(required_families@),
        strs(d.missing_families@) == missing_of(
            strs(required_families@),
            outputs@.map_values(|r: Result<String, String>| result_view(r)),
        ),
        is_subsequence(strs(d.missing_families@), strs(d.required_families@)),
        d.resolved_matches@.len() == required_families@.len(),
        forall|i: int|
            0 <= i < required_families@.len() ==> match_view(#[trigger] d.resolved_matches@[i]) == (
            required_families@[i]@,
            match_outcome(required_families@[i]@, result_view(outputs@[i])).0,
        ),
        opt_s(d.install_hint) == opt_s(install_hint),
        d.fontconfig_error is None,
{
    let ghost fams = strs(required_families@);
    let ghost outs = outputs@.map_values(|r: Result<String, String>| result_view(r));
    let mut missing: Vec<String> = Vec::new();
    let mut resolved: Vec<FontMatchResult> = Vec::new();
    let mut i: usize = 0;
    while i < required_families.len()
        invariant
            i <= required_families.len(),
            outputs.len() == required_families.len(),
            fams == strs(required_families@),
            outs == outputs@.map_values(|r: Result<String, String>| result_view(r)),
            strs(missing@) == missing_of(fams.take(i as int), outs),
            resolved@.len() == i,
            forall|k: int|
                0 <= k < i ==> match_view(#[trigger] resolved@[k]) == (
                    required_families@[k]@,
                    match_outcome(required_families@[k]@, result_view(outputs@[k])).0,
                ),
        decreases required_families.len() - i,
    {
        assert(fams.take(i + 1).drop_last() =~= fams.take(i as int));
        assert(fams.take(i + 1)[i as int] == required_families@[i as int]@);
        assert(outs[i as int] == result_view(outputs@[i as int]));
        let family = &required_families[i];
        let ghost before = missing@;
        match &outputs[i] {
            Ok(out) => {
                let matched = parse_fc_match_family(out.as_str());
                let satisfied = match &matched {
                    Some(v) => fc_match_satisfies_family(family.as_str(), v.as_str()),
                    None => fc_match_satisfies_family(family.as_str(), out.as_str()),
                };
                if !satisfied {
                    missing.push(clone_string(family));
                    assert(strs(missing@) =~= strs(before).push(family@));
                }
                resolved.push(FontMatchResult { family: clone_string(family), matched_font: matched });
            },
            Err(_) => {
                missing.push(clone_string(family));
                assert(strs(missing@) =~= strs(before).push(family@));
                resolved.push(FontMatchResult { family: clone_string(family), matched_font: None });
            },
        }
        i += 1;
    }
    assert(fams.take(i as int) =~= fams);
    proof {
        law_missing_families_are_required(fams, outs);
    }
    FontDiagnostics {
        checks_enabled: true,
        applicable: true,
        platform: platform.to_string(),
        fontconfig_found: true,
        required_families,
        missing_families: missing,
        resolved_matches: resolved,
        install_hint,
        fontconfig_error: None,
    }
}

// ---------------------------------------------------------------------------
// Package managers
// ---------------------------------------------------------------------------

#[derive(Clone, Copy, Debug, PartialEq, Eq, Structural)]
pub enum LinuxPackageManager {
    Apt,
    Dnf,
    Apk,
    Unknown,
}

/// The `ID` and `ID_LIKE` values of os-release lines, unquoted, lower-cased
/// and joined with spaces.
pub open spec fn os_tags(ls: Seq<Seq<char>>) -> Seq<char>
    decreases ls.len(),
{
    if ls.len() == 0 {
        Seq::empty()
    } else {
        let prev = os_tags(ls.drop_last());
        match split_once(trim(ls.last()), '=') {
            Some((k, v)) => if k == "ID"@ || k == "ID_LIKE"@ {
                (if prev.len() > 0 {
                    prev.push(' ')
                } else {
                    prev
                }) + lower_ascii(strip_quotes(trim(v)))
            } else {
                prev
            },
            None => prev,
        }
    }
}

/// The package manager an os-release file points to: Alpine's, then the
/// Debian family's, then the Red Hat and SUSE family's.
pub open spec fn package_manager_spec(os_release: Option<Seq<char>>) -> LinuxPackageManager {
    match os_release {
        None => LinuxPackageManager::Unknown,
        Some(s) => {
            let t = os_tags(lines(s));
            if contains_seq(t, "alpine"@) {
                LinuxPackageManager::Apk
            } else if contains_seq(t, "debian"@) || contains_seq(t, "ubuntu"@) || contains_seq(
                t,
                "linuxmint"@,
            ) || contains_seq(t, "pop"@) {
                LinuxPackageManager::Apt
            } else if contains_seq(t, "fedora"@) || contains_seq(t, "rhel"@) || contains_seq(
                t,
                "centos"@,
            ) || contains_seq(t, "rocky"@) || contains_seq(t, "almalinux"@) || contains_seq(
                t,
                "suse"@,
            ) {
                LinuxPackageManager::Dnf
            } else {
                LinuxPackageManager::Unknown
            }
        },
    }
}

/// Distributions of the Debian family, which install with apt.
pub open spec fn apt_distros() -> Seq<Seq<char>> {
    seq!["debian"@, "ubuntu"@, "linuxmint"@, "pop"@]
}

/// Distributions of the Red Hat and SUSE families, which install with dnf.
pub open spec fn dnf_distros() -> Seq<Seq<char>> {
    seq!["fedora"@, "rhel"@, "centos"@, "rocky"@, "almalinux"@, "suse"@]
}

pub open spec fn names_one_of(tags: Seq<char>, distros: Seq<Seq<char>>) -> bool {
    exists|i: int| 0 <= i < distros.len() && contains_seq(tags, #[trigger] distros[i])
}

/// Which package manager an os-release file points to, by the
/// distributions its `ID` and `ID_LIKE` values name: Alpine's apk exactly
/// when one names Alpine; otherwise apt when one names a Debian-family
/// distribution; otherwise dnf when one names a Red Hat or SUSE one;
/// otherwise, and without a file, none known.
pub proof fn law_package_manager_by_distribution(os_release: Seq<char>)
    ensures
        ({
            let tags = os_tags(lines(os_release));
            let pm = package_manager_spec(Some(os_release));
            &&& (pm == LinuxPackageManager::Apk) == contains_seq(tags, "alpine"@)
            &&& !contains_seq(tags, "alpine"@) && names_one_of(tags, apt_distros()) ==> pm
                == LinuxPackageManager::Apt
            &&& !contains_seq(tags, "alpine"@) && !names_one_of(tags, apt_distros()) && names_one_of(
                tags,
                dnf_distros(),
            ) ==> pm == LinuxPackageManager::Dnf
            &&& !contains_seq(tags, "alpine"@) && !names_one_of(tags, apt_distros())
                && !names_one_of(tags, dnf_distros()) ==> pm == LinuxPackageManager::Unknown
        }),
        package_manager_spec(None) == LinuxPackageManager::Unknown,
{
    let tags = os_tags(lines(os_release));
    let a = apt_distros();
    let d = dnf_distros();
    assert(a[0] == "debian"@ && a[1] == "ubuntu"@ && a[2] == "linuxmint"@ && a[3] == "pop"@);
    assert(d[0] == "fedora"@ && d[1] == "rhel"@ && d[2] == "centos"@ && d[3] == "rocky"@ && d[4]
        == "almalinux"@ && d[5] == "suse"@);
    if names_one_of(tags, a) {
        let i = choose|i: int| 0 <= i < a.len() && contains_seq(tags, #[trigger] a[i]);
        assert(i == 0 || i == 1 || i == 2 || i == 3);
    }
    if names_one_of(tags, d) {
        let i = choose|i: int| 0 <= i < d.len() && contains_seq(tags, #[trigger] d[i]);
        assert(i == 0 || i == 1 || i == 2 || i == 3 || i == 4 || i == 5);
    }
    if contains_seq(tags, "debian"@) {
        assert(contains_seq(tags, a[0]));
    }
    if contains_seq(tags, "ubuntu"@) {
        assert(contains_seq(tags, a[1]));
    }
    if contains_seq(tags, "linuxmint"@) {
        assert(contains_seq(tags, a[2]));
    }
    if contains_seq(tags, "pop"@) {
        assert(contains_seq(tags, a[3]));
    }
    if contains_seq(tags, "fedora"@) {
        assert(contains_seq(tags, d[0]));
    }
    if contains_seq(tags, "rhel"@) {
        assert(contains_seq(tags, d[1]));
    }
    if contains_seq(tags, "centos"@) {
        assert(contains_seq(tags, d[2]));
    }
    if contains_seq(tags, "rocky"@) {
        assert(contains_seq(tags, d[3]));
    }
    if contains_seq(tags, "almalinux"@) {
        assert(contains_seq(tags, d[4]));
    }
    if contains_seq(tags, "suse"@) {
        assert(contains_seq(tags, d[5]));
    }
}

fn has(t: &Vec<char>, word: &str) -> (b: bool)
    ensures
        b == contains_seq(t@, word@),
{
    contains_exec(t, &chars_of(word))
}

pub fn package_manager_hint(os_release: Option<&str>) -> (r: LinuxPackageManager)
    ensures
        r == package_manager_spec(
            match os_release {
                Some(s) => Some(s@),
                None => None,
            },
        ),
{
    let s = match os_release {
        Some(s) => s,
        None => {
            return LinuxPackageManager::Unknown;
        },
    };
    let ls = lines_exec(&chars_of(s));
    let ghost lv = lines(s@);
    let mut tags: Vec<char> = Vec::new();
    let mut i: usize = 0;
    while i < ls.len()
        invariant
            i <= ls.len(),
            views(ls@) == lv,
            tags@ == os_tags(lv.take(i as int)),
        decreases ls.len() - i,
    {
        assert(lv.take(i + 1).drop_last() =~= lv.take(i as int));
        assert(lv.take(i + 1).last() == ls@[i as int]@);
        let line = trim_exec(&ls[i]);
        if let Some((k, v)) = split_once_exec(&line, '=') {
            if eq_lit(&k, "ID") || eq_lit(&k, "ID_LIKE") {
                let cleaned = to_ascii_lowercase(&strip_quotes_exec(&trim_exec(&v)));
                if tags.len() > 0 {
                    tags.push(' ');
                }
                append_all(&mut tags, &cleaned);
            }
        }
        i += 1;
    }
    assert(lv.take(i as int) =~= lv);
    if has(&tags, "alpine") {
        LinuxPackageManager::Apk
    } else if has(&tags, "debian") || has(&tags, "ubuntu") || has(&tags, "linuxmint") || has(
        &tags,
        "pop",
    ) {
        LinuxPackageManager::Apt
    } else if has(&tags, "fedora") || has(&tags, "rhel") || has(&tags, "centos") || has(
        &tags,
        "rocky",
    ) || has(&tags, "almalinux") || has(&tags, "suse") {
        LinuxPackageManager::Dnf
    } else {
        LinuxPackageManager::Unknown
    }
}

pub const APT_INSTALL_HINT: &'static str =
    "apt install -y fontconfig fonts-noto fonts-noto-cjk fonts-noto-color-emoji";

pub const DNF_INSTALL_HINT: &'static str =
    "dnf install -y fontconfig google-noto-sans-fonts google-noto-serif-fonts google-noto-sans-mono-fonts google-noto-color-emoji-fonts";

pub const APK_INSTALL_HINT: &'static str =
    "apk add --no-cache fontconfig ttf-dejavu font-noto font-noto-cjk font-noto-emoji";

/// The install command to suggest for a package manager; for an unknown
/// one, all three with the distributions they belong to.
pub open spec fn install_hint_spec(pm: LinuxPackageManager) -> Seq<char> {
    match pm {
        LinuxPackageManager::Apt => APT_INSTALL_HINT@,
        LinuxPackageManager::Dnf => DNF_INSTALL_HINT@,
        LinuxPackageManager::Apk => APK_INSTALL_HINT@,
        LinuxPackageManager::Unknown => "Install fontconfig + Noto fonts with your distro package manager.\nDebian/Ubuntu: "@
            + APT_INSTALL_HINT@ + "\nFedora/RHEL: "@ + DNF_INSTALL_HINT@ + "\nAlpine: "@
            + APK_INSTALL_HINT@,
    }
}

pub fn install_hint_for(pm: LinuxPackageManager) -> (r: String)
    ensures
        r@ == install_hint_spec(pm),
{
    match pm {
        LinuxPackageManager::Apt => APT_INSTALL_HINT.to_string(),
        LinuxPackageManager::Dnf => DNF_INSTALL_HINT.to_string(),
        LinuxPackageManager::Apk => APK_INSTALL_HINT.to_string(),
        LinuxPackageManager::Unknown => {
            let mut out = chars_of(
                "Install fontconfig + Noto fonts with your distro package manager.\nDebian/Ubuntu: ",
            );
            append_all(&mut out, &chars_of(APT_INSTALL_HINT));
            append_all(&mut out, &chars_of("\nFedora/RHEL: "));
            append_all(&mut out, &chars_of(DNF_INSTALL_HINT));
            append_all(&mut out, &chars_of("\nAlpine: "));
            append_all(&mut out, &chars_of(APK_INSTALL_HINT));
            string_from_chars(&out)
        },
    }
}

/// A boolean setting: `1`, `true`, `yes`, `on` and `0`, `false`, `no`,
/// `off` (trimmed, any ASCII case); anything else, or no value, gives the
/// default.
pub open spec fn bool_setting(value: Option<Seq<char>>, default: bool) -> bool {
    match value {
        Some(v) => {
            let l = lower_ascii(trim(v));
            if l == "1"@ || l == "true"@ || l == "yes"@ || l == "on"@ {
                true
            } else if l == "0"@ || l == "false"@ || l == "no"@ || l == "off"@ {
                false
            } else {
                default
            }
        },
        None => default,
    }
}

pub fn parse_bool_setting(value: Option<&str>, default: bool) -> (b: bool)
    ensures
        b == bool_setting(
            match value {
                Some(v) => Some(v@),
                None => None,
            },
            default,
        ),
{
    match value {
        Some(v) => {
            let l = to_ascii_lowercase(&trim_exec(&chars_of(v)));
            if eq_lit(&l, "1") || eq_lit(&l, "true") || eq_lit(&l, "yes") || eq_lit(&l, "on") {
                true
            } else if eq_lit(&l, "0") || eq_lit(&l, "false") || eq_lit(&l, "no") || eq_lit(
                &l,
                "off",
            ) {
                false
            } else {
                default
            }
        },
        None => default,
    }
}

} // verus!
