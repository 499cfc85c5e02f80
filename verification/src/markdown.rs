//! Reduction of stored Markdown to the plain text that search snippets show.
use vstd::prelude::*;

use crate::text::{
    append_all, chars_of, collapse_whitespace_chars, collapse_ws, find_exec, find_from, join,
    join_exec, lemma_find_from_props, lines, lines_exec, matches_at_exec, starts_with,
    string_from_chars, subvec, trim_start, trim_start_exec, views,
};

verus! {

// ---------------------------------------------------------------------------
// Replacing substrings
// ---------------------------------------------------------------------------

/// `str::replace(pat, to)` applied to `s` from index `from` on: the
/// non-overlapping occurrences of `pat`, found left to right, become `to`.
pub open spec fn replace_from(s: Seq<char>, pat: Seq<char>, to: Seq<char>, from: int) -> Seq<char>
    decreases s.len() + 1 - from,
{
    if pat.len() == 0 || from < 0 || from > s.len() {
        Seq::empty()
    } else {
        match find_from(s, pat, from) {
            None => s.subrange(from, s.len() as int),
            Some(i) => if i < from || i + pat.len() > s.len() {
                s.subrange(from, s.len() as int)
            } else {
                s.subrange(from, i) + to + replace_from(s, pat, to, i + pat.len())
            },
        }
    }
}

/// `str::replace(pat, to)` for a non-empty pattern.
pub open spec fn replace_all(s: Seq<char>, pat: Seq<char>, to: Seq<char>) -> Seq<char> {
    replace_from(s, pat, to, 0)
}

pub fn replace_exec(s: &Vec<char>, pat: &Vec<char>, to: &Vec<char>) -> (r: Vec<char>)
    requires
        pat.len() > 0,
    ensures
        r@ == replace_all(s@, pat@, to@),
{
    let mut out: Vec<char> = Vec::new();
    let mut cursor: usize = 0;
    assert(out@ + replace_from(s@, pat@, to@, 0) =~= replace_all(s@, pat@, to@));
    loop
        invariant
            cursor <= s.len(),
            pat.len() > 0,
            out@ + replace_from(s@, pat@, to@, cursor as int) == replace_all(s@, pat@, to@),
        decreases s.len() - cursor,
    {
        match find_exec(s, pat, cursor) {
            None => {
                let rest = subvec(s, cursor, s.len());
                append_all(&mut out, &rest);
                return out;
            },
            Some(i) => {
                proof {
                    lemma_find_from_props(s@, pat@, cursor as int);
                }
                let ghost before = out@;
                append_all(&mut out, &subvec(s, cursor, i));
                append_all(&mut out, to);
                assert(before + replace_from(s@, pat@, to@, cursor as int) =~= out@ + replace_from(
                    s@,
                    pat@,
                    to@,
                    i + pat.len(),
                ));
                cursor = i + pat.len();
            },
        }
    }
}

fn replace_lit(s: &Vec<char>, pat: &str, to: &str) -> (r: Vec<char>)
    requires
        pat@.len() > 0,
    ensures
        r@ == replace_all(s@, pat@, to@),
{
    replace_exec(s, &chars_of(pat), &chars_of(to))
}

// ---------------------------------------------------------------------------
// Links
// ---------------------------------------------------------------------------

/// The scan of `[label](destination)` links: `out` is the text produced so
/// far and `cursor` the next unread index. A link becomes its label, an
/// image link (`!` before `[`) loses the `!` too; a `[` without a closing
/// `]`, or a `(` without a closing `)`, ends the scan with the rest copied.
pub open spec fn links_from(s: Seq<char>, out: Seq<char>, cursor: int) -> Seq<char>
    decreases s.len() + 1 - cursor,
{
    if cursor < 0 || cursor > s.len() {
        out
    } else {
        match find_from(s, seq!['['], cursor) {
            None => out + s.subrange(cursor, s.len() as int),
            Some(start) => {
                proof {
                    lemma_find_from_props(s, seq!['['], cursor);
                }
                let out1 = out + s.subrange(cursor, start);
                let label_start = start + 1;
                match find_from(s, seq![']'], label_start) {
                    None => out1 + s.subrange(start, s.len() as int),
                    Some(label_end) => {
                        proof {
                            lemma_find_from_props(s, seq![']'], label_start);
                        }
                        if label_end + 1 >= s.len() || s[label_end + 1] != '(' {
                            links_from(s, out1.push('['), label_start)
                        } else {
                            match find_from(s, seq![')'], label_end + 2) {
                                None => out1 + s.subrange(start, s.len() as int),
                                Some(dest_end) => {
                                    proof {
                                        lemma_find_from_props(s, seq![')'], label_end + 2);
                                    }
                                    let out2 = if start > 0 && s[start - 1] == '!' && out1.len()
                                        > 0 {
                                        out1.drop_last()
                                    } else {
                                        out1
                                    };
                                    links_from(
                                        s,
                                        out2 + s.subrange(label_start, label_end),
                                        dest_end + 1,
                                    )
                                },
                            }
                        }
                    },
                }
            },
        }
    }
}

/// Markdown with every `[label](destination)` link replaced by its label.
pub open spec fn links_replaced(s: Seq<char>) -> Seq<char> {
    links_from(s, Seq::empty(), 0)
}

fn replace_markdown_links_chars(s: &Vec<char>) -> (r: Vec<char>)
    ensures
        r@ == links_replaced(s@),
{
    let mut out: Vec<char> = Vec::new();
    let mut cursor: usize = 0;
    let open: Vec<char> = vec!['['];
    let close: Vec<char> = vec![']'];
    let paren: Vec<char> = vec![')'];
    assert(open@ =~= seq!['[']);
    assert(close@ =~= seq![']']);
    assert(paren@ =~= seq![')']);
    loop
        invariant
            cursor <= s.len(),
            open@ == seq!['['],
            close@ == seq![']'],
            paren@ == seq![')'],
            links_from(s@, out@, cursor as int) == links_replaced(s@),
        decreases s.len() - cursor,
    {
        let start = match find_exec(s, &open, cursor) {
            Some(i) => i,
            None => {
                append_all(&mut out, &subvec(s, cursor, s.len()));
                return out;
            },
        };
        proof {
            lemma_find_from_props(s@, open@, cursor as int);
        }
        append_all(&mut out, &subvec(s, cursor, start));
        let label_start = start + 1;
        let label_end = match find_exec(s, &close, label_start) {
            Some(i) => i,
            None => {
                append_all(&mut out, &subvec(s, start, s.len()));
                return out;
            },
        };
        proof {
            lemma_find_from_props(s@, close@, label_start as int);
        }
        if label_end + 1 >= s.len() || s[label_end + 1] != '(' {
            out.push('[');
            cursor = label_start;
        } else {
            let dest_end = match find_exec(s, &paren, label_end + 2) {
                Some(i) => i,
                None => {
                    append_all(&mut out, &subvec(s, start, s.len()));
                    return out;
                },
            };
            proof {
                lemma_find_from_props(s@, paren@, label_end + 2);
            }
            if start > 0 && s[start - 1] == '!' && out.len() > 0 {
                out.pop();
            }
            append_all(&mut out, &subvec(s, label_start, label_end));
            cursor = dest_end + 1;
        }
    }
}

/// Replaces every Markdown link by its label.
pub fn replace_markdown_links(input: &str) -> (r: String)
    ensures
        r@ == links_replaced(input@),
{
    string_from_chars(&replace_markdown_links_chars(&chars_of(input)))
}

// ---------------------------------------------------------------------------
// Line prefixes
// ---------------------------------------------------------------------------

pub proof fn lemma_trim_start_len(s: Seq<char>)
    ensures
        trim_start(s).len() <= s.len(),
    decreases s.len(),
{
    if s.len() > 0 {
        lemma_trim_start_len(s.drop_first());
    }
}

/// Drops leading `>` quote markers, each with the whitespace after it.
pub open spec fn strip_quote_markers(v: Seq<char>) -> Seq<char>
    decreases v.len(),
{
    if v.len() > 0 && v[0] == '>' {
        proof {
            lemma_trim_start_len(v.drop_first());
        }
        strip_quote_markers(trim_start(v.drop_first()))
    } else {
        v
    }
}

/// Heading and bullet markers, in the order they are tried.
pub open spec fn line_markers() -> Seq<Seq<char>> {
    seq![
        "# "@,
        "## "@,
        "### "@,
        "#### "@,
        "##### "@,
        "###### "@,
        "- "@,
        "* "@,
        "+ "@,
    ]
}

/// The rest of `v` after the first of `markers` that starts it, trimmed.
pub open spec fn strip_first_marker(v: Seq<char>, markers: Seq<Seq<char>>) -> Option<Seq<char>>
    decreases markers.len(),
{
    if markers.len() == 0 {
        None
    } else if starts_with(v, markers[0]) {
        Some(trim_start(v.skip(markers[0].len() as int)))
    } else {
        strip_first_marker(v, markers.drop_first())
    }
}

/// `n` `#` characters: the marker of a level-`n` heading, without its space.
pub open spec fn hashes(n: nat) -> Seq<char> {
    Seq::new(n, |i: int| '#')
}

proof fn lemma_first_marker(v: Seq<char>, markers: Seq<Seq<char>>, k: int)
    requires
        0 <= k < markers.len(),
        starts_with(v, markers[k]),
        forall|j: int| 0 <= j < k ==> !starts_with(v, #[trigger] markers[j]),
    ensures
        strip_first_marker(v, markers) == Some(trim_start(v.skip(markers[k].len() as int))),
    decreases k,
{
    if k > 0 {
        let rest = markers.drop_first();
        assert(!starts_with(v, markers[0]));
        assert forall|j: int| 0 <= j < k - 1 implies !starts_with(v, #[trigger] rest[j]) by {
            assert(rest[j] == markers[j + 1]);
        }
        assert(rest[k - 1] == markers[k]);
        lemma_first_marker(v, rest, k - 1);
    }
}

proof fn lemma_line_markers()
    ensures
        line_markers().len() == 9,
        forall|k: int| 0 <= k < 6 ==> #[trigger] line_markers()[k] == hashes((k + 1) as nat) + seq![' '],
        line_markers()[6] == seq!['-', ' '],
        line_markers()[7] == seq!['*', ' '],
        line_markers()[8] == seq!['+', ' '],
{
    reveal_strlit("# ");
    reveal_strlit("## ");
    reveal_strlit("### ");
    reveal_strlit("#### ");
    reveal_strlit("##### ");
    reveal_strlit("###### ");
    reveal_strlit("- ");
    reveal_strlit("* ");
    reveal_strlit("+ ");
    let ms = line_markers();
    assert(ms[0] =~= hashes(1) + seq![' ']);
    assert(ms[1] =~= hashes(2) + seq![' ']);
    assert(ms[2] =~= hashes(3) + seq![' ']);
    assert(ms[3] =~= hashes(4) + seq![' ']);
    assert(ms[4] =~= hashes(5) + seq![' ']);
    assert(ms[5] =~= hashes(6) + seq![' ']);
    assert(ms[6] =~= seq!['-', ' ']);
    assert(ms[7] =~= seq!['*', ' ']);
    assert(ms[8] =~= seq!['+', ' ']);
}

/// A heading line (`#` one to six times, then a space) loses its marker:
/// what is left is the heading's text without its leading whitespace. So
/// does a bullet line (`-`, `*` or `+`, then a space).
pub proof fn law_line_markers_stripped(n: nat, bullet: char, text: Seq<char>)
    requires
        1 <= n <= 6,
        bullet == '-' || bullet == '*' || bullet == '+',
    ensures
        line_prefix_stripped(hashes(n) + seq![' '] + text) == trim_start(text),
        line_prefix_stripped(seq![bullet, ' '] + text) == trim_start(text),
{
    lemma_line_markers();
    let ms = line_markers();
    let l = hashes(n) + seq![' '] + text;
    assert(l[0] == '#');
    assert(trim_start(l) == l);
    assert(strip_quote_markers(l) == l);
    assert forall|j: int| 0 <= j < n - 1 implies !starts_with(l, #[trigger] ms[j]) by {
        assert(ms[j] == hashes((j + 1) as nat) + seq![' ']);
        assert(l.subrange(0, ms[j].len() as int)[j + 1] != ms[j][j + 1]);
    }
    let k = n - 1;
    assert(ms[k] == hashes(n) + seq![' ']);
    assert(l.subrange(0, ms[k].len() as int) =~= ms[k]);
    lemma_first_marker(l, ms, k);
    assert(l.skip(ms[k].len() as int) =~= text);

    let b = seq![bullet, ' '] + text;
    assert(trim_start(b) == b);
    assert(strip_quote_markers(b) == b);
    let kb: int = if bullet == '-' {
        6
    } else if bullet == '*' {
        7
    } else {
        8
    };
    assert forall|j: int| 0 <= j < kb implies !starts_with(b, #[trigger] ms[j]) by {
        assert(b[0] == bullet);
        if j < 6 {
            assert(ms[j] == hashes((j + 1) as nat) + seq![' ']);
            assert(hashes((j + 1) as nat)[0] == '#');
            assert(ms[j][0] == '#');
        } else if j == 6 {
            assert(ms[j][0] == '-');
        } else {
            assert(ms[j][0] == '*');
        }
        assert(ms[j].len() >= 2);
        if ms[j].len() <= b.len() {
            assert(b.subrange(0, ms[j].len() as int)[0] != ms[j][0]);
        }
    }
    assert(b.subrange(0, 2) =~= ms[kb]);
    lemma_first_marker(b, ms, kb);
    assert(b.skip(2) =~= text);
}

proof fn lemma_no_marker(v: Seq<char>, markers: Seq<Seq<char>>)
    requires
        forall|j: int| 0 <= j < markers.len() ==> !starts_with(v, #[trigger] markers[j]),
    ensures
        strip_first_marker(v, markers) is None,
    decreases markers.len(),
{
    if markers.len() > 0 {
        let rest = markers.drop_first();
        assert(!starts_with(v, markers[0]));
        assert forall|j: int| 0 <= j < rest.len() implies !starts_with(v, #[trigger] rest[j]) by {
            assert(rest[j] == markers[j + 1]);
        }
        lemma_no_marker(v, rest);
    }
}

proof fn lemma_digit_prefix(ds: Seq<char>, rest: Seq<char>)
    requires
        forall|i: int| 0 <= i < ds.len() ==> '0' <= #[trigger] ds[i] && ds[i] <= '9',
        rest.len() > 0 ==> !('0' <= rest[0] && rest[0] <= '9'),
    ensures
        digit_prefix_len(ds + rest) == ds.len(),
    decreases ds.len(),
{
    if ds.len() > 0 {
        assert((ds + rest).drop_first() =~= ds.drop_first() + rest);
        lemma_digit_prefix(ds.drop_first(), rest);
    } else {
        assert(ds + rest =~= rest);
    }
}

/// A numbered-list line (one or more ASCII digits, a `.` and a space)
/// loses its number: what is left is the item's text without its leading
/// whitespace; and a quote marker `>` in front of a line changes nothing
/// of what is left of it.
pub proof fn law_list_numbers_and_quotes_stripped(digits: Seq<char>, text: Seq<char>, line: Seq<char>)
    requires
        digits.len() > 0,
        forall|i: int| 0 <= i < digits.len() ==> '0' <= #[trigger] digits[i] && digits[i] <= '9',
    ensures
        line_prefix_stripped(digits + seq!['.', ' '] + text) == trim_start(text),
        line_prefix_stripped(seq!['>'] + line) == line_prefix_stripped(line),
{
    lemma_line_markers();
    let ms = line_markers();
    let v = digits + seq!['.', ' '] + text;
    assert(v[0] == digits[0]);
    assert(trim_start(v) == v);
    assert(strip_quote_markers(v) == v);
    assert forall|j: int| 0 <= j < ms.len() implies !starts_with(v, #[trigger] ms[j]) by {
        if j < 6 {
            assert(ms[j] == hashes((j + 1) as nat) + seq![' ']);
            assert(hashes((j + 1) as nat)[0] == '#');
            assert(ms[j][0] == '#');
        } else if j == 6 {
            assert(ms[j][0] == '-');
        } else if j == 7 {
            assert(ms[j][0] == '*');
        } else {
            assert(ms[j][0] == '+');
        }
        if ms[j].len() <= v.len() {
            assert(v.subrange(0, ms[j].len() as int)[0] != ms[j][0]);
        }
    }
    lemma_no_marker(v, ms);
    assert(v =~= digits + (seq!['.', ' '] + text));
    lemma_digit_prefix(digits, seq!['.', ' '] + text);
    reveal_strlit(". ");
    assert(v.skip(digits.len() as int) =~= seq!['.', ' '] + text);
    assert(v.skip(digits.len() as int).subrange(0, 2) =~= ". "@);
    assert(v.skip((digits.len() + 2) as int) =~= text);

    let q = seq!['>'] + line;
    assert(trim_start(q) == q);
    assert(q.drop_first() =~= line);
}

/// The number of ASCII digits that start `v`.
pub open spec fn digit_prefix_len(v: Seq<char>) -> int
    decreases v.len(),
{
    if v.len() > 0 && '0' <= v[0] && v[0] <= '9' {
        1 + digit_prefix_len(v.drop_first())
    } else {
        0
    }
}

/// A Markdown line without its quote markers and its heading, bullet or
/// numbered-list marker.
pub open spec fn line_prefix_stripped(line: Seq<char>) -> Seq<char> {
    let v = strip_quote_markers(trim_start(line));
    match strip_first_marker(v, line_markers()) {
        Some(rest) => rest,
        None => {
            let d = digit_prefix_len(v);
            if d > 0 && starts_with(v.skip(d), ". "@) {
                trim_start(v.skip(d + 2))
            } else {
                v
            }
        },
    }
}

fn digit_prefix_len_exec(v: &Vec<char>) -> (d: usize)
    ensures
        d == digit_prefix_len(v@),
        d <= v.len(),
{
    let mut i: usize = 0;
    assert(v@.skip(0) =~= v@);
    while i < v.len() && '0' <= v[i] && v[i] <= '9'
        invariant
            i <= v.len(),
            digit_prefix_len(v@) == i + digit_prefix_len(v@.skip(i as int)),
        decreases v.len() - i,
    {
        assert(v@.skip(i as int).drop_first() =~= v@.skip(i + 1));
        i += 1;
    }
    assert(v@.skip(i as int).len() == 0 || !('0' <= v@.skip(i as int)[0] && v@.skip(i as int)[0]
        <= '9'));
    i
}

fn strip_markdown_line_prefix_chars(line: &Vec<char>) -> (r: Vec<char>)
    ensures
        r@ == line_prefix_stripped(line@),
{
    let mut v = trim_start_exec(line);
    while v.len() > 0 && v[0] == '>'
        invariant
            strip_quote_markers(trim_start(line@)) == strip_quote_markers(v@),
        decreases v.len(),
    {
        proof {
            lemma_trim_start_len(v@.drop_first());
        }
        let rest = subvec(&v, 1, v.len());
        assert(rest@ =~= v@.drop_first());
        v = trim_start_exec(&rest);
    }
    let markers: [&str; 9] = ["# ", "## ", "### ", "#### ", "##### ", "###### ", "- ", "* ", "+ "];
    let ghost ms = line_markers();
    let mut k: usize = 0;
    assert(ms.skip(0) =~= ms);
    assert(strip_quote_markers(v@) == v@);
    assert(strip_quote_markers(trim_start(line@)) == v@);
    while k < 9
        invariant
            k <= 9,
            ms == line_markers(),
            forall|x: int| 0 <= x < 9 ==> (#[trigger] markers@[x])@ == ms[x],
            strip_first_marker(v@, ms) == strip_first_marker(v@, ms.skip(k as int)),
            strip_quote_markers(trim_start(line@)) == v@,
        decreases 9 - k,
    {
        let m = chars_of(markers[k]);
        assert(ms.skip(k as int).drop_first() =~= ms.skip(k + 1));
        assert(ms.skip(k as int)[0] == m@);
        if matches_at_exec(&v, &m, 0) {
            let rest = subvec(&v, m.len(), v.len());
            assert(rest@ =~= v@.skip(m.len() as int));
            return trim_start_exec(&rest);
        }
        k += 1;
    }
    assert(ms.skip(9) =~= Seq::<Seq<char>>::empty());
    let d = digit_prefix_len_exec(&v);
    if d > 0 {
        let rem = subvec(&v, d, v.len());
        assert(rem@ =~= v@.skip(d as int));
        let dot: Vec<char> = vec!['.', ' '];
        assert(dot@ =~= ". "@) by {
            reveal_strlit(". ");
        }
        if matches_at_exec(&rem, &dot, 0) {
            assert(v@.skip(d + 2) =~= rem@.skip(2));
            return trim_start_exec(&subvec(&rem, 2, rem.len()));
        }
    }
    v
}

/// A Markdown line without its leading quote, heading, bullet or
/// numbered-list markers.
pub fn strip_markdown_line_prefix(line: &str) -> (r: String)
    ensures
        r@ == line_prefix_stripped(line@),
{
    string_from_chars(&strip_markdown_line_prefix_chars(&chars_of(line)))
}

// ---------------------------------------------------------------------------
// Plain text
// ---------------------------------------------------------------------------

/// The inline-markup clean-up after the lines are joined: code fences
/// become a space; backticks, `**`, `__`, `~~` and `*` are dropped.
pub open spec fn inline_cleaned(s: Seq<char>) -> Seq<char> {
    let a = replace_all(s, "```"@, " "@);
    let b = replace_all(a, "`"@, ""@);
    let c = replace_all(b, "**"@, ""@);
    let d = replace_all(c, "__"@, ""@);
    let e = replace_all(d, "~~"@, ""@);
    replace_all(e, "*"@, ""@)
}

/// Markdown as plain text: links become their labels, line markers go,
/// lines are joined with spaces, inline markup is dropped and whitespace is
/// collapsed.
pub open spec fn markdown_plain(md: Seq<char>) -> Seq<char> {
    let stripped = join(
        lines(links_replaced(md)).map_values(|l: Seq<char>| line_prefix_stripped(l)),
        " "@,
    );
    collapse_ws(inline_cleaned(stripped))
}

/// Reduces Markdown to the plain text used for search snippets.
pub fn markdown_to_plain_text(markdown: &str) -> (r: String)
    ensures
        r@ == markdown_plain(markdown@),
{
    let replaced = replace_markdown_links_chars(&chars_of(markdown));
    let ls = lines_exec(&replaced);
    let ghost lv = lines(links_replaced(markdown@));
    let mut stripped_lines: Vec<Vec<char>> = Vec::new();
    let mut i: usize = 0;
    while i < ls.len()
        invariant
            i <= ls.len(),
            views(ls@) == lv,
            views(stripped_lines@) == lv.take(i as int).map_values(
                |l: Seq<char>| line_prefix_stripped(l),
            ),
        decreases ls.len() - i,
    {
        let ghost before = stripped_lines@;
        let st = strip_markdown_line_prefix_chars(&ls[i]);
        stripped_lines.push(st);
        assert(views(stripped_lines@) =~= views(before).push(st@));
        assert(lv.take(i + 1).map_values(|l: Seq<char>| line_prefix_stripped(l)) =~= lv.take(
            i as int,
        ).map_values(|l: Seq<char>| line_prefix_stripped(l)).push(line_prefix_stripped(lv[i as int])));
        i += 1;
    }
    assert(lv.take(i as int) =~= lv);
    let sp = chars_of(" ");
    let joined = join_exec(&stripped_lines, &sp);
    proof {
        reveal_strlit("```");
        reveal_strlit("`");
        reveal_strlit("**");
        reveal_strlit("__");
        reveal_strlit("~~");
        reveal_strlit("*");
    }
    let a = replace_lit(&joined, "```", " ");
    let b = replace_lit(&a, "`", "");
    let c = replace_lit(&b, "**", "");
    let d = replace_lit(&c, "__", "");
    let e = replace_lit(&d, "~~", "");
    let f = replace_lit(&e, "*", "");
    string_from_chars(&collapse_whitespace_chars(&f))
}

} // verus!
