//! Display text of a hyperlink: HTML entities decoded, whitespace
//! collapsed, and the choice between the stored title and the Open Graph
//! title.
use vstd::prelude::*;

use crate::search::{escape_char, escape_seq};
use crate::text::{
    append_all, chars_of, collapse_whitespace_chars, collapse_ws, find_exec, find_from,
    lemma_find_from_props, lower_ascii, matches_at_exec, seq_eq, split_whitespace, starts_with,
    string_from_chars, subvec, to_ascii_lowercase, trim, trim_exec, words,
};

verus! {

// ---------------------------------------------------------------------------
// Numbers inside entities
// ---------------------------------------------------------------------------

/// The value of digit `c` in base `radix` (10 or 16), if it is one.
pub open spec fn digit_value(c: char, radix: int) -> Option<int> {
    if '0' <= c && c <= '9' {
        Some(c as int - 48)
    } else if radix == 16 && 'a' <= c && c <= 'f' {
        Some(c as int - 87)
    } else if radix == 16 && 'A' <= c && c <= 'F' {
        Some(c as int - 55)
    } else {
        None
    }
}

pub open spec fn all_radix_digits(s: Seq<char>, radix: int) -> bool {
    forall|i: int| 0 <= i < s.len() ==> (#[trigger] digit_value(s[i], radix)) is Some
}

pub open spec fn radix_value(s: Seq<char>, radix: int) -> int
    decreases s.len(),
{
    if s.len() == 0 {
        0
    } else {
        radix_value(s.drop_last(), radix) * radix + match digit_value(s.last(), radix) {
            Some(d) => d,
            None => 0,
        }
    }
}

/// `u32::from_str_radix(s, radix)`: an optional `+`, then one or more
/// digits whose value fits in a `u32`.
pub open spec fn parse_u32_spec(s: Seq<char>, radix: int) -> Option<int> {
    let body = if s.len() > 0 && s[0] == '+' {
        s.drop_first()
    } else {
        s
    };
    if body.len() == 0 || !all_radix_digits(body, radix) || radix_value(body, radix) > u32::MAX {
        None
    } else {
        Some(radix_value(body, radix))
    }
}

fn digit_value_exec(c: char, radix: u32) -> (r: Option<u32>)
    requires
        radix == 10 || radix == 16,
    ensures
        match r {
            Some(d) => digit_value(c, radix as int) == Some(d as int) && d < radix,
            None => digit_value(c, radix as int) is None,
        },
{
    if '0' <= c && c <= '9' {
        Some(c as u32 - 48)
    } else if radix == 16 && 'a' <= c && c <= 'f' {
        Some(c as u32 - 87)
    } else if radix == 16 && 'A' <= c && c <= 'F' {
        Some(c as u32 - 55)
    } else {
        None
    }
}

/// Parses a `u32` in base 10 or 16 as `u32::from_str_radix` does.
pub fn parse_u32_radix(s: &Vec<char>, radix: u32) -> (r: Option<u32>)
    requires
        radix == 10 || radix == 16,
    ensures
        match r {
            Some(v) => parse_u32_spec(s@, radix as int) == Some(v as int),
            None => parse_u32_spec(s@, radix as int) is None,
        },
{
    let start: usize = if s.len() > 0 && s[0] == '+' {
        1
    } else {
        0
    };
    let ghost body = if s@.len() > 0 && s@[0] == '+' {
        s@.drop_first()
    } else {
        s@
    };
    assert(body =~= s@.skip(start as int));
    if start >= s.len() {
        return None;
    }
    let mut acc: u64 = 0;
    let mut big = false;
    let mut i = start;
    while i < s.len()
        invariant
            start <= i <= s.len(),
            radix == 10 || radix == 16,
            body == s@.skip(start as int),
            body.len() > 0,
            body == (if s@.len() > 0 && s@[0] == '+' {
                s@.drop_first()
            } else {
                s@
            }),
            forall|k: int| 0 <= k < i - start ==> (#[trigger] digit_value(body[k], radix as int)) is Some,
            big ==> radix_value(body.take(i - start), radix as int) > u32::MAX,
            !big ==> acc == radix_value(body.take(i - start), radix as int) && acc <= u32::MAX,
        decreases s.len() - i,
    {
        let c = s[i];
        assert(body[i - start] == c);
        let d = match digit_value_exec(c, radix) {
            Some(d) => d,
            None => {
                return None;
            },
        };
        assert(body.take(i - start + 1).drop_last() =~= body.take(i - start));
        assert(body.take(i - start + 1).last() == c);
        if !big {
            let next = acc * (radix as u64) + d as u64;
            if next > 0xffff_ffff {
                big = true;
            } else {
                acc = next;
            }
        } else {
            assert(radix_value(body.take(i - start + 1), radix as int) >= radix_value(
                body.take(i - start),
                radix as int,
            ) * radix) by (nonlinear_arith)
                requires
                    radix_value(body.take(i - start + 1), radix as int) == radix_value(
                        body.take(i - start),
                        radix as int,
                    ) * radix + d,
                    d >= 0,
            ;
            assert(radix_value(body.take(i - start), radix as int) * radix >= radix_value(
                body.take(i - start),
                radix as int,
            )) by (nonlinear_arith)
                requires
                    radix_value(body.take(i - start), radix as int) > 0,
                    radix >= 10,
            ;
        }
        i += 1;
    }
    assert(body.take(i - start) =~= body);
    if big {
        None
    } else {
        Some(acc as u32)
    }
}

/// A Unicode scalar value: what `char::from_u32` accepts.
pub open spec fn is_scalar_value(v: int) -> bool {
    0 <= v <= 0x10FFFF && !(0xD800 <= v <= 0xDFFF)
}

/// `char::from_u32`: the character with scalar value `v`; `None` for
/// surrogates and values past `0x10FFFF`.
#[verifier::external_body]
fn char_from_u32(v: u32) -> (r: Option<char>)
    ensures
        r == (if is_scalar_value(v as int) {
            Some((v as int) as char)
        } else {
            None
        }),
{
    char::from_u32(v)
}

// ---------------------------------------------------------------------------
// Entities
// ---------------------------------------------------------------------------

/// A numeric character reference body: `#` and decimal digits, or `#x`
/// (or `#X`) and hexadecimal digits, naming a Unicode scalar value.
pub open spec fn numeric_entity(e: Seq<char>) -> Option<char> {
    let v = if starts_with(e, "#x"@) || starts_with(e, "#X"@) {
        parse_u32_spec(e.skip(2), 16)
    } else if starts_with(e, "#"@) {
        parse_u32_spec(e.skip(1), 10)
    } else {
        None
    };
    match v {
        Some(n) => if is_scalar_value(n) {
            Some(n as char)
        } else {
            None
        },
        None => None,
    }
}

/// A character reference body: numeric, or one of the named entities
/// `amp`, `lt`, `gt`, `quot`, `apos` and `nbsp` in any ASCII case.
pub open spec fn entity_char(e: Seq<char>) -> Option<char> {
    match numeric_entity(e) {
        Some(c) => Some(c),
        None => {
            let l = lower_ascii(e);
            if l == "amp"@ {
                Some('&')
            } else if l == "lt"@ {
                Some('<')
            } else if l == "gt"@ {
                Some('>')
            } else if l == "quot"@ {
                Some('"')
            } else if l == "apos"@ {
                Some('\'')
            } else if l == "nbsp"@ {
                Some('\u{A0}')
            } else {
                None
            }
        },
    }
}

fn decode_numeric_entity_chars(e: &Vec<char>) -> (r: Option<char>)
    ensures
        r == numeric_entity(e@),
{
    proof {
        reveal_strlit("#x");
        reveal_strlit("#X");
        reveal_strlit("#");
    }
    let hx = chars_of("#x");
    let hu = chars_of("#X");
    let h = chars_of("#");
    let v = if matches_at_exec(e, &hx, 0) || matches_at_exec(e, &hu, 0) {
        parse_u32_radix(&subvec(e, 2, e.len()), 16)
    } else if matches_at_exec(e, &h, 0) {
        parse_u32_radix(&subvec(e, 1, e.len()), 10)
    } else {
        None
    };
    proof {
        if e@.len() >= 2 {
            assert(e@.subrange(2, e@.len() as int) =~= e@.skip(2));
        }
        if e@.len() >= 1 {
            assert(e@.subrange(1, e@.len() as int) =~= e@.skip(1));
        }
    }
    match v {
        Some(n) => {
            char_from_u32(n)
        },
        None => None,
    }
}

/// Decodes a numeric character reference body (`#65`, `#x41`).
pub fn decode_numeric_html_entity(entity: &str) -> (r: Option<char>)
    ensures
        r == numeric_entity(entity@),
{
    decode_numeric_entity_chars(&chars_of(entity))
}

fn decode_entity_chars(e: &Vec<char>) -> (r: Option<char>)
    ensures
        r == entity_char(e@),
{
    if let Some(c) = decode_numeric_entity_chars(e) {
        return Some(c);
    }
    let l = to_ascii_lowercase(e);
    if seq_eq(&l, &chars_of("amp")) {
        Some('&')
    } else if seq_eq(&l, &chars_of("lt")) {
        Some('<')
    } else if seq_eq(&l, &chars_of("gt")) {
        Some('>')
    } else if seq_eq(&l, &chars_of("quot")) {
        Some('"')
    } else if seq_eq(&l, &chars_of("apos")) {
        Some('\'')
    } else if seq_eq(&l, &chars_of("nbsp")) {
        Some('\u{A0}')
    } else {
        None
    }
}

/// Decodes a character reference body (the text between `&` and `;`).
pub fn decode_html_entity(entity: &str) -> (r: Option<char>)
    ensures
        r == entity_char(entity@),
{
    decode_entity_chars(&chars_of(entity))
}

/// The scan that decodes character references: `out` is the text produced
/// so far and `cursor` the next unread index. An `&` without a later `;`,
/// or whose reference is not known, stays as it is.
pub open spec fn entities_from(s: Seq<char>, out: Seq<char>, cursor: int) -> Seq<char>
    decreases s.len() + 1 - cursor,
{
    if cursor < 0 || cursor > s.len() {
        out
    } else {
        match find_from(s, seq!['&'], cursor) {
            None => out + s.subrange(cursor, s.len() as int),
            Some(amp) => {
                proof {
                    lemma_find_from_props(s, seq!['&'], cursor);
                }
                let out1 = out + s.subrange(cursor, amp);
                let es = amp + 1;
                match find_from(s, seq![';'], es) {
                    None => entities_from(s, out1.push('&'), es),
                    Some(ee) => {
                        proof {
                            lemma_find_from_props(s, seq![';'], es);
                        }
                        match entity_char(s.subrange(es, ee)) {
                            Some(c) => entities_from(s, out1.push(c), ee + 1),
                            None => entities_from(s, out1.push('&'), es),
                        }
                    },
                }
            },
        }
    }
}

pub open spec fn entities_decoded(s: Seq<char>) -> Seq<char> {
    entities_from(s, Seq::empty(), 0)
}

proof fn lemma_escape_seq_add(a: Seq<char>, b: Seq<char>)
    ensures
        escape_seq(a + b) == escape_seq(a) + escape_seq(b),
    decreases b.len(),
{
    if b.len() == 0 {
        assert(a + b =~= a);
        assert(escape_seq(a) + escape_seq(b) =~= escape_seq(a));
    } else {
        lemma_escape_seq_add(a, b.drop_last());
        assert((a + b).drop_last() =~= a + b.drop_last());
        assert((a + b).last() == b.last());
    }
}

/// A character that is not `&` is copied as it is.
proof fn lemma_entities_plain_step(s: Seq<char>, out: Seq<char>, cursor: int)
    requires
        0 <= cursor < s.len(),
        s[cursor] != '&',
    ensures
        entities_from(s, out, cursor) == entities_from(s, out.push(s[cursor]), cursor + 1),
{
    assert(s.subrange(cursor, cursor + 1)[0] != seq!['&'][0]);
    assert(find_from(s, seq!['&'], cursor) == find_from(s, seq!['&'], cursor + 1));
    lemma_find_from_props(s, seq!['&'], cursor + 1);
    match find_from(s, seq!['&'], cursor + 1) {
        None => {
            assert(out + s.subrange(cursor, s.len() as int) =~= out.push(s[cursor]) + s.subrange(
                cursor + 1,
                s.len() as int,
            ));
        },
        Some(amp) => {
            assert(out + s.subrange(cursor, amp) =~= out.push(s[cursor]) + s.subrange(cursor + 1, amp));
        },
    }
}

/// An escape `&name;` at `cursor` whose name decodes to `c` is read as `c`.
proof fn lemma_entities_escape_step(s: Seq<char>, out: Seq<char>, cursor: int, name: Seq<char>, c: char)
    requires
        0 <= cursor,
        cursor + name.len() + 2 <= s.len(),
        s.subrange(cursor, cursor + name.len() + 2) == seq!['&'] + name + seq![';'],
        forall|k: int| 0 <= k < name.len() ==> name[k] != ';',
        entity_char(name) == Some(c),
    ensures
        entities_from(s, out, cursor) == entities_from(s, out.push(c), cursor + name.len() + 2),
{
    let e = seq!['&'] + name + seq![';'];
    let end = cursor + name.len() + 1;
    assert(s[cursor] == e[0]);
    assert(s.subrange(cursor, cursor + 1) =~= seq!['&']);
    assert(find_from(s, seq!['&'], cursor) == Some(cursor));
    assert(s[end] == e[(name.len() + 1) as int]);
    assert(s.subrange(end, end + 1) =~= seq![';']);
    lemma_find_from_props(s, seq![';'], cursor + 1);
    assert forall|j: int| cursor + 1 <= j < end implies !crate::text::matches_at(s, seq![';'], j) by {
        assert(s[j] == e[j - cursor]);
        assert(e[j - cursor] == name[j - cursor - 1]);
        assert(s.subrange(j, j + 1)[0] == s[j]);
    }
    assert(crate::text::matches_at(s, seq![';'], end));
    assert(find_from(s, seq![';'], cursor + 1) == Some(end));
    assert(s.subrange(cursor + 1, end) =~= name) by {
        assert forall|k: int| 0 <= k < name.len() implies s.subrange(cursor + 1, end)[k] == name[k] by {
            assert(s[cursor + 1 + k] == e[k + 1]);
        }
    }
    assert(out + s.subrange(cursor, cursor) =~= out);
}

proof fn lemma_named_entities()
    ensures
        entity_char(seq!['a', 'm', 'p']) == Some('&'),
        entity_char(seq!['l', 't']) == Some('<'),
        entity_char(seq!['g', 't']) == Some('>'),
        entity_char(seq!['q', 'u', 'o', 't']) == Some('"'),
        entity_char(seq!['#', '3', '9']) == Some('\''),
{
    reveal_strlit("#x");
    reveal_strlit("#X");
    reveal_strlit("#");
    reveal_strlit("amp");
    reveal_strlit("lt");
    reveal_strlit("gt");
    reveal_strlit("quot");
    let amp = seq!['a', 'm', 'p'];
    let lt = seq!['l', 't'];
    let gt = seq!['g', 't'];
    let quot = seq!['q', 'u', 'o', 't'];
    assert(!starts_with(amp, "#"@) && !starts_with(amp, "#x"@) && !starts_with(amp, "#X"@)) by {
        assert(amp.subrange(0, 1)[0] != "#"@[0]);
        assert(amp.subrange(0, 2)[0] != "#x"@[0]);
    }
    assert(!starts_with(lt, "#"@) && !starts_with(lt, "#x"@) && !starts_with(lt, "#X"@)) by {
        assert(lt.subrange(0, 1)[0] != "#"@[0]);
        assert(lt.subrange(0, 2)[0] != "#x"@[0]);
    }
    assert(!starts_with(gt, "#"@) && !starts_with(gt, "#x"@) && !starts_with(gt, "#X"@)) by {
        assert(gt.subrange(0, 1)[0] != "#"@[0]);
        assert(gt.subrange(0, 2)[0] != "#x"@[0]);
    }
    assert(!starts_with(quot, "#"@) && !starts_with(quot, "#x"@) && !starts_with(quot, "#X"@)) by {
        assert(quot.subrange(0, 1)[0] != "#"@[0]);
        assert(quot.subrange(0, 2)[0] != "#x"@[0]);
    }
    assert(lower_ascii(amp) =~= amp);
    assert(lower_ascii(lt) =~= lt);
    assert(lower_ascii(gt) =~= gt);
    assert(lower_ascii(quot) =~= quot);
    assert(amp =~= "amp"@);
    assert(lt =~= "lt"@);
    assert(gt =~= "gt"@);
    assert(quot =~= "quot"@);
    assert(lt != amp);
    assert(gt != amp);
    assert(gt != lt) by {
        assert(gt[0] != lt[0]);
    }
    assert(quot != amp && quot != lt && quot != gt);
    let n = seq!['#', '3', '9'];
    assert(n.subrange(0, 2)[1] != "#x"@[1]);
    assert(n.subrange(0, 2)[1] != "#X"@[1]);
    assert(n.subrange(0, 1) =~= "#"@);
    let body = n.skip(1);
    assert(body =~= seq!['3', '9']);
    assert(body.drop_last() =~= seq!['3']);
    assert(body.drop_last().drop_last() =~= Seq::<char>::empty());
    reveal_with_fuel(radix_value, 3);
    assert(radix_value(body, 10) == 39);
    assert(all_radix_digits(body, 10));
    assert(parse_u32_spec(body, 10) == Some(39int));
}

/// Each named entity means the same character as the numeric reference
/// of its code point: `amp` 38, `lt` 60, `gt` 62, `quot` 34, `apos` 39,
/// `nbsp` 160.
pub proof fn law_named_entities_match_numeric()
    ensures
        entity_char(seq!['a', 'm', 'p']) == numeric_entity(seq!['#', '3', '8']),
        numeric_entity(seq!['#', '3', '8']) is Some,
        entity_char(seq!['l', 't']) == numeric_entity(seq!['#', '6', '0']),
        numeric_entity(seq!['#', '6', '0']) is Some,
        entity_char(seq!['g', 't']) == numeric_entity(seq!['#', '6', '2']),
        numeric_entity(seq!['#', '6', '2']) is Some,
        entity_char(seq!['q', 'u', 'o', 't']) == numeric_entity(seq!['#', '3', '4']),
        numeric_entity(seq!['#', '3', '4']) is Some,
        entity_char(seq!['a', 'p', 'o', 's']) == numeric_entity(seq!['#', '3', '9']),
        numeric_entity(seq!['#', '3', '9']) is Some,
        entity_char(seq!['n', 'b', 's', 'p']) == numeric_entity(seq!['#', '1', '6', '0']),
        numeric_entity(seq!['#', '1', '6', '0']) is Some,
{
    reveal_strlit("#x");
    reveal_strlit("#X");
    reveal_strlit("#");
    reveal_strlit("amp");
    reveal_strlit("lt");
    reveal_strlit("gt");
    reveal_strlit("quot");
    reveal_strlit("apos");
    reveal_strlit("nbsp");
    reveal_with_fuel(radix_value, 4);
    assert(!starts_with(seq!['a', 'm', 'p'], "#"@) && !starts_with(seq!['a', 'm', 'p'], "#x"@) && !starts_with(seq!['a', 'm', 'p'], "#X"@)) by {
        assert(seq!['a', 'm', 'p'].subrange(0, 1)[0] != "#"@[0]);
        assert(seq!['a', 'm', 'p'].len() < 2 || seq!['a', 'm', 'p'].subrange(0, 2)[0] != "#x"@[0]);
    }
    assert(lower_ascii(seq!['a', 'm', 'p']) =~= seq!['a', 'm', 'p']);
    assert(seq!['a', 'm', 'p'] =~= "amp"@);
    assert(seq!['#', '3', '8'].subrange(0, 2)[1] != "#x"@[1] && seq!['#', '3', '8'].subrange(0, 2)[1] != "#X"@[1]);
    assert(seq!['#', '3', '8'].subrange(0, 1) =~= "#"@);
    assert(seq!['#', '3', '8'].skip(1) =~= seq!['3', '8']);
    assert(seq!['3', '8'].drop_last() =~= seq!['3']);
    assert(all_radix_digits(seq!['3', '8'], 10));
    assert(!starts_with(seq!['l', 't'], "#"@) && !starts_with(seq!['l', 't'], "#x"@) && !starts_with(seq!['l', 't'], "#X"@)) by {
        assert(seq!['l', 't'].subrange(0, 1)[0] != "#"@[0]);
        assert(seq!['l', 't'].len() < 2 || seq!['l', 't'].subrange(0, 2)[0] != "#x"@[0]);
    }
    assert(lower_ascii(seq!['l', 't']) =~= seq!['l', 't']);
    assert(seq!['l', 't'] =~= "lt"@);
    assert(seq!['#', '6', '0'].subrange(0, 2)[1] != "#x"@[1] && seq!['#', '6', '0'].subrange(0, 2)[1] != "#X"@[1]);
    assert(seq!['#', '6', '0'].subrange(0, 1) =~= "#"@);
    assert(seq!['#', '6', '0'].skip(1) =~= seq!['6', '0']);
    assert(seq!['6', '0'].drop_last() =~= seq!['6']);
    assert(all_radix_digits(seq!['6', '0'], 10));
    assert(!starts_with(seq!['g', 't'], "#"@) && !starts_with(seq!['g', 't'], "#x"@) && !starts_with(seq!['g', 't'], "#X"@)) by {
        assert(seq!['g', 't'].subrange(0, 1)[0] != "#"@[0]);
        assert(seq!['g', 't'].len() < 2 || seq!['g', 't'].subrange(0, 2)[0] != "#x"@[0]);
    }
    assert(lower_ascii(seq!['g', 't']) =~= seq!['g', 't']);
    assert(seq!['g', 't'] =~= "gt"@);
    assert(seq!['#', '6', '2'].subrange(0, 2)[1] != "#x"@[1] && seq!['#', '6', '2'].subrange(0, 2)[1] != "#X"@[1]);
    assert(seq!['#', '6', '2'].subrange(0, 1) =~= "#"@);
    assert(seq!['#', '6', '2'].skip(1) =~= seq!['6', '2']);
    assert(seq!['6', '2'].drop_last() =~= seq!['6']);
    assert(all_radix_digits(seq!['6', '2'], 10));
    assert(!starts_with(seq!['q', 'u', 'o', 't'], "#"@) && !starts_with(seq!['q', 'u', 'o', 't'], "#x"@) && !starts_with(seq!['q', 'u', 'o', 't'], "#X"@)) by {
        assert(seq!['q', 'u', 'o', 't'].subrange(0, 1)[0] != "#"@[0]);
        assert(seq!['q', 'u', 'o', 't'].len() < 2 || seq!['q', 'u', 'o', 't'].subrange(0, 2)[0] != "#x"@[0]);
    }
    assert(lower_ascii(seq!['q', 'u', 'o', 't']) =~= seq!['q', 'u', 'o', 't']);
    assert(seq!['q', 'u', 'o', 't'] =~= "quot"@);
    assert(seq!['#', '3', '4'].subrange(0, 2)[1] != "#x"@[1] && seq!['#', '3', '4'].subrange(0, 2)[1] != "#X"@[1]);
    assert(seq!['#', '3', '4'].subrange(0, 1) =~= "#"@);
    assert(seq!['#', '3', '4'].skip(1) =~= seq!['3', '4']);
    assert(seq!['3', '4'].drop_last() =~= seq!['3']);
    assert(all_radix_digits(seq!['3', '4'], 10));
    assert(!starts_with(seq!['a', 'p', 'o', 's'], "#"@) && !starts_with(seq!['a', 'p', 'o', 's'], "#x"@) && !starts_with(seq!['a', 'p', 'o', 's'], "#X"@)) by {
        assert(seq!['a', 'p', 'o', 's'].subrange(0, 1)[0] != "#"@[0]);
        assert(seq!['a', 'p', 'o', 's'].len() < 2 || seq!['a', 'p', 'o', 's'].subrange(0, 2)[0] != "#x"@[0]);
    }
    assert(lower_ascii(seq!['a', 'p', 'o', 's']) =~= seq!['a', 'p', 'o', 's']);
    assert(seq!['a', 'p', 'o', 's'] =~= "apos"@);
    assert(seq!['#', '3', '9'].subrange(0, 2)[1] != "#x"@[1] && seq!['#', '3', '9'].subrange(0, 2)[1] != "#X"@[1]);
    assert(seq!['#', '3', '9'].subrange(0, 1) =~= "#"@);
    assert(seq!['#', '3', '9'].skip(1) =~= seq!['3', '9']);
    assert(seq!['3', '9'].drop_last() =~= seq!['3']);
    assert(all_radix_digits(seq!['3', '9'], 10));
    assert(!starts_with(seq!['n', 'b', 's', 'p'], "#"@) && !starts_with(seq!['n', 'b', 's', 'p'], "#x"@) && !starts_with(seq!['n', 'b', 's', 'p'], "#X"@)) by {
        assert(seq!['n', 'b', 's', 'p'].subrange(0, 1)[0] != "#"@[0]);
        assert(seq!['n', 'b', 's', 'p'].len() < 2 || seq!['n', 'b', 's', 'p'].subrange(0, 2)[0] != "#x"@[0]);
    }
    assert(lower_ascii(seq!['n', 'b', 's', 'p']) =~= seq!['n', 'b', 's', 'p']);
    assert(seq!['n', 'b', 's', 'p'] =~= "nbsp"@);
    assert(seq!['#', '1', '6', '0'].subrange(0, 2)[1] != "#x"@[1] && seq!['#', '1', '6', '0'].subrange(0, 2)[1] != "#X"@[1]);
    assert(seq!['#', '1', '6', '0'].subrange(0, 1) =~= "#"@);
    assert(seq!['#', '1', '6', '0'].skip(1) =~= seq!['1', '6', '0']);
    assert(seq!['1', '6', '0'].drop_last() =~= seq!['1', '6']);
    assert(seq!['1', '6'].drop_last() =~= seq!['1']);
    assert(all_radix_digits(seq!['1', '6', '0'], 10));
    assert(seq!['l', 't'] != seq!['a', 'm', 'p']) by {
        assert(seq!['l', 't'].len() != seq!['a', 'm', 'p'].len());
    }
    assert(seq!['g', 't'] != seq!['a', 'm', 'p']) by {
        assert(seq!['g', 't'].len() != seq!['a', 'm', 'p'].len());
    }
    assert(seq!['g', 't'] != seq!['l', 't']) by {
        assert(seq!['g', 't'][0] != seq!['l', 't'][0]);
    }
    assert(seq!['q', 'u', 'o', 't'] != seq!['a', 'm', 'p']) by {
        assert(seq!['q', 'u', 'o', 't'].len() != seq!['a', 'm', 'p'].len());
    }
    assert(seq!['q', 'u', 'o', 't'] != seq!['l', 't']) by {
        assert(seq!['q', 'u', 'o', 't'].len() != seq!['l', 't'].len());
    }
    assert(seq!['q', 'u', 'o', 't'] != seq!['g', 't']) by {
        assert(seq!['q', 'u', 'o', 't'].len() != seq!['g', 't'].len());
    }
    assert(seq!['a', 'p', 'o', 's'] != seq!['a', 'm', 'p']) by {
        assert(seq!['a', 'p', 'o', 's'].len() != seq!['a', 'm', 'p'].len());
    }
    assert(seq!['a', 'p', 'o', 's'] != seq!['l', 't']) by {
        assert(seq!['a', 'p', 'o', 's'].len() != seq!['l', 't'].len());
    }
    assert(seq!['a', 'p', 'o', 's'] != seq!['g', 't']) by {
        assert(seq!['a', 'p', 'o', 's'].len() != seq!['g', 't'].len());
    }
    assert(seq!['a', 'p', 'o', 's'] != seq!['q', 'u', 'o', 't']) by {
        assert(seq!['a', 'p', 'o', 's'][0] != seq!['q', 'u', 'o', 't'][0]);
    }
    assert(seq!['n', 'b', 's', 'p'] != seq!['a', 'm', 'p']) by {
        assert(seq!['n', 'b', 's', 'p'].len() != seq!['a', 'm', 'p'].len());
    }
    assert(seq!['n', 'b', 's', 'p'] != seq!['l', 't']) by {
        assert(seq!['n', 'b', 's', 'p'].len() != seq!['l', 't'].len());
    }
    assert(seq!['n', 'b', 's', 'p'] != seq!['g', 't']) by {
        assert(seq!['n', 'b', 's', 'p'].len() != seq!['g', 't'].len());
    }
    assert(seq!['n', 'b', 's', 'p'] != seq!['q', 'u', 'o', 't']) by {
        assert(seq!['n', 'b', 's', 'p'][0] != seq!['q', 'u', 'o', 't'][0]);
    }
    assert(seq!['n', 'b', 's', 'p'] != seq!['a', 'p', 'o', 's']) by {
        assert(seq!['n', 'b', 's', 'p'][0] != seq!['a', 'p', 'o', 's'][0]);
    }
}

/// Where the escape of `s` is read from `p.len()` on, the text read back
/// is `s`.
proof fn lemma_decode_escaped(p: Seq<char>, out: Seq<char>, s: Seq<char>)
    ensures
        entities_from(p + escape_seq(s), out, p.len() as int) == out + s,
    decreases s.len(),
{
    let full = p + escape_seq(s);
    if s.len() == 0 {
        assert(escape_seq(s) =~= Seq::<char>::empty());
        assert(out + full.subrange(p.len() as int, full.len() as int) =~= out + s);
    } else {
        let c = s[0];
        let r = s.drop_first();
        assert(s =~= seq![c] + r);
        lemma_escape_seq_add(seq![c], r);
        assert(seq![c].drop_last() =~= Seq::<char>::empty());
        assert(escape_seq(Seq::<char>::empty()) =~= Seq::<char>::empty());
        assert(seq![c].last() == c);
        assert(escape_seq(seq![c]) =~= escape_char(c));
        let e = escape_char(c);
        let p2 = p + e;
        assert(full =~= p2 + escape_seq(r));
        lemma_decode_escaped(p2, out.push(c), r);
        assert(out.push(c) + r =~= out + s);
        lemma_named_entities();
        reveal_strlit("&amp;");
        reveal_strlit("&lt;");
        reveal_strlit("&gt;");
        reveal_strlit("&quot;");
        reveal_strlit("&#39;");
        let name: Seq<char> = if c == '&' {
            seq!['a', 'm', 'p']
        } else if c == '<' {
            seq!['l', 't']
        } else if c == '>' {
            seq!['g', 't']
        } else if c == '"' {
            seq!['q', 'u', 'o', 't']
        } else {
            seq!['#', '3', '9']
        };
        if c == '&' || c == '<' || c == '>' || c == '"' || c == '\'' {
            assert(e =~= seq!['&'] + name + seq![';']);
            assert(full.subrange(p.len() as int, (p.len() + name.len() + 2) as int) =~= e);
            lemma_entities_escape_step(full, out, p.len() as int, name, c);
        } else {
            assert(e == seq![c]);
            assert(full[p.len() as int] == c);
            lemma_entities_plain_step(full, out, p.len() as int);
            assert(p.len() + 1 == p2.len());
        }
    }
}

/// Decoding undoes HTML escaping: the escape of any text decodes to that
/// text.
pub proof fn law_decode_inverts_escape(s: Seq<char>)
    ensures
        entities_decoded(escape_seq(s)) == s,
{
    lemma_decode_escaped(Seq::empty(), Seq::empty(), s);
    assert(Seq::<char>::empty() + escape_seq(s) =~= escape_seq(s));
    assert(Seq::<char>::empty() + s =~= s);
}

fn decode_entities_chars(s: &Vec<char>) -> (r: Vec<char>)
    ensures
        r@ == entities_decoded(s@),
{
    let amp: Vec<char> = vec!['&'];
    let semi: Vec<char> = vec![';'];
    assert(amp@ =~= seq!['&']);
    assert(semi@ =~= seq![';']);
    let mut out: Vec<char> = Vec::new();
    let mut cursor: usize = 0;
    loop
        invariant
            cursor <= s.len(),
            amp@ == seq!['&'],
            semi@ == seq![';'],
            entities_from(s@, out@, cursor as int) == entities_decoded(s@),
        decreases s.len() - cursor,
    {
        let a = match find_exec(s, &amp, cursor) {
            Some(a) => a,
            None => {
                append_all(&mut out, &subvec(s, cursor, s.len()));
                return out;
            },
        };
        proof {
            lemma_find_from_props(s@, amp@, cursor as int);
        }
        append_all(&mut out, &subvec(s, cursor, a));
        let es = a + 1;
        match find_exec(s, &semi, es) {
            None => {
                out.push('&');
                cursor = es;
            },
            Some(ee) => {
                proof {
                    lemma_find_from_props(s@, semi@, es as int);
                }
                match decode_entity_chars(&subvec(s, es, ee)) {
                    Some(c) => {
                        out.push(c);
                        cursor = ee + 1;
                    },
                    None => {
                        out.push('&');
                        cursor = es;
                    },
                }
            },
        }
    }
}

/// Decodes the character references in `value`.
pub fn decode_html_entities(value: &str) -> (r: String)
    ensures
        r@ == entities_decoded(value@),
{
    string_from_chars(&decode_entities_chars(&chars_of(value)))
}

// ---------------------------------------------------------------------------
// Display text
// ---------------------------------------------------------------------------

/// Trimmed, entity-decoded text with its whitespace collapsed.
pub open spec fn display_text(value: Seq<char>) -> Seq<char> {
    collapse_ws(trim(entities_decoded(trim(value))))
}

fn display_text_chars(value: &Vec<char>) -> (r: Vec<char>)
    ensures
        r@ == display_text(value@),
{
    let decoded = decode_entities_chars(&trim_exec(value));
    collapse_whitespace_chars(&trim_exec(&decoded))
}

pub fn normalize_display_text(value: &str) -> (r: String)
    ensures
        r@ == display_text(value@),
{
    string_from_chars(&display_text_chars(&chars_of(value)))
}

pub open spec fn opt_text(o: Option<String>) -> Option<Seq<char>> {
    match o {
        Some(s) => Some(s@),
        None => None,
    }
}

/// The display text of a metadata value; `None` when there is no value or
/// it is blank.
pub open spec fn text_value_spec(value: Option<Seq<char>>) -> Option<Seq<char>> {
    match value {
        Some(v) => if display_text(v).len() == 0 {
            None
        } else {
            Some(display_text(v))
        },
        None => None,
    }
}

/// A trimmed URL; `None` when there is no value or it is blank.
pub open spec fn url_value_spec(value: Option<Seq<char>>) -> Option<Seq<char>> {
    match value {
        Some(v) => if trim(v).len() == 0 {
            None
        } else {
            Some(trim(v))
        },
        None => None,
    }
}

pub fn normalize_text_value(value: Option<&str>) -> (r: Option<String>)
    ensures
        opt_text(r) == text_value_spec(
            match value {
                Some(v) => Some(v@),
                None => None,
            },
        ),
{
    match value {
        Some(v) => {
            let n = display_text_chars(&chars_of(v));
            if n.len() == 0 {
                None
            } else {
                Some(string_from_chars(&n))
            }
        },
        None => None,
    }
}

pub fn normalize_url_value(value: Option<&str>) -> (r: Option<String>)
    ensures
        opt_text(r) == url_value_spec(
            match value {
                Some(v) => Some(v@),
                None => None,
            },
        ),
{
    match value {
        Some(v) => {
            let t = trim_exec(&chars_of(v));
            if t.len() == 0 {
                None
            } else {
                Some(string_from_chars(&t))
            }
        },
        None => None,
    }
}

// ---------------------------------------------------------------------------
// Open Graph summary
// ---------------------------------------------------------------------------

/// The Open Graph fields stored with a hyperlink.
pub struct OgFields {
    pub og_title: Option<String>,
    pub og_description: Option<String>,
    pub og_type: Option<String>,
    pub og_url: Option<String>,
    pub og_image_url: Option<String>,
    pub og_site_name: Option<String>,
}

/// The Open Graph values worth showing, each normalized.
pub struct OgSummary {
    pub title: Option<String>,
    pub description: Option<String>,
    pub og_type: Option<String>,
    pub url: Option<String>,
    pub image_url: Option<String>,
    pub site_name: Option<String>,
}

fn as_str_opt(o: &Option<String>) -> (r: Option<&str>)
    ensures
        match r {
            Some(s) => opt_text(*o) == Some(s@),
            None => o.is_none(),
        },
{
    match o {
        Some(s) => Some(s.as_str()),
        None => None,
    }
}

impl OgSummary {
    pub open spec fn has_values_spec(&self) -> bool {
        self.title.is_some() || self.description.is_some() || self.og_type.is_some()
            || self.url.is_some() || self.image_url.is_some() || self.site_name.is_some()
    }

    pub fn has_values(&self) -> (b: bool)
        ensures
            b == self.has_values_spec(),
    {
        self.title.is_some() || self.description.is_some() || self.og_type.is_some()
            || self.url.is_some() || self.image_url.is_some() || self.site_name.is_some()
    }

    pub fn title(&self) -> (r: Option<&str>)
        ensures
            match r {
                Some(s) => opt_text(self.title) == Some(s@),
                None => self.title.is_none(),
            },
    {
        as_str_opt(&self.title)
    }

    pub fn description(&self) -> (r: Option<&str>)
        ensures
            match r {
                Some(s) => opt_text(self.description) == Some(s@),
                None => self.description.is_none(),
            },
    {
        as_str_opt(&self.description)
    }

    pub fn og_type(&self) -> (r: Option<&str>)
        ensures
            match r {
                Some(s) => opt_text(self.og_type) == Some(s@),
                None => self.og_type.is_none(),
            },
    {
        as_str_opt(&self.og_type)
    }

    pub fn url(&self) -> (r: Option<&str>)
        ensures
            match r {
                Some(s) => opt_text(self.url) == Some(s@),
                None => self.url.is_none(),
            },
    {
        as_str_opt(&self.url)
    }

    pub fn image_url(&self) -> (r: Option<&str>)
        ensures
            match r {
                Some(s) => opt_text(self.image_url) == Some(s@),
                None => self.image_url.is_none(),
            },
    {
        as_str_opt(&self.image_url)
    }

    pub fn site_name(&self) -> (r: Option<&str>)
        ensures
            match r {
                Some(s) => opt_text(self.site_name) == Some(s@),
                None => self.site_name.is_none(),
            },
    {
        as_str_opt(&self.site_name)
    }
}

pub open spec fn text_of(o: &Option<String>) -> Option<Seq<char>> {
    opt_text(*o)
}

/// The summary of the Open Graph fields: text values normalized, URLs
/// trimmed, blanks dropped; `None` when nothing is left.
pub fn load_og_summary(fields: &OgFields) -> (r: Option<OgSummary>)
    ensures
        match r {
            Some(s) => {
                &&& opt_text(s.title) == text_value_spec(text_of(&fields.og_title))
                &&& opt_text(s.description) == text_value_spec(text_of(&fields.og_description))
                &&& opt_text(s.og_type) == text_value_spec(text_of(&fields.og_type))
                &&& opt_text(s.url) == url_value_spec(text_of(&fields.og_url))
                &&& opt_text(s.image_url) == url_value_spec(text_of(&fields.og_image_url))
                &&& opt_text(s.site_name) == text_value_spec(text_of(&fields.og_site_name))
                &&& s.has_values_spec()
            },
            None => {
                &&& text_value_spec(text_of(&fields.og_title)) is None
                &&& text_value_spec(text_of(&fields.og_description)) is None
                &&& text_value_spec(text_of(&fields.og_type)) is None
                &&& url_value_spec(text_of(&fields.og_url)) is None
                &&& url_value_spec(text_of(&fields.og_image_url)) is None
                &&& text_value_spec(text_of(&fields.og_site_name)) is None
            },
        },
{
    let summary = OgSummary {
        title: normalize_text_value(as_str_opt(&fields.og_title)),
        description: normalize_text_value(as_str_opt(&fields.og_description)),
        og_type: normalize_text_value(as_str_opt(&fields.og_type)),
        url: normalize_url_value(as_str_opt(&fields.og_url)),
        image_url: normalize_url_value(as_str_opt(&fields.og_image_url)),
        site_name: normalize_text_value(as_str_opt(&fields.og_site_name)),
    };
    if summary.has_values() {
        Some(summary)
    } else {
        None
    }
}

// ---------------------------------------------------------------------------
// Choosing a title
// ---------------------------------------------------------------------------

/// An Open Graph title can stand as the display title: not blank, and at
/// most 200 characters once normalized.
pub open spec fn candidate_usable(candidate: Seq<char>) -> bool {
    display_text(candidate).len() > 0 && display_text(candidate).len() <= 200
}

pub fn metadata_title_candidate_is_usable(candidate: &str) -> (b: bool)
    ensures
        b == candidate_usable(candidate@),
{
    let n = display_text_chars(&chars_of(candidate));
    n.len() > 0 && n.len() <= 200
}

/// A title that is really a URL: blank, equal (ignoring ASCII case) to the
/// link's URL or raw URL, or starting with `http://` or `https://`.
pub open spec fn url_like(value: Seq<char>, link_url: Seq<char>, raw_url: Seq<char>) -> bool {
    let t = trim(value);
    t.len() == 0 || lower_ascii(t) == lower_ascii(trim(link_url)) || lower_ascii(t) == lower_ascii(
        trim(raw_url),
    ) || starts_with(lower_ascii(t), "http://"@) || starts_with(lower_ascii(t), "https://"@)
}

pub fn looks_like_url_title(value: &str, link_url: &str, raw_url: &str) -> (b: bool)
    ensures
        b == url_like(value@, link_url@, raw_url@),
{
    let t = trim_exec(&chars_of(value));
    if t.len() == 0 {
        return true;
    }
    let lt = to_ascii_lowercase(&t);
    let lu = to_ascii_lowercase(&trim_exec(&chars_of(link_url)));
    let lr = to_ascii_lowercase(&trim_exec(&chars_of(raw_url)));
    if seq_eq(&lt, &lu) || seq_eq(&lt, &lr) {
        return true;
    }
    matches_at_exec(&lt, &chars_of("http://"), 0) || matches_at_exec(&lt, &chars_of("https://"), 0)
}

pub fn word_count(value: &str) -> (n: usize)
    ensures
        n == words(value@).len(),
{
    split_whitespace(&chars_of(value)).len()
}

/// The Open Graph title wins over the current one when the current one is
/// URL-like and it is not, when the current one is short (under 12
/// characters) and it is long (20 or more) and not URL-like, or when the
/// current one is one word and it is several and not URL-like.
pub open spec fn prefer_metadata(
    current: Seq<char>,
    link_url: Seq<char>,
    raw_url: Seq<char>,
    candidate: Seq<char>,
) -> bool {
    let ct = display_text(current);
    let nt = display_text(candidate);
    let c_url = url_like(ct, link_url, raw_url);
    let n_url = url_like(nt, link_url, raw_url);
    (c_url && !n_url) || (ct.len() < 12 && nt.len() >= 20 && !n_url) || (words(ct).len() == 1
        && words(nt).len() >= 2 && !n_url)
}

pub fn should_prefer_metadata_title(
    current: &str,
    link_url: &str,
    raw_url: &str,
    candidate: &str,
) -> (b: bool)
    ensures
        b == prefer_metadata(current@, link_url@, raw_url@, candidate@),
{
    let current_title = normalize_display_text(current);
    let candidate_title = normalize_display_text(candidate);
    let current_url_like = looks_like_url_title(current_title.as_str(), link_url, raw_url);
    let candidate_url_like = looks_like_url_title(candidate_title.as_str(), link_url, raw_url);
    if current_url_like && !candidate_url_like {
        return true;
    }
    let current_len = chars_of(current_title.as_str()).len();
    let candidate_len = chars_of(candidate_title.as_str()).len();
    if current_len < 12 && candidate_len >= 20 && !candidate_url_like {
        return true;
    }
    word_count(current_title.as_str()) == 1 && word_count(candidate_title.as_str()) >= 2
        && !candidate_url_like
}


/// The title the show page of a hyperlink displays, before its site name is
/// cut off: the Open Graph title where it is usable and preferred over the
/// stored one, else the stored title.
pub open spec fn show_title_spec(
    title: Seq<char>,
    link_url: Seq<char>,
    raw_url: Seq<char>,
    og_title: Option<Seq<char>>,
) -> Seq<char> {
    match og_title {
        Some(c) => if candidate_usable(c) && prefer_metadata(title, link_url, raw_url, c) {
            c
        } else {
            title
        },
        None => title,
    }
}

/// The title to display on the show page of a hyperlink.
pub fn select_show_title_text(title: &str, link_url: &str, raw_url: &str, og_summary: Option<&OgSummary>) -> (r:
    String)
    ensures
        r@ == show_title_spec(
            title@,
            link_url@,
            raw_url@,
            match og_summary {
                Some(s) => opt_text(s.title),
                None => None,
            },
        ),
{
    if let Some(summary) = og_summary {
        if let Some(candidate) = summary.title() {
            if metadata_title_candidate_is_usable(candidate) && should_prefer_metadata_title(
                title,
                link_url,
                raw_url,
                candidate,
            ) {
                return candidate.to_string();
            }
        }
    }
    title.to_string()
}

} // verus!
