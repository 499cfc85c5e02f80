//! Points in time (UTC) as status reports, change feeds and pages print
//! them, and as backup archives spell them.
use vstd::prelude::*;

use chrono::{Datelike, NaiveDateTime, Timelike, Utc};

use crate::numbers::{dec_nat, format_u64};
use crate::storage::{pad2, pad2_exec, year_exec, year_text};
use crate::text::{append_all, chars_of, string_from_chars, trim, trim_exec};

verus! {

/// A calendar date and time of day in UTC. `nanosecond` may reach past one
/// second, which is how a leap second is written.
#[derive(Clone, Copy, Debug, PartialEq, Eq, Structural)]
pub struct Timestamp {
    pub year: i32,
    pub month: u32,
    pub day: u32,
    pub hour: u32,
    pub minute: u32,
    pub second: u32,
    pub nanosecond: u32,
}

// ---------------------------------------------------------------------------
// Text
// ---------------------------------------------------------------------------

/// `n` in decimal, with zeros in front up to `width` digits.
pub open spec fn zero_pad(n: nat, width: nat) -> Seq<char> {
    let d = dec_nat(n);
    if d.len() < width {
        Seq::new((width - d.len()) as nat, |_i: int| '0') + d
    } else {
        d
    }
}

/// The fraction of a second as `%.f` writes it: nothing for a whole second,
/// else a dot and three, six or nine digits, as few as say it exactly.
pub open spec fn fraction_text(nano: nat) -> Seq<char> {
    if nano == 0 {
        Seq::empty()
    } else if nano % 1_000_000 == 0 {
        seq!['.'] + zero_pad(nano / 1_000_000, 3)
    } else if nano % 1_000 == 0 {
        seq!['.'] + zero_pad(nano / 1_000, 6)
    } else {
        seq!['.'] + zero_pad(nano, 9)
    }
}

/// The second of the minute as `%S` writes it: 60 during a leap second.
pub open spec fn shown_second(t: Timestamp) -> nat {
    (t.second + t.nanosecond / 1_000_000_000) as nat
}

/// The date and the time up to the minute: `%Y-%m-%dT%H:%M`.
pub open spec fn minute_text(t: Timestamp) -> Seq<char> {
    year_text(t.year as int) + "-"@ + pad2(t.month as nat) + "-"@ + pad2(t.day as nat) + "T"@
        + pad2(t.hour as nat) + ":"@ + pad2(t.minute as nat)
}

/// `%Y-%m-%dT%H:%M:%S%.fZ`, the form of every time in a status report.
pub open spec fn datetime_text(t: Timestamp) -> Seq<char> {
    minute_text(t) + ":"@ + pad2(shown_second(t)) + fraction_text(
        (t.nanosecond % 1_000_000_000) as nat,
    ) + "Z"@
}

/// RFC 3339 with milliseconds and `Z`, the form of the change feed.
pub open spec fn graphql_datetime_text(t: Timestamp) -> Seq<char> {
    minute_text(t) + ":"@ + pad2(shown_second(t)) + "."@ + zero_pad(
        ((t.nanosecond % 1_000_000_000) / 1_000_000) as nat,
        3,
    ) + "Z"@
}

/// The English short name of a month, as `%b` writes it.
pub open spec fn short_month_name(m: int) -> Seq<char> {
    if m == 1 {
        "Jan"@
    } else if m == 2 {
        "Feb"@
    } else if m == 3 {
        "Mar"@
    } else if m == 4 {
        "Apr"@
    } else if m == 5 {
        "May"@
    } else if m == 6 {
        "Jun"@
    } else if m == 7 {
        "Jul"@
    } else if m == 8 {
        "Aug"@
    } else if m == 9 {
        "Sep"@
    } else if m == 10 {
        "Oct"@
    } else if m == 11 {
        "Nov"@
    } else {
        "Dec"@
    }
}

/// The twelve months have twelve different short names, each three letters,
/// a capital then two small ones.
pub proof fn law_short_month_names_distinct(a: int, b: int)
    requires
        1 <= a <= 12,
        1 <= b <= 12,
    ensures
        a != b ==> short_month_name(a) != short_month_name(b),
        short_month_name(a).len() == 3,
        'A' <= short_month_name(a)[0] <= 'Z',
        'a' <= short_month_name(a)[1] <= 'z',
        'a' <= short_month_name(a)[2] <= 'z',
{
    reveal_strlit("Jan");
    reveal_strlit("Feb");
    reveal_strlit("Mar");
    reveal_strlit("Apr");
    reveal_strlit("May");
    reveal_strlit("Jun");
    reveal_strlit("Jul");
    reveal_strlit("Aug");
    reveal_strlit("Sep");
    reveal_strlit("Oct");
    reveal_strlit("Nov");
    reveal_strlit("Dec");
    assert("Feb"@[0] != "Jan"@[0]);
    assert("Mar"@[0] != "Jan"@[0]);
    assert("Mar"@[0] != "Feb"@[0]);
    assert("Apr"@[0] != "Jan"@[0]);
    assert("Apr"@[0] != "Feb"@[0]);
    assert("Apr"@[0] != "Mar"@[0]);
    assert("May"@[0] != "Jan"@[0]);
    assert("May"@[0] != "Feb"@[0]);
    assert("May"@[2] != "Mar"@[2]);
    assert("May"@[0] != "Apr"@[0]);
    assert("Jun"@[1] != "Jan"@[1]);
    assert("Jun"@[0] != "Feb"@[0]);
    assert("Jun"@[0] != "Mar"@[0]);
    assert("Jun"@[0] != "Apr"@[0]);
    assert("Jun"@[0] != "May"@[0]);
    assert("Jul"@[1] != "Jan"@[1]);
    assert("Jul"@[0] != "Feb"@[0]);
    assert("Jul"@[0] != "Mar"@[0]);
    assert("Jul"@[0] != "Apr"@[0]);
    assert("Jul"@[0] != "May"@[0]);
    assert("Jul"@[2] != "Jun"@[2]);
    assert("Aug"@[0] != "Jan"@[0]);
    assert("Aug"@[0] != "Feb"@[0]);
    assert("Aug"@[0] != "Mar"@[0]);
    assert("Aug"@[1] != "Apr"@[1]);
    assert("Aug"@[0] != "May"@[0]);
    assert("Aug"@[0] != "Jun"@[0]);
    assert("Aug"@[0] != "Jul"@[0]);
    assert("Sep"@[0] != "Jan"@[0]);
    assert("Sep"@[0] != "Feb"@[0]);
    assert("Sep"@[0] != "Mar"@[0]);
    assert("Sep"@[0] != "Apr"@[0]);
    assert("Sep"@[0] != "May"@[0]);
    assert("Sep"@[0] != "Jun"@[0]);
    assert("Sep"@[0] != "Jul"@[0]);
    assert("Sep"@[0] != "Aug"@[0]);
    assert("Oct"@[0] != "Jan"@[0]);
    assert("Oct"@[0] != "Feb"@[0]);
    assert("Oct"@[0] != "Mar"@[0]);
    assert("Oct"@[0] != "Apr"@[0]);
    assert("Oct"@[0] != "May"@[0]);
    assert("Oct"@[0] != "Jun"@[0]);
    assert("Oct"@[0] != "Jul"@[0]);
    assert("Oct"@[0] != "Aug"@[0]);
    assert("Oct"@[0] != "Sep"@[0]);
    assert("Nov"@[0] != "Jan"@[0]);
    assert("Nov"@[0] != "Feb"@[0]);
    assert("Nov"@[0] != "Mar"@[0]);
    assert("Nov"@[0] != "Apr"@[0]);
    assert("Nov"@[0] != "May"@[0]);
    assert("Nov"@[0] != "Jun"@[0]);
    assert("Nov"@[0] != "Jul"@[0]);
    assert("Nov"@[0] != "Aug"@[0]);
    assert("Nov"@[0] != "Sep"@[0]);
    assert("Nov"@[0] != "Oct"@[0]);
    assert("Dec"@[0] != "Jan"@[0]);
    assert("Dec"@[0] != "Feb"@[0]);
    assert("Dec"@[0] != "Mar"@[0]);
    assert("Dec"@[0] != "Apr"@[0]);
    assert("Dec"@[0] != "May"@[0]);
    assert("Dec"@[0] != "Jun"@[0]);
    assert("Dec"@[0] != "Jul"@[0]);
    assert("Dec"@[0] != "Aug"@[0]);
    assert("Dec"@[0] != "Sep"@[0]);
    assert("Dec"@[0] != "Oct"@[0]);
    assert("Dec"@[0] != "Nov"@[0]);
    if a != b {
        if short_month_name(a) == short_month_name(b) {
            assert(short_month_name(a)[0] == short_month_name(b)[0]);
            assert(short_month_name(a)[1] == short_month_name(b)[1]);
            assert(short_month_name(a)[2] == short_month_name(b)[2]);
        }
    }
}

/// A time element for the page: the machine form `%Y-%m-%dT%H:%M:%SZ` in
/// its attribute, `%b %d, %Y %H:%M UTC` as its text.
pub open spec fn relative_time_html(t: Timestamp) -> Seq<char> {
    "<relative-time datetime=\""@ + minute_text(t) + ":"@ + pad2(shown_second(t)) + "Z"@
        + "\">"@ + short_month_name(t.month as int) + " "@ + pad2(t.day as nat) + ", "@
        + year_text(t.year as int) + " "@ + pad2(t.hour as nat) + ":"@ + pad2(t.minute as nat)
        + " UTC"@ + "</relative-time>"@
}

fn pad2_wide(n: u64) -> (r: Vec<char>)
    ensures
        r@ == pad2(n as nat),
{
    let d = chars_of(format_u64(n).as_str());
    if n < 10 {
        let mut r: Vec<char> = vec!['0'];
        append_all(&mut r, &d);
        r
    } else {
        d
    }
}

fn zero_pad_exec(n: u64, width: usize) -> (r: Vec<char>)
    ensures
        r@ == zero_pad(n as nat, width as nat),
{
    let d = chars_of(format_u64(n).as_str());
    let mut r: Vec<char> = Vec::new();
    if d.len() < width {
        let k: usize = width - d.len();
        let mut i: usize = 0;
        while i < k
            invariant
                i <= k,
                r@.len() == i,
                forall|j: int| 0 <= j < i ==> r@[j] == '0',
            decreases k - i,
        {
            r.push('0');
            i = i + 1;
        }
        assert(r@ =~= Seq::new(k as nat, |_j: int| '0'));
    }
    append_all(&mut r, &d);
    r
}

fn fraction_exec(nano: u32) -> (r: Vec<char>)
    ensures
        r@ == fraction_text(nano as nat),
{
    if nano == 0 {
        Vec::new()
    } else {
        let digits = if nano % 1_000_000 == 0 {
            zero_pad_exec((nano / 1_000_000) as u64, 3)
        } else if nano % 1_000 == 0 {
            zero_pad_exec((nano / 1_000) as u64, 6)
        } else {
            zero_pad_exec(nano as u64, 9)
        };
        let mut r: Vec<char> = vec!['.'];
        append_all(&mut r, &digits);
        r
    }
}

fn minute_exec(t: &Timestamp) -> (r: Vec<char>)
    ensures
        r@ == minute_text(*t),
{
    let mut r = year_exec(t.year);
    append_all(&mut r, &chars_of("-"));
    append_all(&mut r, &pad2_exec(t.month));
    append_all(&mut r, &chars_of("-"));
    append_all(&mut r, &pad2_exec(t.day));
    append_all(&mut r, &chars_of("T"));
    append_all(&mut r, &pad2_exec(t.hour));
    append_all(&mut r, &chars_of(":"));
    append_all(&mut r, &pad2_exec(t.minute));
    assert(r@ =~= minute_text(*t));
    r
}

fn second_exec(t: &Timestamp) -> (r: Vec<char>)
    ensures
        r@ == pad2(shown_second(*t)),
{
    pad2_wide(t.second as u64 + (t.nanosecond / 1_000_000_000) as u64)
}

/// A time as the status reports print it (`%Y-%m-%dT%H:%M:%S%.fZ`).
pub fn format_datetime(value: &Timestamp) -> (r: String)
    ensures
        r@ == datetime_text(*value),
{
    let mut r = minute_exec(value);
    append_all(&mut r, &chars_of(":"));
    append_all(&mut r, &second_exec(value));
    append_all(&mut r, &fraction_exec(value.nanosecond % 1_000_000_000));
    append_all(&mut r, &chars_of("Z"));
    assert(r@ =~= datetime_text(*value));
    string_from_chars(&r)
}

/// A time as the change feed prints it: RFC 3339, milliseconds, `Z`.
pub fn format_graphql_datetime(value: &Timestamp) -> (r: String)
    ensures
        r@ == graphql_datetime_text(*value),
{
    let mut r = minute_exec(value);
    append_all(&mut r, &chars_of(":"));
    append_all(&mut r, &second_exec(value));
    append_all(&mut r, &chars_of("."));
    append_all(&mut r, &zero_pad_exec(((value.nanosecond % 1_000_000_000) / 1_000_000) as u64, 3));
    append_all(&mut r, &chars_of("Z"));
    assert(r@ =~= graphql_datetime_text(*value));
    string_from_chars(&r)
}

fn short_month_exec(m: u32) -> (r: &'static str)
    ensures
        r@ == short_month_name(m as int),
{
    if m == 1 {
        "Jan"
    } else if m == 2 {
        "Feb"
    } else if m == 3 {
        "Mar"
    } else if m == 4 {
        "Apr"
    } else if m == 5 {
        "May"
    } else if m == 6 {
        "Jun"
    } else if m == 7 {
        "Jul"
    } else if m == 8 {
        "Aug"
    } else if m == 9 {
        "Sep"
    } else if m == 10 {
        "Oct"
    } else if m == 11 {
        "Nov"
    } else {
        "Dec"
    }
}

/// A `<relative-time>` element for a time shown on a page.
pub fn render_relative_time(datetime: &Timestamp) -> (r: String)
    requires
        1 <= datetime.month <= 12,
    ensures
        r@ == relative_time_html(*datetime),
{
    let mut r = chars_of("<relative-time datetime=\"");
    append_all(&mut r, &minute_exec(datetime));
    append_all(&mut r, &chars_of(":"));
    append_all(&mut r, &second_exec(datetime));
    append_all(&mut r, &chars_of("Z"));
    append_all(&mut r, &chars_of("\">"));
    append_all(&mut r, &chars_of(short_month_exec(datetime.month)));
    append_all(&mut r, &chars_of(" "));
    append_all(&mut r, &pad2_exec(datetime.day));
    append_all(&mut r, &chars_of(", "));
    append_all(&mut r, &year_exec(datetime.year));
    append_all(&mut r, &chars_of(" "));
    append_all(&mut r, &pad2_exec(datetime.hour));
    append_all(&mut r, &chars_of(":"));
    append_all(&mut r, &pad2_exec(datetime.minute));
    append_all(&mut r, &chars_of(" UTC"));
    append_all(&mut r, &chars_of("</relative-time>"));
    assert(r@ =~= relative_time_html(*datetime));
    string_from_chars(&r)
}

// ---------------------------------------------------------------------------
// Parsing
// ---------------------------------------------------------------------------

/// What chrono's `NaiveDateTime::parse_from_str(value, format)` gives.
pub uninterp spec fn naive_parse(value: Seq<char>, format: Seq<char>) -> Option<Timestamp>;

/// What chrono's `DateTime::parse_from_rfc3339(value)` gives, moved to UTC.
pub uninterp spec fn rfc3339_utc(value: Seq<char>) -> Option<Timestamp>;

/// chrono's `NaiveDateTime::parse_from_str`: the date and time that `value`
/// spells in the `strftime` pattern `format`. The contract names the result;
/// which texts a pattern accepts is left unsaid.
#[verifier::external_body]
fn parse_with_format(value: &str, format: &str) -> (r: Option<Timestamp>)
    ensures
        r == naive_parse(value@, format@),
{
    match NaiveDateTime::parse_from_str(value, format) {
        Ok(t) => Some(Timestamp { year: t.year(), month: t.month(), day: t.day(), hour: t.hour(),
            minute: t.minute(), second: t.second(), nanosecond: t.nanosecond() }),
        Err(_) => None,
    }
}

/// chrono's `DateTime::parse_from_rfc3339`, then `with_timezone(&Utc)` and
/// `naive_utc()`: the UTC time that an RFC 3339 text names. The contract
/// names the result; which texts parse is left unsaid.
#[verifier::external_body]
fn parse_rfc3339_utc(value: &str) -> (r: Option<Timestamp>)
    ensures
        r == rfc3339_utc(value@),
{
    match chrono::DateTime::parse_from_rfc3339(value) {
        Ok(p) => {
            let t = p.with_timezone(&Utc).naive_utc();
            Some(Timestamp { year: t.year(), month: t.month(), day: t.day(), hour: t.hour(),
                minute: t.minute(), second: t.second(), nanosecond: t.nanosecond() })
        }
        Err(_) => None,
    }
}

/// The first of the accepted layouts that reads `value`: with `T` or a
/// space between date and time, with or without a fraction of a second.
pub open spec fn naive_datetime_of(value: Seq<char>) -> Option<Timestamp> {
    if naive_parse(value, "%Y-%m-%dT%H:%M:%S%.f"@) is Some {
        naive_parse(value, "%Y-%m-%dT%H:%M:%S%.f"@)
    } else if naive_parse(value, "%Y-%m-%d %H:%M:%S%.f"@) is Some {
        naive_parse(value, "%Y-%m-%d %H:%M:%S%.f"@)
    } else if naive_parse(value, "%Y-%m-%dT%H:%M:%S"@) is Some {
        naive_parse(value, "%Y-%m-%dT%H:%M:%S"@)
    } else {
        naive_parse(value, "%Y-%m-%d %H:%M:%S"@)
    }
}

/// `s` without one `Z` at its end.
pub open spec fn strip_z(s: Seq<char>) -> Seq<char> {
    if s.len() > 0 && s.last() == 'Z' {
        s.drop_last()
    } else {
        s
    }
}

/// A time read from a backup archive: trimmed, its `Z` dropped, read in
/// the first layout that fits; an error naming the text otherwise.
pub open spec fn parse_datetime_spec(value: Seq<char>) -> Result<Timestamp, Seq<char>> {
    let t = trim(value);
    if t.len() == 0 {
        Err("value is empty"@)
    } else {
        match naive_datetime_of(strip_z(t)) {
            Some(p) => Ok(p),
            None => Err("unsupported datetime format: "@ + strip_z(t)),
        }
    }
}

/// A `Result` whose error text is taken by its view.
pub open spec fn result_text<T>(r: Result<T, String>) -> Result<T, Seq<char>> {
    match r {
        Ok(v) => Ok(v),
        Err(e) => Err(e@),
    }
}

/// Reads a date and time in the first accepted layout that fits.
pub fn parse_naive_datetime(value: &str) -> (r: Option<Timestamp>)
    ensures
        r == naive_datetime_of(value@),
{
    let a = parse_with_format(value, "%Y-%m-%dT%H:%M:%S%.f");
    if a.is_some() {
        return a;
    }
    let b = parse_with_format(value, "%Y-%m-%d %H:%M:%S%.f");
    if b.is_some() {
        return b;
    }
    let c = parse_with_format(value, "%Y-%m-%dT%H:%M:%S");
    if c.is_some() {
        return c;
    }
    parse_with_format(value, "%Y-%m-%d %H:%M:%S")
}

/// Reads a time written in a backup archive.
pub fn parse_datetime(value: &str) -> (r: Result<Timestamp, String>)
    ensures
        result_text(r) == parse_datetime_spec(value@),
{
    let t = trim_exec(&chars_of(value));
    if t.len() == 0 {
        return Err("value is empty".to_string());
    }
    let s = if t[t.len() - 1] == 'Z' {
        let mut u = t.clone();
        u.pop();
        assert(u@ =~= t@.drop_last());
        u
    } else {
        t
    };
    assert(s@ == strip_z(trim(value@)));
    let text = string_from_chars(&s);
    match parse_naive_datetime(text.as_str()) {
        Some(p) => Ok(p),
        None => {
            let mut msg = chars_of("unsupported datetime format: ");
            append_all(&mut msg, &s);
            Err(string_from_chars(&msg))
        },
    }
}

/// An optional time from a backup archive: absent or blank is none.
pub open spec fn parse_optional_spec(value: Option<Seq<char>>) -> Result<Option<Timestamp>, Seq<char>> {
    match value {
        None => Ok(None),
        Some(v) => if trim(v).len() == 0 {
            Ok(None)
        } else {
            match parse_datetime_spec(trim(v)) {
                Ok(p) => Ok(Some(p)),
                Err(e) => Err(e),
            }
        },
    }
}

/// Reads an optional time from a backup archive.
pub fn parse_optional_datetime(value: Option<&str>) -> (r: Result<Option<Timestamp>, String>)
    ensures
        result_text(r) == parse_optional_spec(
            match value {
                Some(v) => Some(v@),
                None => None,
            },
        ),
{
    let Some(value) = value else {
        return Ok(None);
    };
    let t = trim_exec(&chars_of(value));
    if t.len() == 0 {
        return Ok(None);
    }
    let text = string_from_chars(&t);
    match parse_datetime(text.as_str()) {
        Ok(p) => Ok(Some(p)),
        Err(e) => Err(e),
    }
}

/// The message of a change-feed cursor that is no RFC 3339 time.
pub open spec fn cursor_error() -> Seq<char> {
    "updatedAt must be RFC3339 timestamp"@
}

/// Reads the `updatedAt` cursor of the change feed: an RFC 3339 time,
/// trimmed, moved to UTC.
pub fn parse_updated_at_cursor(value: &str) -> (r: Result<Timestamp, String>)
    ensures
        result_text(r) == (if trim(value@).len() == 0 {
            Err(cursor_error())
        } else {
            match rfc3339_utc(trim(value@)) {
                Some(t) => Ok(t),
                None => Err(cursor_error()),
            }
        }),
{
    let t = trim_exec(&chars_of(value));
    if t.len() == 0 {
        return Err("updatedAt must be RFC3339 timestamp".to_string());
    }
    let text = string_from_chars(&t);
    match parse_rfc3339_utc(text.as_str()) {
        Some(p) => Ok(p),
        None => Err("updatedAt must be RFC3339 timestamp".to_string()),
    }
}

} // verus!
