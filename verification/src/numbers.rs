//! Decimal text of integers: the `{}` formatting of ids and page numbers in
//! paths, and `str::parse::<i32>` for ids read back from paths.
use vstd::prelude::*;

use crate::text::string_from_chars;

verus! {

/// The ASCII digit for `d` in `0..10`.
pub open spec fn digit_char(d: int) -> char {
    (48 + d) as char
}

/// The decimal digits of `n`, most significant first, without leading zeros.
pub open spec fn dec_nat(n: nat) -> Seq<char>
    decreases n,
{
    if n < 10 {
        seq![digit_char(n as int)]
    } else {
        dec_nat(n / 10).push(digit_char((n % 10) as int))
    }
}

/// `n` formatted with `{}`: a `-` before the digits of a negative number.
pub open spec fn dec_int(n: int) -> Seq<char> {
    if n < 0 {
        seq!['-'] + dec_nat((-n) as nat)
    } else {
        dec_nat(n as nat)
    }
}

fn digit_exec(d: u64) -> (c: char)
    requires
        d < 10,
    ensures
        c == digit_char(d as int),
{
    let b: u8 = 48 + d as u8;
    b as char
}

/// The decimal digits of `n`.
pub fn format_u64(n: u64) -> (s: String)
    ensures
        s@ == dec_nat(n as nat),
{
    string_from_chars(&digits_u64(n))
}

fn digits_u64(n: u64) -> (v: Vec<char>)
    ensures
        v@ == dec_nat(n as nat),
{
    let mut out: Vec<char> = Vec::new();
    let mut m = n;
    while m >= 10
        invariant
            dec_nat(n as nat) == dec_nat(m as nat) + out@,
        decreases m,
    {
        let d = digit_exec(m % 10);
        let ghost before = out@;
        out.insert(0, d);
        assert(dec_nat(m as nat) + before =~= dec_nat((m / 10) as nat) + out@);
        m = m / 10;
    }
    let d = digit_exec(m);
    let ghost before = out@;
    out.insert(0, d);
    assert(dec_nat(m as nat) + before =~= out@);
    out
}

/// `n` formatted with `{}`.
pub fn format_i64(n: i64) -> (s: String)
    ensures
        s@ == dec_int(n as int),
{
    if n < 0 {
        let mag: u64 = if n == i64::MIN {
            9223372036854775808u64
        } else {
            (-n) as u64
        };
        let mut v: Vec<char> = vec!['-'];
        let d = digits_u64(mag);
        let mut i: usize = 0;
        while i < d.len()
            invariant
                i <= d.len(),
                v@ == seq!['-'] + d@.take(i as int),
            decreases d.len() - i,
        {
            v.push(d[i]);
            i += 1;
            assert(v@ =~= seq!['-'] + d@.take(i as int));
        }
        assert(d@.take(i as int) =~= d@);
        string_from_chars(&v)
    } else {
        format_u64(n as u64)
    }
}

/// `n` formatted with `{}`.
pub fn format_i32(n: i32) -> (s: String)
    ensures
        s@ == dec_int(n as int),
{
    format_i64(n as i64)
}

// ---------------------------------------------------------------------------
// Parsing
// ---------------------------------------------------------------------------

pub open spec fn is_digit(c: char) -> bool {
    '0' <= c && c <= '9'
}

/// The value of a string of decimal digits.
pub open spec fn digits_value(s: Seq<char>) -> int
    decreases s.len(),
{
    if s.len() == 0 {
        0
    } else {
        digits_value(s.drop_last()) * 10 + (s.last() as int - 48)
    }
}

pub open spec fn all_digits(s: Seq<char>) -> bool {
    forall|i: int| 0 <= i < s.len() ==> is_digit(#[trigger] s[i])
}

/// `s` without a leading sign.
pub open spec fn unsigned_part(s: Seq<char>) -> Seq<char> {
    if s.len() > 0 && (s[0] == '-' || s[0] == '+') {
        s.drop_first()
    } else {
        s
    }
}

/// `str::parse` for a signed integer type with range `lo..=hi`: an
/// optional `+` or `-`, then one or more ASCII digits whose value is in
/// range.
pub open spec fn parse_int_spec(s: Seq<char>, lo: int, hi: int) -> Option<int> {
    let neg = s.len() > 0 && s[0] == '-';
    let body = unsigned_part(s);
    if body.len() == 0 || !all_digits(body) {
        None
    } else {
        let v = if neg {
            -digits_value(body)
        } else {
            digits_value(body)
        };
        if lo <= v <= hi {
            Some(v)
        } else {
            None
        }
    }
}

/// `str::parse::<i32>`.
pub open spec fn parse_i32_spec(s: Seq<char>) -> Option<int> {
    parse_int_spec(s, i32::MIN as int, i32::MAX as int)
}

/// `str::parse::<i64>`.
pub open spec fn parse_i64_spec(s: Seq<char>) -> Option<int> {
    parse_int_spec(s, i64::MIN as int, i64::MAX as int)
}

/// Parses a decimal `i64` as `str::parse` does.
pub fn parse_i64(s: &Vec<char>) -> (r: Option<i64>)
    ensures
        match r {
            Some(v) => parse_i64_spec(s@) == Some(v as int),
            None => parse_i64_spec(s@) is None,
        },
{
    let neg = s.len() > 0 && s[0] == '-';
    let start: usize = if s.len() > 0 && (s[0] == '-' || s[0] == '+') {
        1
    } else {
        0
    };
    let ghost body = unsigned_part(s@);
    assert(body =~= s@.skip(start as int));
    if start >= s.len() {
        return None;
    }
    let mut acc: u128 = 0;
    let mut big = false;
    let mut i = start;
    while i < s.len()
        invariant
            start <= i <= s.len(),
            body == s@.skip(start as int),
            body == unsigned_part(s@),
            body.len() > 0,
            neg == (s@.len() > 0 && s@[0] == '-'),
            forall|k: int| 0 <= k < i - start ==> is_digit(#[trigger] body[k]),
            big ==> digits_value(body.take(i - start)) > 9223372036854775808,
            !big ==> acc == digits_value(body.take(i - start)) && acc <= 9223372036854775808,
        decreases s.len() - i,
    {
        let c = s[i];
        assert(body[i - start] == c);
        if !('0' <= c && c <= '9') {
            assert(!is_digit(body[i - start]));
            return None;
        }
        assert(body.take(i - start + 1).drop_last() =~= body.take(i - start));
        assert(body.take(i - start + 1).last() == c);
        if !big {
            let d = (c as u32 - 48) as u128;
            let next = acc * 10 + d;
            if next > 9223372036854775808 {
                big = true;
            } else {
                acc = next;
            }
        }
        i += 1;
    }
    assert(body.take(i - start) =~= body);
    if big {
        return None;
    }
    if neg {
        if acc == 9223372036854775808 {
            Some(i64::MIN)
        } else {
            Some(0 - (acc as i64))
        }
    } else {
        if acc > 9223372036854775807 {
            None
        } else {
            Some(acc as i64)
        }
    }
}

/// Parses a decimal `i32` as `str::parse` does.
pub fn parse_i32(s: &Vec<char>) -> (r: Option<i32>)
    ensures
        match r {
            Some(v) => parse_i32_spec(s@) == Some(v as int),
            None => parse_i32_spec(s@) is None,
        },
{
    match parse_i64(s) {
        Some(v) => if i32::MIN as i64 <= v && v <= i32::MAX as i64 {
            Some(v as i32)
        } else {
            None
        },
        None => None,
    }
}

// ---------------------------------------------------------------------------
// Laws
// ---------------------------------------------------------------------------

/// The decimal text of a number is all digits, and not empty.
pub proof fn lemma_dec_nat_all_digits(n: nat)
    ensures
        dec_nat(n).len() > 0,
        forall|i: int| 0 <= i < dec_nat(n).len() ==> is_digit(#[trigger] dec_nat(n)[i]),
{
    lemma_dec_nat_digits(n);
}

proof fn lemma_dec_nat_digits(n: nat)
    ensures
        dec_nat(n).len() > 0,
        forall|i: int| 0 <= i < dec_nat(n).len() ==> is_digit(#[trigger] dec_nat(n)[i]),
        digits_value(dec_nat(n)) == n,
    decreases n,
{
    assert(digit_char((n % 10) as int) as int == 48 + n % 10);
    if n >= 10 {
        lemma_dec_nat_digits(n / 10);
        let prev = dec_nat(n / 10);
        assert(dec_nat(n).drop_last() =~= prev);
        assert(dec_nat(n).last() == digit_char((n % 10) as int));
        assert(digits_value(dec_nat(n)) == digits_value(prev) * 10 + (n % 10));
        assert((n / 10) * 10 + n % 10 == n);
        assert forall|i: int| 0 <= i < dec_nat(n).len() implies is_digit(#[trigger] dec_nat(n)[i]) by {
            if i < prev.len() {
                assert(dec_nat(n)[i] == prev[i]);
            }
        }
    } else {
        assert(dec_nat(n).drop_last() =~= Seq::<char>::empty());
        assert(digits_value(dec_nat(n)) == digits_value(dec_nat(n).drop_last()) * 10 + (
        dec_nat(n).last() as int - 48));
    }
}

/// Reading back the decimal text of any `i32` gives the same number: ids
/// written into paths parse to themselves.
pub proof fn law_i32_text_round_trip(n: i32)
    ensures
        parse_i32_spec(dec_int(n as int)) == Some(n as int),
{
    if n < 0 {
        let m = (-(n as int)) as nat;
        lemma_dec_nat_digits(m);
        assert((seq!['-'] + dec_nat(m)).drop_first() =~= dec_nat(m));
        assert(unsigned_part(dec_int(n as int)) == dec_nat(m));
        assert(all_digits(dec_nat(m)));
        assert(dec_int(n as int)[0] == '-');
    } else {
        lemma_dec_nat_digits(n as nat);
        assert(is_digit(dec_nat(n as nat)[0]));
        assert(all_digits(dec_nat(n as nat)));
    }
}

} // verus!
