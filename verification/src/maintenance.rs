//! Background maintenance: backup and import progress, backup file names,
//! artifact garbage-collection retries and settings, change feeds, and the
//! static assets served with the pages.
use vstd::prelude::*;

use crate::numbers::{dec_nat, format_u64};
use crate::text::{
    append_all, chars_of, ends_with, eq_lit, lower_ascii, matches_at_exec, split_char,
    split_char_exec, starts_with, string_from_chars, to_ascii_lowercase, views,
};

verus! {

// ---------------------------------------------------------------------------
// Backups and imports
// ---------------------------------------------------------------------------

#[derive(Clone, Copy, Debug, PartialEq, Eq, Structural)]
pub enum BackupProgressStage {
    LoadingRecords,
    PackingArtifacts,
    Finalizing,
}

impl BackupProgressStage {
    pub fn as_str(self) -> (r: &'static str)
        ensures
            r@ == (match self {
                BackupProgressStage::LoadingRecords => "loading_records"@,
                BackupProgressStage::PackingArtifacts => "packing_artifacts"@,
                BackupProgressStage::Finalizing => "finalizing"@,
            }),
    {
        match self {
            BackupProgressStage::LoadingRecords => "loading_records",
            BackupProgressStage::PackingArtifacts => "packing_artifacts",
            BackupProgressStage::Finalizing => "finalizing",
        }
    }
}

#[derive(Clone, Copy, Debug, PartialEq, Eq, Structural)]
pub enum ImportProgressStage {
    Validating,
    RestoringHyperlinks,
    RestoringRelations,
    RestoringArtifacts,
    Finalizing,
}

impl ImportProgressStage {
    pub fn as_str(self) -> (r: &'static str)
        ensures
            r@ == (match self {
                ImportProgressStage::Validating => "validating"@,
                ImportProgressStage::RestoringHyperlinks => "restoring_hyperlinks"@,
                ImportProgressStage::RestoringRelations => "restoring_relations"@,
                ImportProgressStage::RestoringArtifacts => "restoring_artifacts"@,
                ImportProgressStage::Finalizing => "finalizing"@,
            }),
    {
        match self {
            ImportProgressStage::Validating => "validating",
            ImportProgressStage::RestoringHyperlinks => "restoring_hyperlinks",
            ImportProgressStage::RestoringRelations => "restoring_relations",
            ImportProgressStage::RestoringArtifacts => "restoring_artifacts",
            ImportProgressStage::Finalizing => "finalizing",
        }
    }
}

pub const BACKUP_FILE_PREFIX: &'static str = "hyperlinked-backup-";

pub const BACKUP_FILE_SUFFIX: &'static str = ".zip";

/// A file name that a backup export writes.
pub open spec fn is_backup_file_name(name: Seq<char>) -> bool {
    starts_with(name, BACKUP_FILE_PREFIX@) && ends_with(name, BACKUP_FILE_SUFFIX@)
}

pub fn matches_backup_file_name(file_name: &str) -> (b: bool)
    ensures
        b == is_backup_file_name(file_name@),
{
    let n = chars_of(file_name);
    let pre = chars_of(BACKUP_FILE_PREFIX);
    let suf = chars_of(BACKUP_FILE_SUFFIX);
    matches_at_exec(&n, &pre, 0) && suf.len() <= n.len() && matches_at_exec(
        &n,
        &suf,
        n.len() - suf.len(),
    )
}

/// `hyperlinked-backup-{timestamp}-{pid}-{job}-{sequence}.zip`.
pub open spec fn backup_file_name_spec(timestamp_nanos: u128, pid: u32, job_id: u64, sequence: u64) -> Seq<char> {
    BACKUP_FILE_PREFIX@ + dec_nat(timestamp_nanos as nat) + "-"@ + dec_nat(pid as nat) + "-"@
        + dec_nat(job_id as nat) + "-"@ + dec_nat(sequence as nat) + BACKUP_FILE_SUFFIX@
}

fn digits_u128(n: u128) -> (r: Vec<char>)
    ensures
        r@ == dec_nat(n as nat),
{
    let mut out: Vec<char> = Vec::new();
    let mut m = n;
    while m >= 10
        invariant
            dec_nat(n as nat) == dec_nat(m as nat) + out@,
        decreases m,
    {
        let d = chars_of(format_u64((m % 10) as u64).as_str());
        assert(d@ == dec_nat((m % 10) as nat));
        assert(d@ =~= seq![crate::numbers::digit_char((m % 10) as int)]);
        let ghost before = out@;
        out.insert(0, d[0]);
        assert(dec_nat(m as nat) + before =~= dec_nat((m / 10) as nat) + out@);
        m = m / 10;
    }
    let d = chars_of(format_u64(m as u64).as_str());
    assert(d@ =~= seq![crate::numbers::digit_char(m as int)]);
    let ghost before = out@;
    out.insert(0, d[0]);
    assert(dec_nat(m as nat) + before =~= out@);
    out
}

/// The name of a new backup file: the time, the process and the job keep
/// names apart.
pub fn backup_file_name(timestamp_nanos: u128, pid: u32, job_id: u64, sequence: u64) -> (r: String)
    ensures
        r@ == backup_file_name_spec(timestamp_nanos, pid, job_id, sequence),
        is_backup_file_name(r@),
{
    let mut out = chars_of(BACKUP_FILE_PREFIX);
    append_all(&mut out, &digits_u128(timestamp_nanos));
    append_all(&mut out, &chars_of("-"));
    append_all(&mut out, &chars_of(format_u64(pid as u64).as_str()));
    append_all(&mut out, &chars_of("-"));
    append_all(&mut out, &chars_of(format_u64(job_id).as_str()));
    append_all(&mut out, &chars_of("-"));
    append_all(&mut out, &chars_of(format_u64(sequence).as_str()));
    append_all(&mut out, &chars_of(BACKUP_FILE_SUFFIX));
    let ghost s = out@;
    proof {
        reveal_strlit("hyperlinked-backup-");
        reveal_strlit(".zip");
        assert(s.subrange(0, BACKUP_FILE_PREFIX@.len() as int) =~= BACKUP_FILE_PREFIX@);
        assert(s.subrange(s.len() - 4, s.len() as int) =~= BACKUP_FILE_SUFFIX@);
    }
    string_from_chars(&out)
}

// ---------------------------------------------------------------------------
// Garbage collection
// ---------------------------------------------------------------------------

pub open spec fn pow2(e: nat) -> nat
    decreases e,
{
    if e == 0 {
        1
    } else {
        2 * pow2((e - 1) as nat)
    }
}

/// Seconds to wait before retrying a failed deletion: 15 s, doubling with
/// each attempt, at most 16 minutes.
pub open spec fn backoff_spec(attempts: u32) -> int {
    let e: nat = if attempts == 0 {
        0
    } else if attempts - 1 > 6 {
        6
    } else {
        (attempts - 1) as nat
    };
    15 * pow2(e) as int
}

pub fn retry_backoff_secs(attempts: u32) -> (r: u64)
    ensures
        r == backoff_spec(attempts),
        15 <= r <= 960,
{
    let e = if attempts.saturating_sub(1) > 6 {
        6
    } else {
        attempts.saturating_sub(1)
    };
    let mut p: u64 = 1;
    let mut i: u32 = 0;
    while i < e
        invariant
            i <= e <= 6,
            p == pow2(i as nat),
            p <= 64,
        decreases e - i,
    {
        assert(pow2((i + 1) as nat) == 2 * pow2(i as nat));
        assert(pow2(i as nat) <= 32) by {
            if i >= 6 {
            }
            lemma_pow2_bound(i as nat);
        }
        p = p * 2;
        i += 1;
    }
    proof {
        lemma_pow2_bound(e as nat);
        lemma_pow2_positive(e as nat);
    }
    15 * p
}

proof fn lemma_pow2_bound(e: nat)
    requires
        e <= 6,
    ensures
        pow2(e) <= 64,
        e <= 5 ==> pow2(e) <= 32,
{
    reveal_with_fuel(pow2, 7);
    assert(pow2(0) == 1);
    assert(pow2(6) == 64);
    assert(pow2(5) == 32);
    assert(pow2(4) == 16);
}

proof fn lemma_pow2_positive(e: nat)
    ensures
        pow2(e) >= 1,
    decreases e,
{
    if e > 0 {
        lemma_pow2_positive((e - 1) as nat);
    }
}

/// When a failed deletion is tried again: the attempt count goes up by
/// one (saturating), and the next attempt waits the backoff of that count,
/// written as an SQLite date modifier `+{seconds} seconds`.
pub fn gc_retry_schedule(attempts: i64) -> (r: (i64, String))
    ensures
        r.0 == (if attempts == i64::MAX {
            attempts as int
        } else {
            attempts + 1
        }),
        r.1@ == "+"@ + dec_nat(backoff_spec(r.0 as u32) as nat) + " seconds"@,
{
    let next_attempts = if attempts == i64::MAX {
        attempts
    } else {
        attempts + 1
    };
    let backoff_secs = retry_backoff_secs(next_attempts as u32);
    let mut out = chars_of("+");
    append_all(&mut out, &chars_of(format_u64(backoff_secs).as_str()));
    append_all(&mut out, &chars_of(" seconds"));
    (next_attempts, string_from_chars(&out))
}

/// `str::parse::<u64>`: an optional `+`, then one or more ASCII digits
/// whose value fits in a `u64`.
pub open spec fn parse_u64_spec(s: Seq<char>) -> Option<int> {
    let body = if s.len() > 0 && s[0] == '+' {
        s.drop_first()
    } else {
        s
    };
    if body.len() == 0 || !crate::numbers::all_digits(body) || crate::numbers::digits_value(body)
        > u64::MAX {
        None
    } else {
        Some(crate::numbers::digits_value(body))
    }
}

pub(crate) fn parse_u64(s: &Vec<char>) -> (r: Option<u64>)
    ensures
        match r {
            Some(v) => parse_u64_spec(s@) == Some(v as int),
            None => parse_u64_spec(s@) is None,
        },
{
    let start: usize = if s.len() > 0 && s[0] == '+' {
        1
    } else {
        0
    };
    let ghost body = if s@.len() > 0 && s@[0] == '+' {
        s@.drop_first()
    } else {
        s@
    };
    assert(body =~= s@.skip(start as int));
    if start >= s.len() {
        return None;
    }
    let mut acc: u128 = 0;
    let mut big = false;
    let mut i = start;
    while i < s.len()
        invariant
            start <= i <= s.len(),
            body == s@.skip(start as int),
            body.len() > 0,
            body == (if s@.len() > 0 && s@[0] == '+' {
                s@.drop_first()
            } else {
                s@
            }),
            forall|k: int| 0 <= k < i - start ==> crate::numbers::is_digit(#[trigger] body[k]),
            big ==> crate::numbers::digits_value(body.take(i - start)) > u64::MAX,
            !big ==> acc == crate::numbers::digits_value(body.take(i - start)) && acc <= u64::MAX,
        decreases s.len() - i,
    {
        let c = s[i];
        assert(body[i - start] == c);
        if !('0' <= c && c <= '9') {
            assert(!crate::numbers::is_digit(body[i - start]));
            return None;
        }
        assert(body.take(i - start + 1).drop_last() =~= body.take(i - start));
        assert(body.take(i - start + 1).last() == c);
        if !big {
            let d = (c as u32 - 48) as u128;
            let next = acc * 10 + d;
            if next > 0xffff_ffff_ffff_ffff {
                big = true;
            } else {
                acc = next;
            }
        }
        i += 1;
    }
    assert(body.take(i - start) =~= body);
    if big {
        None
    } else {
        Some(acc as u64)
    }
}

pub open spec fn clamp_spec(v: int, min: int, max: int) -> int {
    if v < min {
        min
    } else if v > max {
        max
    } else {
        v
    }
}

/// A numeric setting: the value when it parses as a `u64`, else the
/// default, kept between `min` and `max`.
pub fn u64_setting(value: Option<&str>, default: u64, min: u64, max: u64) -> (r: u64)
    requires
        min <= max,
    ensures
        r == clamp_spec(
            match value {
                Some(v) => match parse_u64_spec(v@) {
                    Some(n) => n,
                    None => default as int,
                },
                None => default as int,
            },
            min as int,
            max as int,
        ),
{
    let v = match value {
        Some(v) => match parse_u64(&chars_of(v)) {
            Some(n) => n,
            None => default,
        },
        None => default,
    };
    if v < min {
        min
    } else if v > max {
        max
    } else {
        v
    }
}

// ---------------------------------------------------------------------------
// Change feed
// ---------------------------------------------------------------------------

/// What happened to a hyperlink in the change feed.
#[derive(Clone, Copy, Debug, PartialEq, Eq, Structural)]
pub enum HyperlinkChangeType {
    Updated,
    Deleted,
}

impl HyperlinkChangeType {
    pub fn graphql_name(self) -> (r: &'static str)
        ensures
            r@ == (match self {
                HyperlinkChangeType::Updated => "UPDATED"@,
                HyperlinkChangeType::Deleted => "DELETED"@,
            }),
    {
        match self {
            HyperlinkChangeType::Updated => "UPDATED",
            HyperlinkChangeType::Deleted => "DELETED",
        }
    }

    /// Updates sort before deletions.
    pub fn sort_rank(self) -> (r: i32)
        ensures
            r == (match self {
                HyperlinkChangeType::Updated => 0int,
                HyperlinkChangeType::Deleted => 1int,
            }),
    {
        match self {
            HyperlinkChangeType::Updated => 0,
            HyperlinkChangeType::Deleted => 1,
        }
    }
}

// ---------------------------------------------------------------------------
// Static assets
// ---------------------------------------------------------------------------

/// The plain names of a requested asset path (Unix rules: empty and `.`
/// parts dropped); `None` when a part is `..` or the path is absolute or
/// names nothing.
pub open spec fn asset_parts(parts: Seq<Seq<char>>) -> Option<Seq<Seq<char>>>
    decreases parts.len(),
{
    if parts.len() == 0 {
        Some(Seq::empty())
    } else {
        match asset_parts(parts.drop_last()) {
            None => None,
            Some(prev) => {
                let p = parts.last();
                if p == ".."@ {
                    None
                } else if p.len() == 0 || p == "."@ {
                    Some(prev)
                } else {
                    Some(prev.push(p))
                }
            },
        }
    }
}

pub open spec fn sanitized_asset_path(value: Seq<char>) -> Option<Seq<char>> {
    if starts_with(value, "/"@) {
        None
    } else {
        match asset_parts(split_char(value, '/')) {
            Some(ps) => if ps.len() == 0 {
                None
            } else {
                Some(crate::text::join(ps, "/"@))
            },
            None => None,
        }
    }
}

/// Normalizes a requested asset path, refusing ones that leave the asset
/// directory.
pub fn sanitize_asset_path(value: &str) -> (r: Option<String>)
    ensures
        match r {
            Some(p) => sanitized_asset_path(value@) == Some(p@),
            None => sanitized_asset_path(value@) is None,
        },
{
    let v = chars_of(value);
    if matches_at_exec(&v, &chars_of("/"), 0) {
        return None;
    }
    let parts = split_char_exec(&v, '/');
    let ghost ps = split_char(value@, '/');
    let mut kept: Vec<Vec<char>> = Vec::new();
    let mut i: usize = 0;
    while i < parts.len()
        invariant
            i <= parts.len(),
            views(parts@) == ps,
            ps == split_char(value@, '/'),
            !starts_with(value@, "/"@),
            asset_parts(ps.take(i as int)) == Some(views(kept@)),
        decreases parts.len() - i,
    {
        assert(ps.take(i + 1).drop_last() =~= ps.take(i as int));
        assert(ps.take(i + 1).last() == parts@[i as int]@);
        let p = &parts[i];
        if eq_lit(p, "..") {
            proof {
                lemma_asset_parts_none_stays(ps, i + 1);
            }
            return None;
        }
        if p.len() > 0 && !eq_lit(p, ".") {
            let ghost before = kept@;
            kept.push(p.clone());
            assert(views(kept@) =~= views(before).push(p@));
        }
        i += 1;
    }
    assert(ps.take(i as int) =~= ps);
    if kept.len() == 0 {
        return None;
    }
    Some(string_from_chars(&crate::text::join_exec(&kept, &chars_of("/"))))
}

proof fn lemma_asset_parts_none_stays(ps: Seq<Seq<char>>, k: int)
    requires
        0 <= k <= ps.len(),
        asset_parts(ps.take(k)) is None,
    ensures
        asset_parts(ps) is None,
    decreases ps.len() - k,
{
    if k < ps.len() {
        assert(ps.take(k + 1).drop_last() =~= ps.take(k));
        lemma_asset_parts_none_stays(ps, k + 1);
    } else {
        assert(ps.take(k) =~= ps);
    }
}

/// The last name in a path, as `Path::file_name` reads it (Unix rules):
/// empty and `.` parts are skipped; `None` when the last part is `..` or
/// there is none.
pub open spec fn last_name(parts: Seq<Seq<char>>) -> Option<Seq<char>>
    decreases parts.len(),
{
    if parts.len() == 0 {
        None
    } else {
        let p = parts.last();
        if p.len() == 0 || p == "."@ {
            last_name(parts.drop_last())
        } else if p == ".."@ {
            None
        } else {
            Some(p)
        }
    }
}

/// The index of the last `c` in `s`.
pub open spec fn last_index_of(s: Seq<char>, c: char) -> Option<int>
    decreases s.len(),
{
    if s.len() == 0 {
        None
    } else if s.last() == c {
        Some(s.len() - 1)
    } else {
        last_index_of(s.drop_last(), c)
    }
}

/// The extension of a file name, as `Path::extension` reads it: the text
/// after the last `.`, unless that dot starts the name.
pub open spec fn extension_of(name: Seq<char>) -> Option<Seq<char>> {
    match last_index_of(name, '.') {
        Some(p) => if p == 0 {
            None
        } else {
            Some(name.skip(p + 1))
        },
        None => None,
    }
}

/// The `Content-Type` of an asset, by its extension (ASCII case ignored).
pub open spec fn content_type_spec(path: Seq<char>) -> Seq<char> {
    let ext = match last_name(split_char(path, '/')) {
        Some(n) => match extension_of(n) {
            Some(e) => lower_ascii(e),
            None => Seq::empty(),
        },
        None => Seq::empty(),
    };
    if ext == "css"@ {
        "text/css; charset=utf-8"@
    } else if ext == "js"@ {
        "application/javascript; charset=utf-8"@
    } else if ext == "svg"@ {
        "image/svg+xml"@
    } else if ext == "woff2"@ {
        "font/woff2"@
    } else if ext == "woff"@ {
        "font/woff"@
    } else if ext == "ttf"@ {
        "font/ttf"@
    } else if ext == "otf"@ {
        "font/otf"@
    } else if ext == "png"@ {
        "image/png"@
    } else if ext == "jpg"@ || ext == "jpeg"@ {
        "image/jpeg"@
    } else if ext == "webp"@ {
        "image/webp"@
    } else if ext == "json"@ {
        "application/json; charset=utf-8"@
    } else {
        "application/octet-stream"@
    }
}

fn last_name_exec(parts: &Vec<Vec<char>>) -> (r: Option<Vec<char>>)
    ensures
        match r {
            Some(n) => last_name(views(parts@)) == Some(n@),
            None => last_name(views(parts@)) is None,
        },
{
    let ghost ps = views(parts@);
    let mut i = parts.len();
    assert(ps.take(i as int) =~= ps);
    while i > 0
        invariant
            i <= parts.len(),
            ps == views(parts@),
            last_name(ps) == last_name(ps.take(i as int)),
        decreases i,
    {
        let p = &parts[i - 1];
        assert(ps.take(i as int).last() == p@);
        assert(ps.take(i as int).drop_last() =~= ps.take(i - 1));
        if p.len() == 0 || eq_lit(p, ".") {
            i -= 1;
        } else if eq_lit(p, "..") {
            return None;
        } else {
            return Some(p.clone());
        }
    }
    None
}

fn extension_exec(name: &Vec<char>) -> (r: Option<Vec<char>>)
    ensures
        match r {
            Some(e) => extension_of(name@) == Some(e@),
            None => extension_of(name@) is None,
        },
{
    let mut i = name.len();
    assert(name@.take(i as int) =~= name@);
    while i > 0 && name[i - 1] != '.'
        invariant
            i <= name.len(),
            last_index_of(name@, '.') == last_index_of(name@.take(i as int), '.'),
        decreases i,
    {
        assert(name@.take(i as int).drop_last() =~= name@.take(i - 1));
        i -= 1;
    }
    if i == 0 {
        assert(name@.take(0) =~= Seq::<char>::empty());
        return None;
    }
    assert(name@.take(i as int).last() == '.');
    if i - 1 == 0 {
        return None;
    }
    let e = crate::text::subvec(name, i, name.len());
    assert(e@ =~= name@.skip(i as int));
    Some(e)
}

pub fn content_type_for_path(path: &str) -> (r: &'static str)
    ensures
        r@ == content_type_spec(path@),
{
    let parts = split_char_exec(&chars_of(path), '/');
    let ext: Vec<char> = match last_name_exec(&parts) {
        Some(n) => match extension_exec(&n) {
            Some(e) => to_ascii_lowercase(&e),
            None => Vec::new(),
        },
        None => Vec::new(),
    };
    if eq_lit(&ext, "css") {
        "text/css; charset=utf-8"
    } else if eq_lit(&ext, "js") {
        "application/javascript; charset=utf-8"
    } else if eq_lit(&ext, "svg") {
        "image/svg+xml"
    } else if eq_lit(&ext, "woff2") {
        "font/woff2"
    } else if eq_lit(&ext, "woff") {
        "font/woff"
    } else if eq_lit(&ext, "ttf") {
        "font/ttf"
    } else if eq_lit(&ext, "otf") {
        "font/otf"
    } else if eq_lit(&ext, "png") {
        "image/png"
    } else if eq_lit(&ext, "jpg") || eq_lit(&ext, "jpeg") {
        "image/jpeg"
    } else if eq_lit(&ext, "webp") {
        "image/webp"
    } else if eq_lit(&ext, "json") {
        "application/json; charset=utf-8"
    } else {
        "application/octet-stream"
    }
}

} // verus!
