//! Where artifact payloads are stored on disk, and the checksum recorded
//! for each.
use vstd::prelude::*;

use sha2::{Digest, Sha256};

use crate::artifacts::{artifact_kind_file_extension, artifact_kind_slug, kind_info, HyperlinkArtifactKind};
use crate::numbers::{dec_int, dec_nat, format_i32, format_u64};
use crate::text::{append_all, chars_of, split_char, split_char_exec, starts_with, string_from_chars, views};

verus! {

/// A payload written to artifact storage: its path below the storage root
/// and the SHA-256 of its bytes in lower-case hex.
pub struct StoredArtifact {
    pub storage_path: String,
    pub checksum_sha256: String,
}

/// The calendar date and time of an artifact's creation (UTC).
pub struct DateTimeParts {
    pub year: i32,
    pub month: u32,
    pub day: u32,
    pub hour: u32,
    pub minute: u32,
    pub second: u32,
}

pub fn kind_slug(kind: &HyperlinkArtifactKind) -> (r: &'static str)
    ensures
        r@ == kind_info(*kind).0,
{
    artifact_kind_slug(kind)
}

pub fn extension(kind: &HyperlinkArtifactKind) -> (r: &'static str)
    ensures
        r@ == kind_info(*kind).2,
{
    artifact_kind_file_extension(kind)
}

// ---------------------------------------------------------------------------
// Date text
// ---------------------------------------------------------------------------

/// `n` with at least two digits.
pub open spec fn pad2(n: nat) -> Seq<char> {
    if n < 10 {
        seq!['0'] + dec_nat(n)
    } else {
        dec_nat(n)
    }
}

/// `n` with at least four digits.
pub open spec fn pad4(n: nat) -> Seq<char> {
    if n < 10 {
        "000"@ + dec_nat(n)
    } else if n < 100 {
        "00"@ + dec_nat(n)
    } else if n < 1000 {
        "0"@ + dec_nat(n)
    } else {
        dec_nat(n)
    }
}

/// A year as `%Y` writes it: four digits for years 0 to 9999, a sign
/// before years outside that range.
pub open spec fn year_text(y: int) -> Seq<char> {
    if 0 <= y <= 9999 {
        pad4(y as nat)
    } else if y > 9999 {
        seq!['+'] + dec_nat(y as nat)
    } else {
        seq!['-'] + pad4((-y) as nat)
    }
}

pub(crate) fn pad2_exec(n: u32) -> (r: Vec<char>)
    ensures
        r@ == pad2(n as nat),
{
    let d = chars_of(format_u64(n as u64).as_str());
    if n < 10 {
        let mut r: Vec<char> = vec!['0'];
        append_all(&mut r, &d);
        r
    } else {
        d
    }
}

fn pad4_exec(n: u64) -> (r: Vec<char>)
    ensures
        r@ == pad4(n as nat),
{
    let d = chars_of(format_u64(n).as_str());
    let mut r = if n < 10 {
        chars_of("000")
    } else if n < 100 {
        chars_of("00")
    } else if n < 1000 {
        chars_of("0")
    } else {
        Vec::new()
    };
    append_all(&mut r, &d);
    r
}

pub(crate) fn year_exec(y: i32) -> (r: Vec<char>)
    ensures
        r@ == year_text(y as int),
{
    if 0 <= y && y <= 9999 {
        pad4_exec(y as u64)
    } else if y > 9999 {
        let mut r: Vec<char> = vec!['+'];
        append_all(&mut r, &chars_of(format_u64(y as u64).as_str()));
        r
    } else {
        let mut r: Vec<char> = vec!['-'];
        let m: u64 = (0 - (y as i64)) as u64;
        append_all(&mut r, &pad4_exec(m));
        r
    }
}

/// `{id}/{slug}/{%Y}/{%m}/{%d}/{%Y%m%dT%H%M%SZ}-{unique}.{extension}`.
pub open spec fn relative_path_spec(
    hyperlink_id: int,
    k: HyperlinkArtifactKind,
    t: DateTimeParts,
    unique: Seq<char>,
) -> Seq<char> {
    let year = year_text(t.year as int);
    let month = pad2(t.month as nat);
    let day = pad2(t.day as nat);
    let stamp = year + month + day + "T"@ + pad2(t.hour as nat) + pad2(t.minute as nat) + pad2(
        t.second as nat,
    ) + "Z"@;
    dec_int(hyperlink_id) + "/"@ + kind_info(k).0 + "/"@ + year + "/"@ + month + "/"@ + day + "/"@
        + stamp + "-"@ + unique + "."@ + kind_info(k).2
}

/// The path of a new artifact below the storage root; `unique` keeps two
/// artifacts written in the same second apart.
pub fn build_relative_path(
    hyperlink_id: i32,
    kind: &HyperlinkArtifactKind,
    created_at: &DateTimeParts,
    unique: &str,
) -> (r: String)
    ensures
        r@ == relative_path_spec(hyperlink_id as int, *kind, *created_at, unique@),
{
    let year = year_exec(created_at.year);
    let month = pad2_exec(created_at.month);
    let day = pad2_exec(created_at.day);
    let mut stamp = year.clone();
    append_all(&mut stamp, &month);
    append_all(&mut stamp, &day);
    append_all(&mut stamp, &chars_of("T"));
    append_all(&mut stamp, &pad2_exec(created_at.hour));
    append_all(&mut stamp, &pad2_exec(created_at.minute));
    append_all(&mut stamp, &pad2_exec(created_at.second));
    append_all(&mut stamp, &chars_of("Z"));
    let mut out = chars_of(format_i32(hyperlink_id).as_str());
    append_all(&mut out, &chars_of("/"));
    append_all(&mut out, &chars_of(kind_slug(kind)));
    append_all(&mut out, &chars_of("/"));
    append_all(&mut out, &year);
    append_all(&mut out, &chars_of("/"));
    append_all(&mut out, &month);
    append_all(&mut out, &chars_of("/"));
    append_all(&mut out, &day);
    append_all(&mut out, &chars_of("/"));
    append_all(&mut out, &stamp);
    append_all(&mut out, &chars_of("-"));
    append_all(&mut out, &chars_of(unique));
    append_all(&mut out, &chars_of("."));
    append_all(&mut out, &chars_of(extension(kind)));
    string_from_chars(&out)
}

// ---------------------------------------------------------------------------
// Hex text
// ---------------------------------------------------------------------------

/// The lower-case hex digit for `d` in `0..16`.
pub open spec fn hex_digit(d: int) -> char {
    if d < 10 {
        (48 + d) as char
    } else {
        (87 + d) as char
    }
}

/// `n` in lower-case hex without leading zeros (`{:x}`).
pub open spec fn hex_nat(n: nat) -> Seq<char>
    decreases n,
{
    if n < 16 {
        seq![hex_digit(n as int)]
    } else {
        hex_nat(n / 16).push(hex_digit((n % 16) as int))
    }
}

fn hex_digit_exec(d: u128) -> (c: char)
    requires
        d < 16,
    ensures
        c == hex_digit(d as int),
{
    if d < 10 {
        let b: u8 = 48 + d as u8;
        b as char
    } else {
        let b: u8 = 87 + d as u8;
        b as char
    }
}

pub fn format_hex(n: u128) -> (s: String)
    ensures
        s@ == hex_nat(n as nat),
{
    let mut out: Vec<char> = Vec::new();
    let mut m = n;
    while m >= 16
        invariant
            hex_nat(n as nat) == hex_nat(m as nat) + out@,
        decreases m,
    {
        let d = hex_digit_exec(m % 16);
        let ghost before = out@;
        out.insert(0, d);
        assert(hex_nat(m as nat) + before =~= hex_nat((m / 16) as nat) + out@);
        m = m / 16;
    }
    let d = hex_digit_exec(m);
    let ghost before = out@;
    out.insert(0, d);
    assert(hex_nat(m as nat) + before =~= out@);
    string_from_chars(&out)
}

/// `{nanos:x}-{seq:x}`: the suffix that keeps artifact file names apart.
pub fn unique_suffix_text(nanos: u128, seq: u64) -> (s: String)
    ensures
        s@ == hex_nat(nanos as nat) + "-"@ + hex_nat(seq as nat),
{
    let mut out = chars_of(format_hex(nanos).as_str());
    append_all(&mut out, &chars_of("-"));
    append_all(&mut out, &chars_of(format_hex(seq as u128).as_str()));
    string_from_chars(&out)
}

/// A byte as two lower-case hex digits (`{:02x}`).
pub open spec fn byte_hex(b: u8) -> Seq<char> {
    seq![hex_digit((b / 16) as int), hex_digit((b % 16) as int)]
}

pub open spec fn bytes_hex(bs: Seq<u8>) -> Seq<char>
    decreases bs.len(),
{
    if bs.len() == 0 {
        Seq::empty()
    } else {
        bytes_hex(bs.drop_last()) + byte_hex(bs.last())
    }
}

/// The SHA-256 digest of some bytes (`sha2::Sha256::digest`).
pub uninterp spec fn sha256_of(data: Seq<u8>) -> Seq<u8>;

/// Hashes bytes with `sha2::Sha256::digest`. The contract names the result
/// and states its length, 32 bytes; its value is not stated here.
#[verifier::external_body]
fn sha256_digest(payload: &[u8]) -> (r: Vec<u8>)
    ensures
        r@ == sha256_of(payload@),
        r@.len() == 32,
{
    Sha256::digest(payload).to_vec()
}

/// The SHA-256 of `payload` in lower-case hex.
pub fn sha256_hex(payload: &[u8]) -> (r: String)
    ensures
        r@ == bytes_hex(sha256_of(payload@)),
        r@.len() == 64,
{
    let digest = sha256_digest(payload);
    let mut out: Vec<char> = Vec::new();
    let mut i: usize = 0;
    while i < digest.len()
        invariant
            i <= digest.len(),
            out@ == bytes_hex(digest@.take(i as int)),
            out@.len() == 2 * i,
        decreases digest.len() - i,
    {
        assert(digest@.take(i + 1).drop_last() =~= digest@.take(i as int));
        let b = digest[i];
        out.push(hex_digit_exec((b / 16) as u128));
        out.push(hex_digit_exec((b % 16) as u128));
        i += 1;
    }
    assert(digest@.take(i as int) =~= digest@);
    string_from_chars(&out)
}

/// The record of a payload written at `relative`.
pub fn stored_artifact(relative: String, payload: &[u8]) -> (r: StoredArtifact)
    ensures
        r.storage_path@ == relative@,
        r.checksum_sha256@ == bytes_hex(sha256_of(payload@)),
{
    StoredArtifact { storage_path: relative, checksum_sha256: sha256_hex(payload) }
}

// ---------------------------------------------------------------------------
// Reading paths back
// ---------------------------------------------------------------------------

/// A stored path is safe to read below the storage root: relative, and no
/// part of it (between `/`) is `..`.
pub open spec fn safe_storage_path(p: Seq<char>) -> bool {
    !starts_with(p, "/"@) && forall|i: int|
        0 <= i < split_char(p, '/').len() ==> #[trigger] split_char(p, '/')[i] != ".."@
}

/// The stored path when it is safe (see [`safe_storage_path`]), else why
/// not.
pub open spec fn validated_path_spec(p: Seq<char>) -> Result<Seq<char>, Seq<char>> {
    if starts_with(p, "/"@) {
        Err("artifact storage path must be relative"@)
    } else if !safe_storage_path(p) {
        Err("artifact storage path contains unsafe components"@)
    } else {
        Ok(p)
    }
}

fn has_parent_part(p: &Vec<char>) -> (b: bool)
    ensures
        b == exists|i: int| 0 <= i < split_char(p@, '/').len() && #[trigger] split_char(p@, '/')[i] == ".."@,
{
    let parts = split_char_exec(p, '/');
    let ghost ps = split_char(p@, '/');
    let mut i: usize = 0;
    while i < parts.len()
        invariant
            i <= parts.len(),
            views(parts@) == ps,
            ps == split_char(p@, '/'),
            forall|k: int| 0 <= k < i ==> #[trigger] ps[k] != ".."@,
        decreases parts.len() - i,
    {
        assert(ps[i as int] == parts@[i as int]@);
        if crate::text::eq_lit(&parts[i], "..") {
            assert(split_char(p@, '/')[i as int] == ".."@);
            return true;
        }
        i += 1;
    }
    false
}

/// Checks a stored artifact path before it is read or deleted (paths as
/// Unix reads them).
pub fn validated_relative_path(storage_path: &str) -> (r: Result<String, String>)
    ensures
        match r {
            Ok(p) => validated_path_spec(storage_path@) == Ok::<Seq<char>, Seq<char>>(p@),
            Err(e) => validated_path_spec(storage_path@) == Err::<Seq<char>, Seq<char>>(e@),
        },
{
    let p = chars_of(storage_path);
    if crate::text::matches_at_exec(&p, &chars_of("/"), 0) {
        return Err("artifact storage path must be relative".to_string());
    }
    if has_parent_part(&p) {
        return Err("artifact storage path contains unsafe components".to_string());
    }
    Ok(storage_path.to_string())
}

} // verus!
