//! Whether the browser used for screenshots can be found.
use vstd::prelude::*;

use crate::text::{
    append_all, chars_of, contains_char, matches_at_exec, split_char, split_char_exec,
    starts_with, string_from_chars, trim, trim_exec, views,
};

verus! {

/// The command run when `CHROMIUM_PATH` is not set.
pub const DEFAULT_CHROMIUM_PATH: &'static str = "chromium";

pub struct ChromiumDiagnostics {
    pub chromium_path: String,
    pub chromium_resolved_path: Option<String>,
    pub chromium_found: bool,
}

impl ChromiumDiagnostics {
    pub fn has_missing_binary(&self) -> (b: bool)
        ensures
            b == !self.chromium_found,
    {
        !self.chromium_found
    }

    /// The diagnostics for a configured command and where it resolved.
    pub fn from_resolution(chromium_path: String, chromium_resolved_path: Option<String>) -> (d:
        ChromiumDiagnostics)
        ensures
            d.chromium_path@ == chromium_path@,
            d.chromium_found == chromium_resolved_path.is_some(),
            d.chromium_resolved_path == chromium_resolved_path,
    {
        let found = chromium_resolved_path.is_some();
        ChromiumDiagnostics { chromium_path, chromium_resolved_path, chromium_found: found }
    }
}

/// The browser command: the `CHROMIUM_PATH` value unless it is blank,
/// else `chromium`.
pub fn chromium_path(env_value: Option<&str>) -> (r: String)
    ensures
        r@ == (match env_value {
            Some(v) => if trim(v@).len() > 0 {
                v@
            } else {
                DEFAULT_CHROMIUM_PATH@
            },
            None => DEFAULT_CHROMIUM_PATH@,
        }),
{
    match env_value {
        Some(v) => if trim_exec(&chars_of(v)).len() > 0 {
            v.to_string()
        } else {
            DEFAULT_CHROMIUM_PATH.to_string()
        },
        None => DEFAULT_CHROMIUM_PATH.to_string(),
    }
}

pub fn has_path_separator(value: &str) -> (b: bool)
    ensures
        b == (value@.contains('/') || value@.contains('\\')),
{
    let c = chars_of(value);
    contains_char(&c, '/') || contains_char(&c, '\\')
}

/// The command to look up, trimmed; `None` when it is blank.
pub fn command_to_resolve(command: &str) -> (r: Option<String>)
    ensures
        match r {
            Some(t) => t@ == trim(command@) && t@.len() > 0,
            None => trim(command@).len() == 0,
        },
{
    let t = trim_exec(&chars_of(command));
    if t.len() == 0 {
        None
    } else {
        Some(string_from_chars(&t))
    }
}

/// A command is checked where it stands, not searched for on `PATH`, when
/// it is an absolute path or names a directory.
pub fn is_direct_command(trimmed: &str, is_absolute: bool) -> (b: bool)
    ensures
        b == (is_absolute || trimmed@.contains('/') || trimmed@.contains('\\')),
{
    is_absolute || has_path_separator(trimmed)
}

/// The extensions tried after a bare command name on Windows: each
/// non-blank `PATHEXT` entry, trimmed, with a leading `.` added when it has
/// none.
pub open spec fn pathext_suffixes_of(parts: Seq<Seq<char>>) -> Seq<Seq<char>>
    decreases parts.len(),
{
    if parts.len() == 0 {
        Seq::empty()
    } else {
        let prev = pathext_suffixes_of(parts.drop_last());
        let n = trim(parts.last());
        if n.len() == 0 {
            prev
        } else if starts_with(n, "."@) {
            prev.push(n)
        } else {
            prev.push(seq!['.'] + n)
        }
    }
}

pub open spec fn strs(v: Seq<String>) -> Seq<Seq<char>> {
    v.map_values(|s: String| s@)
}

pub fn pathext_suffixes(pathext: &str) -> (r: Vec<String>)
    ensures
        strs(r@) == pathext_suffixes_of(split_char(pathext@, ';')),
{
    let parts = split_char_exec(&chars_of(pathext), ';');
    let ghost ps = split_char(pathext@, ';');
    let mut r: Vec<String> = Vec::new();
    let mut i: usize = 0;
    while i < parts.len()
        invariant
            i <= parts.len(),
            views(parts@) == ps,
            strs(r@) == pathext_suffixes_of(ps.take(i as int)),
        decreases parts.len() - i,
    {
        assert(ps.take(i + 1).drop_last() =~= ps.take(i as int));
        assert(ps.take(i + 1).last() == parts@[i as int]@);
        let n = trim_exec(&parts[i]);
        assert(n@ == trim(ps.take(i + 1).last()));
        let ghost before = r@;
        if n.len() > 0 {
            if matches_at_exec(&n, &chars_of("."), 0) {
                let s = string_from_chars(&n);
                r.push(s);
                assert(strs(r@) =~= strs(before).push(n@));
            } else {
                let mut d: Vec<char> = vec!['.'];
                append_all(&mut d, &n);
                assert(d@ =~= seq!['.'] + n@);
                let s = string_from_chars(&d);
                r.push(s);
                assert(strs(r@) =~= strs(before).push(d@));
            }
        }
        i += 1;
    }
    assert(ps.take(i as int) =~= ps);
    r
}

} // verus!
