//! Reading the server's own CPU and memory use from `ps -o pid= -o pcpu=
//! -o rss=`: the line, its columns and the process id. The CPU share is a
//! decimal fraction, read by the caller.
use vstd::prelude::*;

use crate::maintenance::{parse_u64, parse_u64_spec};
use crate::text::{chars_of, lines, lines_exec, split_whitespace, string_from_chars, trim, trim_exec, views, words};

verus! {

/// The columns of a `ps` line for the expected process.
pub struct PsColumns {
    pub pid: u32,
    pub cpu_text: String,
    pub rss_text: String,
}

/// Why a `ps` output is unusable.
#[derive(Clone, Debug, PartialEq, Eq)]
pub enum PsOutputError {
    /// No line has any text.
    Empty,
    /// The line has fewer than three columns; how many it has.
    TooFewColumns(usize),
    /// The first column is not a process id; its text.
    InvalidPid(String),
    /// The line is about another process; its id.
    OtherProcess(u32),
}

/// Why a `ps` output is unusable, with texts as character sequences.
pub enum PsOutputProblem {
    Empty,
    TooFewColumns(nat),
    InvalidPid(Seq<char>),
    OtherProcess(u32),
}

impl View for PsOutputError {
    type V = PsOutputProblem;

    open spec fn view(&self) -> PsOutputProblem {
        match self {
            PsOutputError::Empty => PsOutputProblem::Empty,
            PsOutputError::TooFewColumns(n) => PsOutputProblem::TooFewColumns(*n as nat),
            PsOutputError::InvalidPid(t) => PsOutputProblem::InvalidPid(t@),
            PsOutputError::OtherProcess(p) => PsOutputProblem::OtherProcess(*p),
        }
    }
}

/// The first line with text, trimmed.
pub open spec fn first_text_line(ls: Seq<Seq<char>>) -> Option<Seq<char>>
    decreases ls.len(),
{
    if ls.len() == 0 {
        None
    } else if trim(ls[0]).len() > 0 {
        Some(trim(ls[0]))
    } else {
        first_text_line(ls.drop_first())
    }
}

/// `str::parse::<u32>`: an optional `+`, then digits whose value fits.
pub open spec fn parse_u32_text(s: Seq<char>) -> Option<u32> {
    match parse_u64_spec(s) {
        Some(v) => if v <= u32::MAX {
            Some(v as u32)
        } else {
            None
        },
        None => None,
    }
}

/// What the output of `ps` says about process `expected_pid`: its first
/// line with text, split at whitespace into at least three columns, the
/// first of which is that process id.
pub open spec fn ps_columns_spec(expected_pid: u32, output: Seq<char>) -> Result<
    (u32, Seq<char>, Seq<char>),
    PsOutputProblem,
> {
    match first_text_line(lines(output)) {
        None => Err(PsOutputProblem::Empty),
        Some(line) => {
            let cols = words(line);
            if cols.len() < 3 {
                Err(PsOutputProblem::TooFewColumns(cols.len()))
            } else {
                match parse_u32_text(cols[0]) {
                    None => Err(PsOutputProblem::InvalidPid(cols[0])),
                    Some(pid) => if pid != expected_pid {
                        Err(PsOutputProblem::OtherProcess(pid))
                    } else {
                        Ok((pid, cols[1], cols[2]))
                    },
                }
            }
        },
    }
}

fn parse_u32_exec(s: &Vec<char>) -> (r: Option<u32>)
    ensures
        r == parse_u32_text(s@),
{
    match parse_u64(s) {
        Some(v) => if v <= u32::MAX as u64 {
            Some(v as u32)
        } else {
            None
        },
        None => None,
    }
}

/// Reads the line of `ps` output about process `expected_pid`.
pub fn parse_ps_columns(expected_pid: u32, output: &str) -> (r: Result<PsColumns, PsOutputError>)
    ensures
        match r {
            Ok(c) => ps_columns_spec(expected_pid, output@) == Ok::<_, PsOutputProblem>(
                (c.pid, c.cpu_text@, c.rss_text@),
            ),
            Err(e) => ps_columns_spec(expected_pid, output@) == Err::<(u32, Seq<char>, Seq<char>), _>(
                e@,
            ),
        },
{
    let ls = lines_exec(&chars_of(output));
    let mut i: usize = 0;
    assert(views(ls@).skip(0) =~= views(ls@));
    while i < ls.len() && trim_exec(&ls[i]).len() == 0
        invariant
            i <= ls@.len(),
            first_text_line(views(ls@)) == first_text_line(views(ls@).skip(i as int)),
        decreases ls@.len() - i,
    {
        assert(views(ls@).skip(i as int)[0] == ls@[i as int]@);
        assert(views(ls@).skip(i as int).drop_first() =~= views(ls@).skip(i + 1));
        i += 1;
    }
    if i == ls.len() {
        assert(views(ls@).skip(i as int) =~= Seq::<Seq<char>>::empty());
        return Err(PsOutputError::Empty);
    }
    let line = trim_exec(&ls[i]);
    assert(views(ls@).skip(i as int)[0] == ls@[i as int]@);
    assert(first_text_line(lines(output@)) == Some(line@));
    let cols = split_whitespace(&line);
    if cols.len() < 3 {
        return Err(PsOutputError::TooFewColumns(cols.len()));
    }
    assert(views(cols@)[0] == cols@[0]@ && views(cols@)[1] == cols@[1]@ && views(cols@)[2] == cols@[2]@);
    let pid = match parse_u32_exec(&cols[0]) {
        Some(p) => p,
        None => return Err(PsOutputError::InvalidPid(string_from_chars(&cols[0]))),
    };
    if pid != expected_pid {
        return Err(PsOutputError::OtherProcess(pid));
    }
    Ok(
        PsColumns {
            pid,
            cpu_text: string_from_chars(&cols[1]),
            rss_text: string_from_chars(&cols[2]),
        },
    )
}

/// Resident memory in bytes from `ps`'s kibibytes (saturating).
pub fn resident_memory_bytes(kib: u64) -> (r: u64)
    ensures
        r == (if kib * 1024 > u64::MAX {
            u64::MAX as int
        } else {
            kib * 1024
        }),
{
    if kib > u64::MAX / 1024 {
        u64::MAX
    } else {
        kib * 1024
    }
}

} // verus!
