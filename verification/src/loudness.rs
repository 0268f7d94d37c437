//! The report on loudness in what the encoder prints.
//!
//! The encoder prints a log, then a line that names the loudness filter,
//! then the measurements as a JSON text. This module cuts that text out;
//! reading the numbers in it is left to the caller.

use crate::text::{find, from_chars, is_first_occurrence, to_chars};
use vstd::prelude::*;

verus! {

/// The position of the first `c` in `s` at or behind `from`, or the length
/// of `s` where there is none.
pub open spec fn index_of(s: Seq<char>, c: char, from: int) -> int
    decreases s.len() - from,
{
    if from < 0 || from >= s.len() {
        s.len() as int
    } else if s[from] == c {
        from
    } else {
        index_of(s, c, from + 1)
    }
}

/// The lines of `s` put together: `s` without its line feeds, and without
/// the carriage return that stands right before one.
pub open spec fn unbroken(s: Seq<char>) -> Seq<char>
    decreases s.len(),
{
    if s.len() == 0 {
        s
    } else if s[0] == '\n' {
        unbroken(s.skip(1))
    } else if s[0] == '\r' && s.len() >= 2 && s[1] == '\n' {
        unbroken(s.skip(2))
    } else {
        seq![s[0]] + unbroken(s.skip(1))
    }
}

/// What `log` holds behind the first line with `marker` in it, its lines put
/// together; nothing where no line has the marker or where that line is the
/// last.
pub open spec fn report_behind(log: Seq<char>, marker: Seq<char>) -> Seq<char> {
    if exists|at: int| is_first_occurrence(log, marker, at) {
        let at = choose|at: int| is_first_occurrence(log, marker, at);
        let end = index_of(log, '\n', at + marker.len());
        if end < log.len() {
            unbroken(log.skip(end + 1))
        } else {
            Seq::empty()
        }
    } else {
        Seq::empty()
    }
}

/// Finds the first `c` in `s` at or behind `from`.
pub fn find_char(s: &Vec<char>, c: char, from: usize) -> (at: usize)
    ensures
        at == index_of(s@, c, from as int),
        at <= s.len(),
{
    if from >= s.len() {
        return s.len();
    }
    let mut at: usize = from;
    while at < s.len() && s[at] != c
        invariant
            from <= at <= s.len(),
            index_of(s@, c, at as int) == index_of(s@, c, from as int),
        decreases s.len() - at,
    {
        at += 1;
    }
    at
}

/// Puts the lines of `s` behind position `from` together.
pub(crate) fn join_lines(s: &Vec<char>, from: usize) -> (out: Vec<char>)
    requires
        from <= s.len(),
    ensures
        out@ == unbroken(s@.skip(from as int)),
{
    let mut out: Vec<char> = Vec::new();
    let mut i: usize = from;
    assert(out@ + unbroken(s@.skip(i as int)) =~= unbroken(s@.skip(from as int)));
    while i < s.len()
        invariant
            from <= i <= s.len(),
            out@ + unbroken(s@.skip(i as int)) == unbroken(s@.skip(from as int)),
        decreases s.len() - i,
    {
        let ghost rest = s@.skip(i as int);
        let ghost done = out@;
        if s[i] == '\n' {
            assert(rest.skip(1) =~= s@.skip(i + 1));
            i += 1;
        } else if s[i] == '\r' && i + 1 < s.len() && s[i + 1] == '\n' {
            assert(rest.skip(2) =~= s@.skip(i + 2));
            i += 2;
        } else {
            out.push(s[i]);
            assert(rest.skip(1) =~= s@.skip(i + 1));
            assert(out@ + unbroken(s@.skip(i + 1)) =~= done + (seq![rest[0]] + unbroken(
                rest.skip(1),
            )));
            i += 1;
        }
    }
    assert(out@ + Seq::<char>::empty() =~= out@);
    out
}

/// Cuts the report on loudness out of what the encoder printed: what stands
/// behind the first line that names the loudness filter, its lines put
/// together.
pub fn loudness_report(log: &str) -> (report: String)
    ensures
        report@ == report_behind(log@, "Parsed_loudnorm"@),
{
    let chars = to_chars(log);
    let marker = to_chars("Parsed_loudnorm");
    match find(&chars, &marker) {
        None => String::new(),
        Some(at) => {
            proof {
                let chosen = choose|other: int| is_first_occurrence(chars@, marker@, other);
                assert(is_first_occurrence(chars@, marker@, at as int));
                assert(chosen == at);
                assert(at + marker@.len() <= chars@.len());
            }
            let length: usize = chars.len();
            let end = find_char(&chars, '\n', at + marker.len());
            if end < length {
                from_chars(&join_lines(&chars, end + 1))
            } else {
                String::new()
            }
        },
    }
}

} // verus!
