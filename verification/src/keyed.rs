use crate::cursor::ParseState;
use crate::error::{ErrorView, Outcome, Result};
use crate::text::{find_char, first_index, to_chars, trim, trim_range};
use vstd::prelude::*;
use vstd::string::StrSliceExecFns;

verus! {

/// The key and the value that a line writes: what stands before its first colon and what
/// stands after it, blanks around each set aside. A line without a colon writes none.
pub open spec fn pair_of(line: Seq<char>) -> Option<(Seq<char>, Seq<char>)> {
    let at = first_index(line, ':');
    if at < line.len() {
        Some((trim(line.take(at)), trim(line.skip(at + 1))))
    } else {
        None
    }
}

/// The key and the value that a line writes.
pub fn split_pair(line: &str) -> (r: Option<(&str, &str)>)
    ensures
        match r {
            Some((k, v)) => pair_of(line@) == Some((k@, v@)),
            None => pair_of(line@) is None,
        },
{
    let v = to_chars(line);
    assert(v@.subrange(0, v@.len() as int) == v@);
    let at = find_char(&v, 0, v.len(), ':');
    if at >= v.len() {
        return None;
    }
    assert(v@.take(at as int) == v@.subrange(0, at as int));
    assert(v@.skip(at + 1) == v@.subrange(at + 1, v@.len() as int));
    let (a, b) = trim_range(&v, 0, at);
    let (c, d) = trim_range(&v, at + 1, v.len());
    Some((line.substring_char(a, b), line.substring_char(c, d)))
}

/// The key and the value that the current line writes.
pub fn parse_kv_pair(state: &ParseState) -> (r: Option<(&str, &str)>)
    ensures
        match r {
            Some((k, v)) => state@.current_line() is Some && pair_of(
                state@.current_line()->Some_0,
            ) == Some((k@, v@)),
            None => state@.current_line() is None || pair_of(state@.current_line()->Some_0)
                is None,
        },
{
    match state.get_current_line() {
        Some(line) => split_pair(line),
        None => None,
    }
}

/// A section that is written as lines of a key and a value.
pub trait KeyedSection: View + Sized {
    /// The section once `value` is stored under `key`: unchanged where the section has no
    /// such key, an error where the value is malformed.
    spec fn assigned(section: Self::V, key: Seq<char>, value: Seq<char>) -> Outcome<Self::V>;

    /// Stores `value` under `key`.
    fn assign(&mut self, key: &str, value: &str) -> (r: Result<()>)
        ensures
            match Self::assigned(old(self)@, key@, value@) {
                Ok(section) => r is Ok && final(self)@ == section,
                Err(e) => r is Err && r->Err_0@ == e,
            },
    ;
}

/// What the lines from `from` on make of `section`, and where the reading stops: at the
/// first line that writes no key and value, at the line whose value is malformed, or at
/// the end.
pub open spec fn scan_pairs<S: KeyedSection>(
    lines: Seq<(nat, Seq<char>)>,
    from: nat,
    section: S::V,
) -> (Outcome<S::V>, nat)
    decreases lines.len() - from,
{
    if from >= lines.len() {
        (Ok(section), from)
    } else {
        match pair_of(lines[from as int].1) {
            None => (Ok(section), from),
            Some((key, value)) => match S::assigned(section, key, value) {
                Err(e) => (Err(e), from),
                Ok(next) => scan_pairs::<S>(lines, from + 1, next),
            },
        }
    }
}

/// Reads lines of a key and a value into `section`, from the line after the current one
/// on, and stops on the first line that writes none, which is then the current line.
pub fn read_pairs<S: KeyedSection>(state: &mut ParseState, section: S) -> (r: Result<S>)
    ensures
        final(state)@.lines == old(state)@.lines,
        final(state)@.position == scan_pairs::<S>(
            old(state)@.lines,
            old(state)@.advanced().position,
            section@,
        ).1,
        match scan_pairs::<S>(old(state)@.lines, old(state)@.advanced().position, section@).0 {
            Ok(s) => r is Ok && r->Ok_0@ == s,
            Err(e) => r is Err && r->Err_0@ == e,
        },
{
    let ghost lines = state@.lines;
    let ghost goal = scan_pairs::<S>(lines, state@.advanced().position, section@);
    let mut filled = section;
    loop
        invariant_except_break
            goal == scan_pairs::<S>(lines, state@.advanced().position, filled@),
        invariant
            state@.lines == lines,
            lines == old(state)@.lines,
            goal == scan_pairs::<S>(old(state)@.lines, old(state)@.advanced().position, section@),
        ensures
            state@.position == goal.1,
            goal.0 == Ok::<S::V, ErrorView>(filled@),
        decreases lines.len() - state@.position,
    {
        state.read_next_line();
        match parse_kv_pair(state) {
            Some((key, value)) => {
                match filled.assign(key, value) {
                    Ok(()) => {},
                    Err(e) => {
                        return Err(e);
                    },
                }
            },
            None => {
                break ;
            },
        }
    }
    Ok(filled)
}

} // verus!
