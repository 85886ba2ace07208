use crate::error::{Error, ErrorView, Result};
use crate::text::{cut, from_chars, is_blank, split, split_range, to_chars, trim_range};
use vstd::prelude::*;
use vstd::string::StringExecFns;

verus! {

/// A line without the carriage return at its end, where it has one.
pub open spec fn strip_cr(s: Seq<char>) -> Seq<char> {
    if s.len() > 0 && s.last() == '\r' {
        s.drop_last()
    } else {
        s
    }
}

/// The lines of a text. A line ends at a line feed, or at a carriage return and the line
/// feed that follows it at once; the last line may do without. The endings are no part of
/// the lines.
pub open spec fn split_lines(s: Seq<char>) -> Seq<Seq<char>> {
    let parts = split(s, '\n');
    let count = if parts.last().len() == 0 {
        parts.len() - 1
    } else {
        parts.len() as int
    };
    Seq::new(
        count as nat,
        |i: int|
            if i < parts.len() - 1 {
                strip_cr(parts[i])
            } else {
                parts[i]
            },
    )
}

/// The lines that are not blank, each with its index among all the lines.
pub open spec fn content_lines(all: Seq<Seq<char>>) -> Seq<(nat, Seq<char>)>
    decreases all.len(),
{
    if all.len() == 0 {
        Seq::empty()
    } else if is_blank(all.last()) {
        content_lines(all.drop_last())
    } else {
        content_lines(all.drop_last()).push(((all.len() - 1) as nat, all.last()))
    }
}

/// A text as the readers see it: its lines that are not blank, each with the index it has
/// among all the lines of the text.
pub open spec fn lines_of(text: Seq<char>) -> Seq<(nat, Seq<char>)> {
    content_lines(split_lines(text))
}

/// A cursor over the lines of a text that are not blank.
pub struct ParseState {
    lines: Vec<(usize, String)>,
    current: usize,
}

/// A cursor as the contracts see it.
pub struct ParseStateView {
    /// The lines that are not blank, each with its index among all the lines of the text.
    pub lines: Seq<(nat, Seq<char>)>,
    /// The place of the current line among them; their number once they are used up.
    pub position: nat,
}

/// The lines of a cursor, each with its index and its text.
pub open spec fn line_views(lines: Seq<(usize, String)>) -> Seq<(nat, Seq<char>)> {
    Seq::new(lines.len(), |k: int| (lines[k].0 as nat, lines[k].1@))
}

impl View for ParseState {
    type V = ParseStateView;

    closed spec fn view(&self) -> ParseStateView {
        ParseStateView { lines: line_views(self.lines@), position: self.current as nat }
    }
}

impl ParseStateView {
    /// The current line, where there is one.
    pub open spec fn current_line(self) -> Option<Seq<char>> {
        if self.position < self.lines.len() {
            Some(self.lines[self.position as int].1)
        } else {
            None
        }
    }

    /// The current line with its index, where there is one.
    pub open spec fn current_entry(self) -> Option<(nat, Seq<char>)> {
        if self.position < self.lines.len() {
            Some(self.lines[self.position as int])
        } else {
            None
        }
    }

    /// The cursor one line further on; where no line is left it stays.
    pub open spec fn advanced(self) -> ParseStateView {
        if self.position < self.lines.len() {
            ParseStateView { lines: self.lines, position: self.position + 1 }
        } else {
            self
        }
    }

    /// A syntax error that points at the current line.
    pub open spec fn syntax_error(self, reason: Seq<char>) -> ErrorView {
        ErrorView::Syntax(self.current_entry(), reason)
    }

    /// The error with the current line added where it names none yet.
    pub open spec fn wrapped(self, e: ErrorView) -> ErrorView {
        match e {
            ErrorView::Message(m) => self.syntax_error(m),
            _ => e,
        }
    }
}

impl ParseState {
    /// A cursor on the first line of `input` that is not blank.
    pub fn new(input: &str) -> (state: ParseState)
        ensures
            state@.lines == lines_of(input@),
            state@.position == 0,
    {
        let v = to_chars(input);
        assert(v@.subrange(0, v@.len() as int) == v@);
        let parts = split_range(&v, 0, v.len(), '\n');
        let n = parts.len();
        let count: usize = if parts[n - 1].0 == parts[n - 1].1 {
            n - 1
        } else {
            n
        };
        let ghost all = split_lines(input@);
        assert(cut(v@, parts@).last().len() == 0 <==> parts[n - 1].0 == parts[n - 1].1);
        assert(all.len() == count);
        let mut lines: Vec<(usize, String)> = Vec::new();
        let mut i: usize = 0;
        assert(all.take(0) =~= Seq::empty());
        while i < count
            invariant
                0 <= i <= count <= n,
                n == parts.len(),
                all.len() == count,
                all == split_lines(input@),
                v@ == input@,
                crate::text::bounds_within(parts@, 0, v.len() as int),
                cut(v@, parts@) == split(input@, '\n'),
                line_views(lines@) == content_lines(all.take(i as int)),
            decreases count - i,
        {
            let (lo, hi) = parts[i];
            let end: usize = if i + 1 < n && hi > lo && v[hi - 1] == '\r' {
                hi - 1
            } else {
                hi
            };
            let ghost part = v@.subrange(lo as int, hi as int);
            assert(part == cut(v@, parts@)[i as int]);
            assert(hi > lo ==> part.last() == v@[hi - 1]);
            assert(all[i as int] == v@.subrange(lo as int, end as int)) by {
                if i + 1 < n {
                    assert(strip_cr(part) =~= v@.subrange(lo as int, end as int));
                }
            }
            let ghost next = all.take(i + 1);
            assert(next.drop_last() =~= all.take(i as int));
            assert(next.last() == all[i as int]);
            let (a, b) = trim_range(&v, lo, end);
            if a < b {
                let ghost before = line_views(lines@);
                lines.push((i, from_chars(&v, lo, end)));
                assert(line_views(lines@) =~= before.push((i as nat, all[i as int])));
            }
            i += 1;
        }
        assert(all.take(count as int) == all);
        ParseState { lines, current: 0 }
    }

    /// The current line, where there is one.
    pub fn get_current_line(&self) -> (r: Option<&str>)
        ensures
            match r {
                Some(line) => self@.current_line() == Some(line@),
                None => self@.current_line() is None,
            },
    {
        if self.current < self.lines.len() {
            Some(self.lines[self.current].1.as_str())
        } else {
            None
        }
    }

    /// Moves to the next line that is not blank and returns it, where there is one.
    pub fn read_next_line(&mut self) -> (r: Option<&str>)
        ensures
            final(self)@ == old(self)@.advanced(),
            match r {
                Some(line) => final(self)@.current_line() == Some(line@),
                None => final(self)@.current_line() is None,
            },
    {
        if self.current < self.lines.len() {
            self.current = self.current + 1;
        }
        self.get_current_line()
    }

    /// A syntax error that points at the current line.
    pub fn syntax_error(&self, reason: &str) -> (e: Error)
        ensures
            e@ == self@.syntax_error(reason@),
    {
        if self.current < self.lines.len() {
            let n = self.lines[self.current].0;
            let line = String::from_str(self.lines[self.current].1.as_str());
            Error::Syntax(Some((n, line)), String::from_str(reason))
        } else {
            Error::Syntax(None, String::from_str(reason))
        }
    }

    /// Adds the current line to an error that names none yet.
    pub fn wrap_syntax_error<T>(&self, res: Result<T>) -> (r: Result<T>)
        ensures
            match res {
                Ok(v) => r == Ok::<T, Error>(v),
                Err(e) => r is Err && r->Err_0@ == self@.wrapped(e@),
            },
    {
        match res {
            Ok(v) => Ok(v),
            Err(Error::Message(m)) => Err(self.syntax_error(m)),
            Err(e) => Err(e),
        }
    }
}

} // verus!
