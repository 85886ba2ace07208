use crate::number::{nat_text, push_nat};
use vstd::prelude::*;
use vstd::string::StringExecFns;

verus! {

/// What can go wrong while a beatmap is read.
#[derive(Debug)]
pub enum Error {
    /// A field that the record needs is not there.
    Parse,
    /// A line does not have the shape it should have: the line's index and text, where
    /// there is a line to point at, and the reason.
    Syntax(Option<(usize, String)>, String),
    /// A field does not have the shape it should have; the reader of lines turns this
    /// into `Syntax` once it knows the line.
    Message(&'static str),
}

/// What a reader returns: a value, or what went wrong.
pub type Result<T> = core::result::Result<T, Error>;

/// An `Error` with its texts as sequences of characters.
pub enum ErrorView {
    Parse,
    Syntax(Option<(nat, Seq<char>)>, Seq<char>),
    Message(Seq<char>),
}

impl View for Error {
    type V = ErrorView;

    open spec fn view(&self) -> ErrorView {
        match self {
            Error::Parse => ErrorView::Parse,
            Error::Syntax(Some((n, line)), reason) => ErrorView::Syntax(
                Some((*n as nat, line@)),
                reason@,
            ),
            Error::Syntax(None, reason) => ErrorView::Syntax(None, reason@),
            Error::Message(m) => ErrorView::Message(m@),
        }
    }
}

impl ErrorView {
    /// The sentence that describes the error; lines are counted from one in it.
    pub open spec fn text(self) -> Seq<char> {
        match self {
            ErrorView::Parse => "Parsing error"@,
            ErrorView::Syntax(Some((n, line)), reason) => "Syntax error on line "@ + nat_text(
                n + 1,
            ) + ": "@ + reason + "\n "@ + line,
            ErrorView::Syntax(None, reason) => "Syntax error: "@ + reason,
            ErrorView::Message(m) => m,
        }
    }
}

impl Error {
    /// The sentence that describes the error.
    pub fn message(&self) -> (s: String)
        ensures
            s@ == self@.text(),
    {
        match self {
            Error::Parse => String::from_str("Parsing error"),
            Error::Syntax(Some((n, line)), reason) => {
                let mut s = String::from_str("Syntax error on line ");
                push_nat(&mut s, *n as u128 + 1);
                s.append(": ");
                s.append(reason.as_str());
                s.append("\n ");
                s.append(line.as_str());
                s
            },
            Error::Syntax(None, reason) => {
                let mut s = String::from_str("Syntax error: ");
                s.append(reason.as_str());
                s
            },
            Error::Message(m) => String::from_str(m),
        }
    }
}

/// What the grammar makes of a text: a value, or the error that a reader returns.
pub type Outcome<V> = core::result::Result<V, ErrorView>;

/// Whether what a reader returned is what the grammar gives: the same value, or the same
/// error.
pub open spec fn agrees<T: View>(r: Result<T>, s: Outcome<T::V>) -> bool {
    match (r, s) {
        (Ok(a), Ok(b)) => a@ == b,
        (Err(e), Err(f)) => e@ == f,
        _ => false,
    }
}

} // verus!
