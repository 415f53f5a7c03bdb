//! The failures that a command can end with.

use vstd::prelude::*;

verus! {

/// A failure, by kind, with a message for the user.
#[derive(Debug, PartialEq, Eq)]
pub enum Error {
    /// The manifest is malformed or inconsistent.
    Parse(String),
    /// A template is missing, unreadable or holds an invalid placeholder.
    Render(String),
    /// An output directory or file could not be created, read or written.
    Io(String),
    /// A new project could not be laid out.
    Scaffolding(String),
}

/// The mathematical value of an [`Error`].
pub enum ErrorView {
    Parse(Seq<char>),
    Render(Seq<char>),
    Io(Seq<char>),
    Scaffolding(Seq<char>),
}

impl View for Error {
    type V = ErrorView;

    open spec fn view(&self) -> ErrorView {
        match self {
            Error::Parse(m) => ErrorView::Parse(m@),
            Error::Render(m) => ErrorView::Render(m@),
            Error::Io(m) => ErrorView::Io(m@),
            Error::Scaffolding(m) => ErrorView::Scaffolding(m@),
        }
    }
}

/// The mathematical value of a string or an error.
pub open spec fn text_result(r: Result<String, Error>) -> Result<Seq<char>, ErrorView> {
    match r {
        Ok(s) => Ok(s@),
        Err(e) => Err(e@),
    }
}

impl ErrorView {
    /// The message, whatever the kind.
    pub open spec fn message(self) -> Seq<char> {
        match self {
            ErrorView::Parse(m) => m,
            ErrorView::Render(m) => m,
            ErrorView::Io(m) => m,
            ErrorView::Scaffolding(m) => m,
        }
    }
}

impl Error {
    /// A configuration error with the given message.
    pub fn parse(message: &str) -> (e: Error)
        ensures
            e@ == ErrorView::Parse(message@),
    {
        Error::Parse(message.to_owned())
    }

    /// The message, whatever the kind.
    pub fn message(&self) -> (m: String)
        ensures
            m@ == self@.message(),
    {
        match self {
            Error::Parse(m) => m.clone(),
            Error::Render(m) => m.clone(),
            Error::Io(m) => m.clone(),
            Error::Scaffolding(m) => m.clone(),
        }
    }
}

} // verus!
