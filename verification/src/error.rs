//! Errors shared by every beads backend.

use vstd::prelude::*;

verus! {

/// Errors that can occur in any beads backend.
#[derive(Debug, Clone, PartialEq, Eq)]
pub enum BeadsError {
    /// An I/O error occurred (for example while reading a JSONL file); the
    /// text is that of the underlying error.
    Io(String),
    /// Data could not be parsed (malformed JSONL or an unexpected SQL result).
    Parse(String),
    /// A database-level error occurred (for example a failed SQL query).
    Database(String),
    /// The requested bead was not found.
    NotFound(String),
    /// An external command (for example `bd`) failed.
    CommandFailed(String),
}

/// A [`BeadsError`] as a value.
pub enum BeadsErrorView {
    Io(Seq<char>),
    Parse(Seq<char>),
    Database(Seq<char>),
    NotFound(Seq<char>),
    CommandFailed(Seq<char>),
}

impl DeepView for BeadsError {
    type V = BeadsErrorView;

    open spec fn deep_view(&self) -> BeadsErrorView {
        match self {
            BeadsError::Io(text) => BeadsErrorView::Io(text@),
            BeadsError::Parse(text) => BeadsErrorView::Parse(text@),
            BeadsError::Database(text) => BeadsErrorView::Database(text@),
            BeadsError::NotFound(text) => BeadsErrorView::NotFound(text@),
            BeadsError::CommandFailed(text) => BeadsErrorView::CommandFailed(text@),
        }
    }
}

impl BeadsErrorView {
    /// The one-line description of the error.
    pub open spec fn message(self) -> Seq<char> {
        match self {
            BeadsErrorView::Io(text) => "I/O error: "@ + text,
            BeadsErrorView::Parse(text) => "Parse error: "@ + text,
            BeadsErrorView::Database(text) => "Database error: "@ + text,
            BeadsErrorView::NotFound(text) => "Not found: "@ + text,
            BeadsErrorView::CommandFailed(text) => "Command failed: "@ + text,
        }
    }
}

impl BeadsError {
    /// The one-line description of the error.
    pub fn message(&self) -> (out: String)
        ensures
            out@ == self.deep_view().message(),
    {
        match self {
            BeadsError::Io(text) => "I/O error: ".to_owned().concat(text.as_str()),
            BeadsError::Parse(text) => "Parse error: ".to_owned().concat(text.as_str()),
            BeadsError::Database(text) => "Database error: ".to_owned().concat(text.as_str()),
            BeadsError::NotFound(text) => "Not found: ".to_owned().concat(text.as_str()),
            BeadsError::CommandFailed(text) => "Command failed: ".to_owned().concat(text.as_str()),
        }
    }
}

/// The outcome of a fallible operation as a value.
pub open spec fn outcome<T: DeepView>(result: Result<T, BeadsError>) -> Result<
    T::V,
    BeadsErrorView,
> {
    match result {
        Ok(value) => Ok(value.deep_view()),
        Err(error) => Err(error.deep_view()),
    }
}

/// An error describes itself by its kind, then its text in full.
pub proof fn messages_hold_the_text(text: Seq<char>)
    ensures
        BeadsErrorView::Io(text).message() == "I/O error: "@ + text,
        BeadsErrorView::Parse(text).message() == "Parse error: "@ + text,
        BeadsErrorView::Database(text).message() == "Database error: "@ + text,
        BeadsErrorView::NotFound(text).message() == "Not found: "@ + text,
        BeadsErrorView::CommandFailed(text).message() == "Command failed: "@ + text,
{
}

/// An error shows its kind and its text, and an outcome shows its value or its
/// error.
pub proof fn errors_show_their_text<T: DeepView>(text: String, value: T, error: BeadsError)
    ensures
        BeadsError::Io(text).deep_view() == BeadsErrorView::Io(text@),
        BeadsError::Parse(text).deep_view() == BeadsErrorView::Parse(text@),
        BeadsError::Database(text).deep_view() == BeadsErrorView::Database(text@),
        BeadsError::NotFound(text).deep_view() == BeadsErrorView::NotFound(text@),
        BeadsError::CommandFailed(text).deep_view() == BeadsErrorView::CommandFailed(text@),
        outcome(Ok::<T, BeadsError>(value)) == Ok::<T::V, BeadsErrorView>(value.deep_view()),
        outcome(Err::<T, BeadsError>(error)) == Err::<T::V, BeadsErrorView>(error.deep_view()),
{
}

} // verus!
