//! The error every fallible operation of the crate returns: a message, and what caused it.
use vstd::prelude::*;

verus! {

/// What an [`Error`] says.
pub struct ErrorView {
    /// The message.
    pub message: Seq<char>,
    /// What the underlying failure said, where there was one.
    pub cause: Option<Seq<char>>,
}

/// A failure.
#[derive(Debug)]
pub struct Error {
    /// What went wrong.
    pub message: String,
    /// What the underlying failure said, where there was one.
    pub cause: Option<String>,
}

impl View for Error {
    type V = ErrorView;

    open spec fn view(&self) -> ErrorView {
        ErrorView { message: self.message@, cause: self.cause.deep_view() }
    }
}

/// A failure with no failure underneath.
pub open spec fn plain(message: Seq<char>) -> ErrorView {
    ErrorView { message, cause: None }
}

/// A failure that another one caused.
pub open spec fn caused(message: Seq<char>, cause: Seq<char>) -> ErrorView {
    ErrorView { message, cause: Some(cause) }
}

impl Error {
    /// A failure with no failure underneath.
    pub fn new(message: String) -> (r: Error)
        ensures
            r@ == plain(message@),
    {
        Error { message, cause: None }
    }

    /// A failure that another one caused.
    pub fn with_cause(message: String, cause: String) -> (r: Error)
        ensures
            r@ == caused(message@, cause@),
    {
        Error { message, cause: Some(cause) }
    }

    /// The message, then the cause behind a colon where there is one.
    pub open spec fn spec_full_text(self) -> Seq<char> {
        match self@.cause {
            Some(cause) => self@.message + ": "@ + cause,
            None => self@.message,
        }
    }

    /// The message, then the cause behind a colon where there is one.
    pub fn full_text(&self) -> (r: String)
        ensures
            r@ == self.spec_full_text(),
    {
        match &self.cause {
            Some(cause) => crate::text::cat3(self.message.as_str(), ": ", cause.as_str()),
            None => self.message.clone(),
        }
    }
}

/// What went wrong is told first, and what caused it behind a colon, where something did.
pub proof fn law_cause_is_told(error: Error, message: Seq<char>, cause: Seq<char>)
    ensures
        error@ == plain(message) ==> error.spec_full_text() == message,
        error@ == caused(message, cause) ==> error.spec_full_text() == message + ": "@ + cause,
        plain(message).message == message && plain(message).cause is None,
        caused(message, cause).message == message && caused(message, cause).cause == Some(cause),
{
}

} // verus!
