//! The errors that the library reports.

use vstd::prelude::*;

use crate::outside::io_error_message;
use vstd::std_specs::convert::FromSpecImpl;

verus! {

/// What went wrong, with a message for the user.
#[derive(Debug, Clone, PartialEq)]
pub enum Error {
    /// A text could not be parsed.
    ParseError(String),
    /// An input could not be read.
    InputError(String),
    /// A program could not be run.
    ProgramError(String),
}

impl Error {
    /// The message that the error carries, whichever variant it is.
    pub open spec fn text(self) -> Seq<char> {
        match self {
            Error::ParseError(s) => s@,
            Error::InputError(s) => s@,
            Error::ProgramError(s) => s@,
        }
    }

    /// The error as text for the user: its message and nothing else.
    pub fn message(&self) -> (out: String)
        ensures
            out@ == self.text(),
    {
        match self {
            Error::ParseError(s) => s.clone(),
            Error::InputError(s) => s.clone(),
            Error::ProgramError(s) => s.clone(),
        }
    }
}

impl From<std::io::Error> for Error {
    /// An input that could not be read, with the message of the failure.
    fn from(err: std::io::Error) -> (e: Error)
        ensures
            e is InputError,
    {
        Error::InputError(io_error_message(&err))
    }
}

impl FromSpecImpl<std::io::Error> for Error {
    open spec fn obeys_from_spec() -> bool {
        false
    }

    open spec fn from_spec(v: std::io::Error) -> Error {
        arbitrary()
    }
}

} // verus!
