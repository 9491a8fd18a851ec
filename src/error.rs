//! Errors of loading a lexicon tree.

use vstd::prelude::*;
use vstd::string::*;

verus! {

/// Why a lexicon tree could not be loaded.
#[derive(Debug)]
pub enum ParseError {
    /// The given path is not a directory.
    NotADirectory(String),
    /// Reading the tree failed; the text describes the cause.
    Io(String),
}

impl ParseError {
    /// The text of the error message.
    pub open spec fn message_spec(&self) -> Seq<char> {
        match self {
            ParseError::NotADirectory(p) => "not a directory: "@ + p@,
            ParseError::Io(e) => "io error: "@ + e@,
        }
    }

    /// The error message: `not a directory: <path>` or `io error: <cause>`.
    pub fn message(&self) -> (r: String)
        ensures
            r@ == self.message_spec(),
    {
        match self {
            ParseError::NotADirectory(p) => String::from_str("not a directory: ").concat(p.as_str()),
            ParseError::Io(e) => String::from_str("io error: ").concat(e.as_str()),
        }
    }
}

} // verus!
