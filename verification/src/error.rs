//! The ways in which a request can fail.

use vstd::prelude::*;

verus! {

/// Why a request was not answered with content.
#[derive(Clone, Copy, Debug, PartialEq, Eq, Structural)]
pub enum ServeError {
    /// The path does not resolve, or names nothing that is served.
    NotFound,
    /// The path resolves to a place outside the notes root.
    Forbidden,
    /// Reading a file or a directory, or running the search tool, failed.
    Internal,
}

impl ServeError {
    /// The HTTP status code that reports this error.
    pub open spec fn status_code(self) -> u16 {
        match self {
            ServeError::NotFound => 404,
            ServeError::Forbidden => 403,
            ServeError::Internal => 500,
        }
    }

    /// The HTTP status code that reports this error.
    pub fn status(self) -> (code: u16)
        ensures
            code == self.status_code(),
    {
        match self {
            ServeError::NotFound => 404,
            ServeError::Forbidden => 403,
            ServeError::Internal => 500,
        }
    }
}

} // verus!
