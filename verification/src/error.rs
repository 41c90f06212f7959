//! The errors that a repository reports.

use vstd::prelude::*;

verus! {

/// What a repository answers when a request cannot be served.
#[derive(Debug, Clone, Copy, PartialEq, Eq, Structural)]
pub enum WebappError {
    NotFoundError,
    AlreadyExistsError,
}

impl WebappError {
    /// The human-readable message of the error.
    pub fn message(&self) -> (m: &'static str)
        ensures
            m@ == (match *self {
                WebappError::NotFoundError => "Person was not found"@,
                WebappError::AlreadyExistsError => "Person already exists"@,
            }),
    {
        match self {
            WebappError::NotFoundError => "Person was not found",
            WebappError::AlreadyExistsError => "Person already exists",
        }
    }
}

} // verus!
