//! Errors that the task API answers with.
use vstd::prelude::*;

verus! {

/// An error of the API, with the text of its response.
#[derive(Debug, Clone, PartialEq)]
pub enum Error {
    Internal(String),
    ServiceUnavailable(String),
    BadQuery(String),
    NotFound(String),
}

/// The HTTP status of each error.
pub open spec fn error_status(e: Error) -> u16 {
    match e {
        Error::Internal(_) => 500,
        Error::ServiceUnavailable(_) => 503,
        Error::BadQuery(_) => 400,
        Error::NotFound(_) => 404,
    }
}

impl Error {
    /// The HTTP status of the response.
    pub fn status(&self) -> (r: u16)
        ensures
            r == error_status(*self),
    {
        match self {
            Error::Internal(_) => 500,
            Error::ServiceUnavailable(_) => 503,
            Error::BadQuery(_) => 400,
            Error::NotFound(_) => 404,
        }
    }

    /// The text of the response.
    pub fn body(&self) -> (r: &String)
        ensures
            r == match self {
                Error::Internal(t) => t,
                Error::ServiceUnavailable(t) => t,
                Error::BadQuery(t) => t,
                Error::NotFound(t) => t,
            },
    {
        match self {
            Error::Internal(t) => t,
            Error::ServiceUnavailable(t) => t,
            Error::BadQuery(t) => t,
            Error::NotFound(t) => t,
        }
    }
}

} // verus!
