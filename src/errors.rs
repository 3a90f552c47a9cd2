//! The library's error categories and the HTTP status each one maps to.
use vstd::prelude::*;

verus! {

/// What can go wrong while serving a shopper.
#[derive(Debug)]
pub enum AppError {
    /// The datastore failed; the text is its own description.
    DatabaseError(String),
    /// A referenced product or order does not exist.
    NotFound,
    /// The request itself is malformed.
    BadRequest(String),
    /// The named product has less stock than was asked for.
    InsufficientStock(String),
    InternalError,
    SessionError,
}

impl AppError {
    pub open spec fn status_spec(&self) -> u16 {
        match self {
            AppError::NotFound => 404,
            AppError::BadRequest(_) => 400,
            AppError::InsufficientStock(_) => 400,
            AppError::DatabaseError(_) => 500,
            AppError::InternalError => 500,
            AppError::SessionError => 500,
        }
    }

    /// The HTTP status code that reports this error.
    pub fn status_code(&self) -> (r: u16)
        ensures
            r == self.status_spec(),
    {
        match self {
            AppError::NotFound => 404,
            AppError::BadRequest(_) => 400,
            AppError::InsufficientStock(_) => 400,
            AppError::DatabaseError(_) => 500,
            AppError::InternalError => 500,
            AppError::SessionError => 500,
        }
    }
}

} // verus!
