//! Errors of the storage and room services.

use vstd::prelude::*;

verus! {

/// An application error, with the message shown to the client.
#[derive(Debug)]
pub enum AppError {
    BadRequest(String),
    ValidationError(String),
    NotFound(String),
    Forbidden,
    Unauthorized,
    Database(String),
}

impl AppError {
    /// A `BadRequest` carrying exactly the message `m`.
    pub open spec fn is_bad_request(&self, m: Seq<char>) -> bool {
        match self {
            AppError::BadRequest(s) => s@ == m,
            _ => false,
        }
    }

    /// A `ValidationError` carrying exactly the message `m`.
    pub open spec fn is_validation(&self, m: Seq<char>) -> bool {
        match self {
            AppError::ValidationError(s) => s@ == m,
            _ => false,
        }
    }

    /// A `NotFound` carrying exactly the message `m`.
    pub open spec fn is_not_found(&self, m: Seq<char>) -> bool {
        match self {
            AppError::NotFound(s) => s@ == m,
            _ => false,
        }
    }
}

} // verus!
