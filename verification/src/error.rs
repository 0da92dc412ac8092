//! The error classes the request handlers report.

use vstd::prelude::*;

verus! {

/// One error surfaced to a caller, classified by how the handler failed.
pub enum AppError {
    /// The request payload failed a validation rule.
    Validation(String),
    /// The addressed entity does not exist or is not visible.
    NotFound(String),
    /// The caller presented no acceptable credential.
    Unauthorized,
    /// The caller is known but lacks the right to this action.
    Forbidden(String),
    /// The request itself was malformed.
    BadRequest(String),
    /// The server failed internally.
    Internal(String),
}

impl AppError {
    /// The class of this error, as a short stable name.
    pub fn class_name(&self) -> (r: &'static str)
        ensures
            self is Validation ==> r@ == "validation"@,
            self is NotFound ==> r@ == "not_found"@,
            self is Unauthorized ==> r@ == "unauthorized"@,
            self is Forbidden ==> r@ == "forbidden"@,
            self is BadRequest ==> r@ == "bad_request"@,
            self is Internal ==> r@ == "internal"@,
    {
        match self {
            AppError::Validation(_) => "validation",
            AppError::NotFound(_) => "not_found",
            AppError::Unauthorized => "unauthorized",
            AppError::Forbidden(_) => "forbidden",
            AppError::BadRequest(_) => "bad_request",
            AppError::Internal(_) => "internal",
        }
    }
}

} // verus!
