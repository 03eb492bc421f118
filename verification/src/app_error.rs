use vstd::prelude::*;
use crate::text::{owned, push_str};

verus! {

/// Why a use case failed.
#[derive(Debug, Clone)]
pub enum AppError {
    /// The request breaks a rule; the message says which.
    Validation(String),
    /// Something the request names does not exist; the text says what.
    NotFound(String),
    /// A port (storage, file system, parser) failed; its message.
    Upstream(String),
    /// The database could not be set up; its message.
    Database(String),
}

impl AppError {
    pub fn validation(message: String) -> (r: Self)
        ensures
            r matches AppError::Validation(m) && m@ == message@,
    {
        AppError::Validation(message)
    }

    pub fn upstream(message: String) -> (r: Self)
        ensures
            r matches AppError::Upstream(m) && m@ == message@,
    {
        AppError::Upstream(message)
    }

    pub fn database(message: String) -> (r: Self)
        ensures
            r matches AppError::Database(m) && m@ == message@,
    {
        AppError::Database(message)
    }

    pub fn not_found(what: String) -> (r: Self)
        ensures
            r matches AppError::NotFound(m) && m@ == what@,
    {
        AppError::NotFound(what)
    }

    /// The message of the error.
    pub fn to_string(&self) -> (r: String)
        ensures
            r@ == match self {
                AppError::Validation(m) => "validation failed: "@ + m@,
                AppError::NotFound(m) => "not found: "@ + m@,
                AppError::Upstream(m) => "upstream failed: "@ + m@,
                AppError::Database(m) => "database failed: "@ + m@,
            },
    {
        let (prefix, m) = match self {
            AppError::Validation(m) => ("validation failed: ", m),
            AppError::NotFound(m) => ("not found: ", m),
            AppError::Upstream(m) => ("upstream failed: ", m),
            AppError::Database(m) => ("database failed: ", m),
        };
        let mut r = owned(prefix);
        push_str(&mut r, m.as_str());
        r
    }
}

/// Whether `e` is a validation error with the given message.
pub open spec fn is_validation(e: AppError, message: Seq<char>) -> bool {
    e matches AppError::Validation(m) && m@ == message
}

/// Whether `e` says that the given thing was not found.
pub open spec fn is_not_found(e: AppError, what: Seq<char>) -> bool {
    e matches AppError::NotFound(m) && m@ == what
}

} // verus!
