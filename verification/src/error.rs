//! The library's error type. Errors that come from the database or from I/O
//! are carried as their message text.

use vstd::prelude::*;

use crate::text::push_all;

verus! {

pub enum AppError {
    Database(String),
    Io(String),
    ServerNotFound(String),
    ServerAlreadyExists(String),
    InvalidManifest(String),
    Process(String),
    PermissionDenied(String),
    Internal(String),
}

pub type AppResult<T> = Result<T, AppError>;

/// The human-readable message of an error: a fixed prefix naming the
/// variant, then its text.
pub open spec fn error_message(e: AppError) -> Seq<char> {
    match e {
        AppError::Database(s) => "database error: "@ + s@,
        AppError::Io(s) => "io error: "@ + s@,
        AppError::ServerNotFound(s) => "server not found: "@ + s@,
        AppError::ServerAlreadyExists(s) => "server already exists: "@ + s@,
        AppError::InvalidManifest(s) => "invalid manifest: "@ + s@,
        AppError::Process(s) => "process error: "@ + s@,
        AppError::PermissionDenied(s) => "permission denied: "@ + s@,
        AppError::Internal(s) => "internal error: "@ + s@,
    }
}

impl AppError {
    /// The message shown to the user (what the error displays as).
    pub fn message(&self) -> (m: String)
        ensures
            m@ == error_message(*self),
    {
        let mut m = String::new();
        let (prefix, body): (&str, &String) = match self {
            AppError::Database(s) => ("database error: ", s),
            AppError::Io(s) => ("io error: ", s),
            AppError::ServerNotFound(s) => ("server not found: ", s),
            AppError::ServerAlreadyExists(s) => ("server already exists: ", s),
            AppError::InvalidManifest(s) => ("invalid manifest: ", s),
            AppError::Process(s) => ("process error: ", s),
            AppError::PermissionDenied(s) => ("permission denied: ", s),
            AppError::Internal(s) => ("internal error: ", s),
        };
        push_all(&mut m, prefix);
        push_all(&mut m, body.as_str());
        m
    }
}

} // verus!
