//! Error taxonomy of the library and its caller-facing response form.

use vstd::prelude::*;

verus! {

/// A failure of a library operation.
///
/// `Validation` marks malformed or out-of-range input, `NotFound` a referenced
/// entity or id that is absent, and `Business` an operation that violates a
/// domain rule.  `Database`, `Io`, `Serialization` and `External` carry
/// infrastructure faults raised outside the verified core; the `String` holds
/// the low-level description.
#[derive(Debug)]
pub enum AppError {
    Database(String),
    Io(String),
    Serialization(String),
    NotFound(String),
    Validation(String),
    Business(String),
    External(String),
}

/// The caller-facing form of an error: a human-readable message, a stable
/// machine-readable code, and low-level details for infrastructure faults
/// only.
#[derive(Debug)]
pub struct ErrorResponse {
    pub error: String,
    pub code: String,
    pub details: Option<String>,
}

pub type AppResult<T> = Result<T, AppError>;

impl AppError {
    /// Renders the error for a caller.  Business, validation and not-found
    /// errors surface their message directly and leak no internals;
    /// infrastructure errors surface a fixed message and keep the low-level
    /// description in `details`.
    pub fn to_response(&self) -> (r: ErrorResponse)
        ensures
            match *self {
                AppError::Database(ref m) => {
                    &&& r.error@ == "Database operation failed"@
                    &&& r.code@ == "DATABASE_ERROR"@
                    &&& r.details matches Some(d) && d == *m
                },
                AppError::Io(ref m) => {
                    &&& r.error@ == "File system operation failed"@
                    &&& r.code@ == "IO_ERROR"@
                    &&& r.details matches Some(d) && d == *m
                },
                AppError::Serialization(ref m) => {
                    &&& r.error@ == "Data serialization failed"@
                    &&& r.code@ == "SERIALIZATION_ERROR"@
                    &&& r.details matches Some(d) && d == *m
                },
                AppError::NotFound(ref m) => {
                    &&& r.error == *m
                    &&& r.code@ == "NOT_FOUND"@
                    &&& r.details is None
                },
                AppError::Validation(ref m) => {
                    &&& r.error == *m
                    &&& r.code@ == "VALIDATION_ERROR"@
                    &&& r.details is None
                },
                AppError::Business(ref m) => {
                    &&& r.error == *m
                    &&& r.code@ == "BUSINESS_ERROR"@
                    &&& r.details is None
                },
                AppError::External(ref m) => {
                    &&& r.error == *m
                    &&& r.code@ == "EXTERNAL_ERROR"@
                    &&& r.details is None
                },
            },
    {
        match self {
            AppError::Database(m) => ErrorResponse {
                error: "Database operation failed".to_owned(),
                code: "DATABASE_ERROR".to_owned(),
                details: Some(m.clone()),
            },
            AppError::Io(m) => ErrorResponse {
                error: "File system operation failed".to_owned(),
                code: "IO_ERROR".to_owned(),
                details: Some(m.clone()),
            },
            AppError::Serialization(m) => ErrorResponse {
                error: "Data serialization failed".to_owned(),
                code: "SERIALIZATION_ERROR".to_owned(),
                details: Some(m.clone()),
            },
            AppError::NotFound(m) => ErrorResponse {
                error: m.clone(),
                code: "NOT_FOUND".to_owned(),
                details: None,
            },
            AppError::Validation(m) => ErrorResponse {
                error: m.clone(),
                code: "VALIDATION_ERROR".to_owned(),
                details: None,
            },
            AppError::Business(m) => ErrorResponse {
                error: m.clone(),
                code: "BUSINESS_ERROR".to_owned(),
                details: None,
            },
            AppError::External(m) => ErrorResponse {
                error: m.clone(),
                code: "EXTERNAL_ERROR".to_owned(),
                details: None,
            },
        }
    }
}

} // verus!
