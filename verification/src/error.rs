//! Typed errors used across the core, and their HTTP mapping.

use vstd::prelude::*;

verus! {

/// Configuration errors: referential failures and malformed configuration.
#[derive(Debug)]
pub enum ConfigError {
    /// A record refers to an id of the given kind that does not exist.
    MissingReference { kind: String, id: String },
    /// A table's primary key names a column the table does not have.
    InvalidPrimaryKey { table_id: String, column: String },
    /// Two API bindings declare the same path segment.
    DuplicatePathSegment(String),
    /// Configuration could not be loaded from storage.
    Load(String),
    /// Any other validation failure.
    Validation(String),
}

/// What the database driver reported, reduced to what the core decides on.
#[derive(Debug)]
pub struct DbErrorInfo {
    /// True when the statement returned no row where one was required.
    pub row_not_found: bool,
    pub message: String,
}

/// Error kinds used across the core; the HTTP adapter renders them as the
/// error envelope.
#[derive(Debug)]
pub enum AppError {
    Config(ConfigError),
    NotFound(String),
    Validation(String),
    Db(DbErrorInfo),
    Conflict(String),
    BadRequest(String),
}

impl AppError {
    /// The error code rendered in the response envelope.
    pub fn code(&self) -> (r: &'static str)
        ensures
            r@ == self.spec_code(),
    {
        match self {
            AppError::Config(_) => "config_error",
            AppError::NotFound(_) => "not_found",
            AppError::Validation(_) => "validation_error",
            AppError::Db(info) => {
                if info.row_not_found {
                    "not_found"
                } else {
                    "database_error"
                }
            },
            AppError::Conflict(_) => "conflict",
            AppError::BadRequest(_) => "bad_request",
        }
    }

    pub open spec fn spec_code(&self) -> Seq<char> {
        match self {
            AppError::Config(_) => "config_error"@,
            AppError::NotFound(_) => "not_found"@,
            AppError::Validation(_) => "validation_error"@,
            AppError::Db(info) => if info.row_not_found {
                "not_found"@
            } else {
                "database_error"@
            },
            AppError::Conflict(_) => "conflict"@,
            AppError::BadRequest(_) => "bad_request"@,
        }
    }

    /// The HTTP status for this error: a missing row is promoted to
    /// not-found, any other driver error is an internal error.
    pub fn http_status(&self) -> (r: u16)
        ensures
            r == self.spec_http_status(),
    {
        match self {
            AppError::Config(_) => 500,
            AppError::NotFound(_) => 404,
            AppError::Validation(_) => 422,
            AppError::Db(info) => {
                if info.row_not_found {
                    404
                } else {
                    500
                }
            },
            AppError::Conflict(_) => 409,
            AppError::BadRequest(_) => 400,
        }
    }

    pub open spec fn spec_http_status(&self) -> u16 {
        match self {
            AppError::Config(_) => 500u16,
            AppError::NotFound(_) => 404u16,
            AppError::Validation(_) => 422u16,
            AppError::Db(info) => if info.row_not_found {
                404u16
            } else {
                500u16
            },
            AppError::Conflict(_) => 409u16,
            AppError::BadRequest(_) => 400u16,
        }
    }
}

} // verus!
