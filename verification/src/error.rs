//! The error taxonomy shared by repositories and usecases.

use vstd::prelude::*;

use crate::numeric::i64_to_dec;
use crate::numeric::spec_dec_i64;

verus! {

/// Every failure a repository or usecase can report. Validation and
/// business-rule violations map to 400, a missing or soft-deleted entity
/// to 404, authentication failures to 401, and store-level or unexpected
/// failures to 500.
#[derive(Debug)]
pub enum AppError {
    ValidationError(String),
    DatabaseError(String),
    ConfigError(String),
    NotFound(String),
    InternalError,
    AuthenticationError(String),
    BadRequest(String),
}

impl AppError {
    /// The HTTP status code this error maps to at the API boundary.
    pub fn status_code(&self) -> (code: u16)
        ensures
            code == self.spec_status_code(),
    {
        match self {
            AppError::ValidationError(_) => 400,
            AppError::DatabaseError(_) => 500,
            AppError::ConfigError(_) => 500,
            AppError::NotFound(_) => 404,
            AppError::InternalError => 500,
            AppError::AuthenticationError(_) => 401,
            AppError::BadRequest(_) => 400,
        }
    }

    pub open spec fn spec_status_code(&self) -> u16 {
        match self {
            AppError::ValidationError(_) => 400,
            AppError::DatabaseError(_) => 500,
            AppError::ConfigError(_) => 500,
            AppError::NotFound(_) => 404,
            AppError::InternalError => 500,
            AppError::AuthenticationError(_) => 401,
            AppError::BadRequest(_) => 400,
        }
    }
}

/// The message a missing or soft-deleted entity is reported with.
pub open spec fn spec_not_found_msg(prefix: Seq<char>, id: i32) -> Seq<char> {
    prefix + spec_dec_i64(id as int) + " not found"@
}

/// Builds the human-readable message naming the entity kind and id.
pub fn entity_not_found(prefix: &str, id: i32) -> (m: String)
    ensures
        m@ == spec_not_found_msg(prefix@, id),
{
    let mut m = prefix.to_owned();
    m.append(i64_to_dec(id as i64).as_str());
    m.append(" not found");
    m
}

} // verus!
