//! Errors of the service and the HTTP status each one is answered with.
use vstd::prelude::*;

verus! {

/// An error of the service.
#[derive(Debug, Clone, PartialEq, Eq)]
pub enum AppError {
    Config(String),
    Unauthorized,
    Forbidden,
    NotFound,
    Conflict(String),
    Unprocessable(String),
    BadRequest(String),
    Database,
    Internal(String),
}

/// Result of a service operation.
pub type AppResult<T> = Result<T, AppError>;

/// The HTTP status that answers an error.
pub open spec fn status_of(e: AppError) -> u16 {
    match e {
        AppError::Config(_) | AppError::Internal(_) | AppError::Database => 500,
        AppError::Unauthorized => 401,
        AppError::Forbidden => 403,
        AppError::NotFound => 404,
        AppError::Conflict(_) => 409,
        AppError::Unprocessable(_) => 422,
        AppError::BadRequest(_) => 400,
    }
}

/// The text shown for an error.
pub open spec fn message_of(e: AppError) -> Seq<char> {
    match e {
        AppError::Config(m) => m@,
        AppError::Unauthorized => "nicht angemeldet"@,
        AppError::Forbidden => "keine Berechtigung"@,
        AppError::NotFound => "nicht gefunden"@,
        AppError::Conflict(m) => m@,
        AppError::Unprocessable(m) => m@,
        AppError::BadRequest(m) => m@,
        AppError::Database => "Datenbankfehler"@,
        AppError::Internal(_) => "interner Fehler"@,
    }
}

/// The variant and message of an error, as a spec value: the variant is
/// identified by its HTTP status, with the 500 errors told apart (500 internal,
/// 501 configuration, 502 database).
pub open spec fn failure_of(e: AppError) -> (int, Seq<char>) {
    match e {
        AppError::Config(m) => (501, m@),
        AppError::Unauthorized => (401, "nicht angemeldet"@),
        AppError::Forbidden => (403, "keine Berechtigung"@),
        AppError::NotFound => (404, "nicht gefunden"@),
        AppError::Conflict(m) => (409, m@),
        AppError::Unprocessable(m) => (422, m@),
        AppError::BadRequest(m) => (400, m@),
        AppError::Database => (502, "Datenbankfehler"@),
        AppError::Internal(m) => (500, m@),
    }
}

/// A 409 Conflict failure.
pub open spec fn conflict_failure(msg: Seq<char>) -> (int, Seq<char>) {
    (409, msg)
}

/// A 422 Unprocessable failure.
pub open spec fn unprocessable_failure(msg: Seq<char>) -> (int, Seq<char>) {
    (422, msg)
}

/// An internal failure.
pub open spec fn internal_failure(msg: Seq<char>) -> (int, Seq<char>) {
    (500, msg)
}

/// A 404 Not Found failure.
pub open spec fn not_found_failure() -> (int, Seq<char>) {
    (404, "nicht gefunden"@)
}

/// A 401 Unauthorized failure.
pub open spec fn unauthorized_failure() -> (int, Seq<char>) {
    (401, "nicht angemeldet"@)
}

/// A 403 Forbidden failure.
pub open spec fn forbidden_failure() -> (int, Seq<char>) {
    (403, "keine Berechtigung"@)
}

/// An operation failed as expected, or succeeded when no failure was expected.
pub open spec fn fails_as<T>(r: AppResult<T>, expected: Option<(int, Seq<char>)>) -> bool {
    match expected {
        None => r is Ok,
        Some(f) => r matches Err(e) && failure_of(e) == f,
    }
}

/// The error is a 409 Conflict with this message.
pub open spec fn is_conflict(e: AppError, msg: Seq<char>) -> bool {
    e matches AppError::Conflict(m) && m@ == msg
}

/// The error is a 422 Unprocessable with this message.
pub open spec fn is_unprocessable(e: AppError, msg: Seq<char>) -> bool {
    e matches AppError::Unprocessable(m) && m@ == msg
}

/// The error is an internal error with this message.
pub open spec fn is_internal(e: AppError, msg: Seq<char>) -> bool {
    e matches AppError::Internal(m) && m@ == msg
}

/// A 409 Conflict with the given message.
pub fn conflict(msg: &str) -> (e: AppError)
    ensures
        is_conflict(e, msg@),
        failure_of(e) == conflict_failure(msg@),
{
    AppError::Conflict(String::from_str(msg))
}

/// A 422 Unprocessable with the given message.
pub fn unprocessable(msg: &str) -> (e: AppError)
    ensures
        is_unprocessable(e, msg@),
        failure_of(e) == unprocessable_failure(msg@),
{
    AppError::Unprocessable(String::from_str(msg))
}

/// An internal error with the given message.
pub fn internal(msg: &str) -> (e: AppError)
    ensures
        is_internal(e, msg@),
        failure_of(e) == internal_failure(msg@),
{
    AppError::Internal(String::from_str(msg))
}

impl AppError {
    /// The HTTP status code that answers the error.
    pub fn status(&self) -> (r: u16)
        ensures
            r == status_of(*self),
    {
        match self {
            AppError::Config(_) | AppError::Internal(_) | AppError::Database => 500,
            AppError::Unauthorized => 401,
            AppError::Forbidden => 403,
            AppError::NotFound => 404,
            AppError::Conflict(_) => 409,
            AppError::Unprocessable(_) => 422,
            AppError::BadRequest(_) => 400,
        }
    }

    /// The text of the error, as shown to the client.
    pub fn message(&self) -> (r: String)
        ensures
            r@ == message_of(*self),
    {
        match self {
            AppError::Config(m) => m.clone(),
            AppError::Unauthorized => String::from_str("nicht angemeldet"),
            AppError::Forbidden => String::from_str("keine Berechtigung"),
            AppError::NotFound => String::from_str("nicht gefunden"),
            AppError::Conflict(m) => m.clone(),
            AppError::Unprocessable(m) => m.clone(),
            AppError::BadRequest(m) => m.clone(),
            AppError::Database => String::from_str("Datenbankfehler"),
            AppError::Internal(_) => String::from_str("interner Fehler"),
        }
    }

    /// Errors that the service logs when answering: server-side failures.
    pub fn is_server_fault(&self) -> (r: bool)
        ensures
            r == (status_of(*self) == 500),
    {
        matches!(self, AppError::Database | AppError::Internal(_) | AppError::Config(_))
    }
}

} // verus!
