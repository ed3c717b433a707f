//! Errors as the HTTP endpoints report them.
use vstd::prelude::*;
use crate::models::error::{error_message, SddNavigatorError};
use crate::text::copy_str;

verus! {

/// An error answered to an HTTP request, with its message.
#[derive(Debug, Clone, PartialEq, Eq)]
pub enum ApiError {
    NotFound(String),
    BadRequest(String),
    Internal(String),
    DatabaseError(String),
    ScanError(String),
    CoverageError(String),
    SerializationError(String),
}

/// The text an API error carries.
pub open spec fn api_error_text(e: ApiError) -> Seq<char> {
    match e {
        ApiError::NotFound(m) => m@,
        ApiError::BadRequest(m) => m@,
        ApiError::Internal(m) => m@,
        ApiError::DatabaseError(m) => m@,
        ApiError::ScanError(m) => m@,
        ApiError::CoverageError(m) => m@,
        ApiError::SerializationError(m) => m@,
    }
}

/// The HTTP status of an API error: 404 for a missing resource, 400 for a
/// bad request, 500 for everything else.
pub open spec fn api_status(e: ApiError) -> u16 {
    match e {
        ApiError::NotFound(_) => 404,
        ApiError::BadRequest(_) => 400,
        _ => 500,
    }
}

/// The message an API error displays: a prefix for its kind, then its text.
pub open spec fn api_error_message(e: ApiError) -> Seq<char> {
    match e {
        ApiError::NotFound(m) => "Not found: "@ + m@,
        ApiError::BadRequest(m) => "Bad request: "@ + m@,
        ApiError::Internal(m) => "Internal server error: "@ + m@,
        ApiError::DatabaseError(m) => "Database error: "@ + m@,
        ApiError::ScanError(m) => "Scan error: "@ + m@,
        ApiError::CoverageError(m) => "Coverage error: "@ + m@,
        ApiError::SerializationError(m) => "Serialization error: "@ + m@,
    }
}

/// `r` is the API error that the library error `e` turns into: database,
/// serialisation, scan and coverage errors keep their text under the
/// matching kind; a missing path is "not found" and an invalid annotation a
/// bad request, each with a prefix; anything else is an internal error
/// that carries the library error's whole message.
pub open spec fn api_error_for(e: SddNavigatorError, r: ApiError) -> bool {
    match e {
        SddNavigatorError::Database(m) => r matches ApiError::DatabaseError(x) && x@ == m@,
        SddNavigatorError::Serialization(m) => r matches ApiError::SerializationError(x) && x@
            == m@,
        SddNavigatorError::Scan(m) => r matches ApiError::ScanError(x) && x@ == m@,
        SddNavigatorError::CoverageCalculation(m) => r matches ApiError::CoverageError(x) && x@
            == m@,
        SddNavigatorError::PathNotFound(p) => r matches ApiError::NotFound(x) && x@
            == "Path not found: "@ + p@,
        SddNavigatorError::InvalidAnnotation(m) => r matches ApiError::BadRequest(x) && x@
            == "Invalid annotation: "@ + m@,
        _ => r matches ApiError::Internal(x) && x@ == error_message(e),
    }
}

/// Law: a library error is answered 404 when a path is missing, 400 when
/// an annotation is invalid, and 500 in every other case.
pub proof fn law_status_of_library_error(e: SddNavigatorError, r: ApiError)
    requires
        api_error_for(e, r),
    ensures
        api_status(r) == match e {
            SddNavigatorError::PathNotFound(_) => 404u16,
            SddNavigatorError::InvalidAnnotation(_) => 400u16,
            _ => 500u16,
        },
{
}

impl ApiError {
    /// The API error that a library error turns into.
    pub fn from(err: SddNavigatorError) -> (r: ApiError)
        ensures
            api_error_for(err, r),
    {
        let whole = err.message();
        match err {
            SddNavigatorError::Database(m) => ApiError::DatabaseError(m),
            SddNavigatorError::Serialization(m) => ApiError::SerializationError(m),
            SddNavigatorError::Scan(m) => ApiError::ScanError(m),
            SddNavigatorError::CoverageCalculation(m) => ApiError::CoverageError(m),
            SddNavigatorError::PathNotFound(p) => {
                let mut x = copy_str("Path not found: ");
                x.append(p.as_str());
                ApiError::NotFound(x)
            },
            SddNavigatorError::InvalidAnnotation(m) => {
                let mut x = copy_str("Invalid annotation: ");
                x.append(m.as_str());
                ApiError::BadRequest(x)
            },
            _ => ApiError::Internal(whole),
        }
    }

    /// The HTTP status of this error.
    pub fn status_code(&self) -> (r: u16)
        ensures
            r == api_status(*self),
    {
        match self {
            ApiError::NotFound(_) => 404,
            ApiError::BadRequest(_) => 400,
            _ => 500,
        }
    }

    /// The text this error carries (what the response body shows).
    pub fn text(&self) -> (r: String)
        ensures
            r@ == api_error_text(*self),
    {
        match self {
            ApiError::NotFound(m) => m.clone(),
            ApiError::BadRequest(m) => m.clone(),
            ApiError::Internal(m) => m.clone(),
            ApiError::DatabaseError(m) => m.clone(),
            ApiError::ScanError(m) => m.clone(),
            ApiError::CoverageError(m) => m.clone(),
            ApiError::SerializationError(m) => m.clone(),
        }
    }

    /// The message this error displays.
    pub fn message(&self) -> (r: String)
        ensures
            r@ == api_error_message(*self),
    {
        let (prefix, m) = match self {
            ApiError::NotFound(m) => ("Not found: ", m),
            ApiError::BadRequest(m) => ("Bad request: ", m),
            ApiError::Internal(m) => ("Internal server error: ", m),
            ApiError::DatabaseError(m) => ("Database error: ", m),
            ApiError::ScanError(m) => ("Scan error: ", m),
            ApiError::CoverageError(m) => ("Coverage error: ", m),
            ApiError::SerializationError(m) => ("Serialization error: ", m),
        };
        let mut r = copy_str(prefix);
        r.append(m.as_str());
        r
    }
}

} // verus!
