//! The library's error type.
use vstd::prelude::*;
use crate::text::copy_str;

verus! {

/// Everything that can go wrong in the library. Errors that come from an
/// outside source (file system, database, serialisation, regular
/// expressions) carry that source's message.
#[derive(Debug, Clone, PartialEq, Eq)]
pub enum SddNavigatorError {
    Io(String),
    Database(String),
    Serialization(String),
    Regex(String),
    Config(String),
    Scan(String),
    PathNotFound(String),
    InvalidAnnotation(String),
    CoverageCalculation(String),
    Internal(String),
}

/// The message an error displays: a fixed prefix for its kind, then its
/// text.
pub open spec fn error_message(e: SddNavigatorError) -> Seq<char> {
    match e {
        SddNavigatorError::Io(m) => "IO error: "@ + m@,
        SddNavigatorError::Database(m) => "Database error: "@ + m@,
        SddNavigatorError::Serialization(m) => "Serialization error: "@ + m@,
        SddNavigatorError::Regex(m) => "Regex error: "@ + m@,
        SddNavigatorError::Config(m) => "Configuration error: "@ + m@,
        SddNavigatorError::Scan(m) => "Scan error: "@ + m@,
        SddNavigatorError::PathNotFound(m) => "Path not found: "@ + m@,
        SddNavigatorError::InvalidAnnotation(m) => "Invalid annotation format: "@ + m@,
        SddNavigatorError::CoverageCalculation(m) => "Coverage calculation error: "@ + m@,
        SddNavigatorError::Internal(m) => "Internal server error: "@ + m@,
    }
}

impl SddNavigatorError {
    /// The message this error displays.
    pub fn message(&self) -> (r: String)
        ensures
            r@ == error_message(*self),
    {
        let (prefix, m) = match self {
            SddNavigatorError::Io(m) => ("IO error: ", m),
            SddNavigatorError::Database(m) => ("Database error: ", m),
            SddNavigatorError::Serialization(m) => ("Serialization error: ", m),
            SddNavigatorError::Regex(m) => ("Regex error: ", m),
            SddNavigatorError::Config(m) => ("Configuration error: ", m),
            SddNavigatorError::Scan(m) => ("Scan error: ", m),
            SddNavigatorError::PathNotFound(m) => ("Path not found: ", m),
            SddNavigatorError::InvalidAnnotation(m) => ("Invalid annotation format: ", m),
            SddNavigatorError::CoverageCalculation(m) => ("Coverage calculation error: ", m),
            SddNavigatorError::Internal(m) => ("Internal server error: ", m),
        };
        let mut r = copy_str(prefix);
        r.append(m.as_str());
        r
    }
}

} // verus!
