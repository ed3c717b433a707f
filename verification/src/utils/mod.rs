//! Input validation.
pub mod validation;
