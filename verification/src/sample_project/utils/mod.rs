//! Checks and formatting of user input.
pub mod formatters;
pub mod validators;
