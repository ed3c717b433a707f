//! The scanning services: finding annotations in file contents, deciding
//! which files to scan, and computing coverage.
pub mod coverage_calculator;
pub mod file_processor;
pub mod glob_pattern;
pub mod regex_pattern;
pub mod scanner;
