//! The data the library works on: annotations, scans, coverage metrics and
//! errors.
pub mod annotation;
pub mod coverage;
pub mod error;
pub mod scan_result;
