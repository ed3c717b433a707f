//! Where scans are kept.
pub mod scan_repository;
