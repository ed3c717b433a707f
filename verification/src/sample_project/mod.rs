//! The small sample project that the service's scans are tried on: its
//! users, sessions, and input checks.
pub mod entry;
pub mod models;
pub mod utils;
