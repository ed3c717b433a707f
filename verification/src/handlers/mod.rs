//! What the HTTP endpoints decide: which error answers a failed request,
//! with which status, and what a found or missing scan turns into.
pub mod coverage_handler;
pub mod error;
pub mod health_handler;
pub mod scan_handler;
