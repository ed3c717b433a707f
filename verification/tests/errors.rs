use sdd_navigator_service::handlers::coverage_handler::{coverage_metrics_outcome, coverage_report_outcome};
use sdd_navigator_service::handlers::error::ApiError;
use sdd_navigator_service::handlers::health_handler::health_status;
use sdd_navigator_service::handlers::scan_handler::{delete_scan_outcome, get_scan_outcome, scan_not_found};
use sdd_navigator_service::models::error::SddNavigatorError;
use sdd_navigator_service::models::scan_result::ScanResult;
use sdd_navigator_service::services::coverage_calculator::DefaultCoverageCalculator;

#[test]
fn library_errors_become_api_errors() {
    assert_eq!(ApiError::from(SddNavigatorError::Database("down".into())), ApiError::DatabaseError("down".into()));
    assert_eq!(ApiError::from(SddNavigatorError::Scan("s".into())), ApiError::ScanError("s".into()));
    assert_eq!(ApiError::from(SddNavigatorError::CoverageCalculation("c".into())), ApiError::CoverageError("c".into()));
    assert_eq!(ApiError::from(SddNavigatorError::Serialization("j".into())), ApiError::SerializationError("j".into()));
    assert_eq!(ApiError::from(SddNavigatorError::PathNotFound("/x".into())), ApiError::NotFound("Path not found: /x".into()));
    assert_eq!(ApiError::from(SddNavigatorError::InvalidAnnotation("bad".into())), ApiError::BadRequest("Invalid annotation: bad".into()));
    assert_eq!(ApiError::from(SddNavigatorError::Config("c".into())), ApiError::Internal("Configuration error: c".into()));
    assert_eq!(ApiError::from(SddNavigatorError::Io("e".into())), ApiError::Internal("IO error: e".into()));
    assert_eq!(ApiError::from(SddNavigatorError::Regex("r".into())), ApiError::Internal("Regex error: r".into()));
    assert_eq!(ApiError::from(SddNavigatorError::Internal("i".into())), ApiError::Internal("Internal server error: i".into()));
}

#[test]
fn error_messages() {
    assert_eq!(SddNavigatorError::InvalidAnnotation("x".into()).message(), "Invalid annotation format: x");
    assert_eq!(SddNavigatorError::CoverageCalculation("x".into()).message(), "Coverage calculation error: x");
    assert_eq!(SddNavigatorError::PathNotFound("x".into()).message(), "Path not found: x");
    assert_eq!(ApiError::NotFound("x".into()).message(), "Not found: x");
    assert_eq!(ApiError::CoverageError("x".into()).message(), "Coverage error: x");
    assert_eq!(ApiError::Internal("x".into()).text(), "x");
}

#[test]
fn status_codes() {
    assert_eq!(ApiError::NotFound(String::new()).status_code(), 404);
    assert_eq!(ApiError::BadRequest(String::new()).status_code(), 400);
    assert_eq!(ApiError::Internal(String::new()).status_code(), 500);
    assert_eq!(ApiError::DatabaseError(String::new()).status_code(), 500);
    assert_eq!(ApiError::ScanError(String::new()).status_code(), 500);
    assert_eq!(ApiError::CoverageError(String::new()).status_code(), 500);
    assert_eq!(ApiError::SerializationError(String::new()).status_code(), 500);
}

#[test]
fn missing_scans_are_not_found() {
    let id: u128 = 0xa1a2a3a4b1b2c1c2d1d2d3d4d5d6d7d8;
    assert_eq!(scan_not_found(id), ApiError::NotFound("Scan a1a2a3a4-b1b2-c1c2-d1d2-d3d4d5d6d7d8 not found".into()));
    assert!(matches!(get_scan_outcome(id, None), Err(ApiError::NotFound(_))));
    let s = ScanResult::new("/".into());
    assert_eq!(get_scan_outcome(s.id, Some(&s)).unwrap().id, s.id);
    assert_eq!(delete_scan_outcome(id, true), Ok(204));
    assert!(matches!(delete_scan_outcome(id, false), Err(ApiError::NotFound(_))));
    let calc = DefaultCoverageCalculator::new();
    assert!(matches!(coverage_metrics_outcome(&calc, id, None), Err(ApiError::NotFound(_))));
    let m = coverage_metrics_outcome(&calc, s.id, Some(&s)).unwrap();
    assert_eq!(m.scan_id, s.id);
    let r = coverage_report_outcome(&calc, s.id, Some(&s)).unwrap();
    assert_eq!(r.recommendations.len(), 1);
}

#[test]
fn health() {
    let (a, b) = health_status(true);
    assert_eq!((a.as_str(), b.as_str()), ("healthy", "healthy"));
    let (a, b) = health_status(false);
    assert_eq!((a.as_str(), b.as_str()), ("degraded", "unhealthy"));
}

#[test]
fn library_error_statuses() {
    assert_eq!(ApiError::from(SddNavigatorError::PathNotFound("/x".into())).status_code(), 404);
    assert_eq!(ApiError::from(SddNavigatorError::InvalidAnnotation("a".into())).status_code(), 400);
    assert_eq!(ApiError::from(SddNavigatorError::Config("c".into())).status_code(), 500);
    assert_eq!(ApiError::from(SddNavigatorError::Database("d".into())).status_code(), 500);
}
