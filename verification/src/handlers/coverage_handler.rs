//! What the coverage endpoints answer once the store has been read.
use vstd::prelude::*;
use crate::handlers::error::ApiError;
use crate::handlers::scan_handler::{scan_not_found, scan_not_found_text};
use crate::models::coverage::{recommendations_for, CoverageMetrics, CoverageReport};
use crate::models::scan_result::ScanResult;
use crate::services::coverage_calculator::{
    metrics_of,
    CoverageCalculator,
    DefaultCoverageCalculator,
};
use crate::text::views;

verus! {

/// The coverage metrics answered for the scan `scan_id`, given what the
/// store holds under that id.
pub fn coverage_metrics_outcome(
    calculator: &DefaultCoverageCalculator,
    scan_id: u128,
    stored: Option<&ScanResult>,
) -> (r: Result<CoverageMetrics, ApiError>)
    ensures
        match stored {
            Some(s) => r matches Ok(m) && metrics_of(m, scan_id, s.annotations@),
            None => r matches Err(ApiError::NotFound(m)) && m@ == scan_not_found_text(scan_id),
        },
{
    match stored {
        None => Err(scan_not_found(scan_id)),
        Some(scan) => match calculator.calculate(scan_id, scan.annotations.as_slice()) {
            Ok(m) => Ok(m),
            Err(e) => Err(ApiError::CoverageError(e.message())),
        },
    }
}

/// The coverage report answered for the scan `scan_id`, given what the
/// store holds under that id.
pub fn coverage_report_outcome(
    calculator: &DefaultCoverageCalculator,
    scan_id: u128,
    stored: Option<&ScanResult>,
) -> (r: Result<CoverageReport, ApiError>)
    ensures
        match stored {
            Some(s) => r matches Ok(rep) && rep.scan_id == scan_id && metrics_of(
                rep.metrics,
                scan_id,
                s.annotations@,
            ) && views(rep.recommendations@) == recommendations_for(rep.metrics),
            None => r matches Err(ApiError::NotFound(m)) && m@ == scan_not_found_text(scan_id),
        },
{
    let metrics = coverage_metrics_outcome(calculator, scan_id, stored)?;
    match calculator.generate_report(metrics) {
        Ok(rep) => Ok(rep),
        Err(e) => Err(ApiError::CoverageError(e.message())),
    }
}

} // verus!
