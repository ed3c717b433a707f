//! Scans: what was asked, what was found, and how it ended.
use vstd::prelude::*;
use crate::clock::{is_v4_id, new_id, now, Timestamp};
use crate::models::annotation::RequirementAnnotation;
use crate::models::coverage::CoverageMetrics;
use crate::paths::path_debug;
use crate::services::scanner::{missing_path_message, missing_path_text};
use crate::text::{copy_str, views};

verus! {

/// Where a scan stands.
#[derive(Debug, Clone, Copy, PartialEq, Eq, Structural)]
pub enum ScanStatus {
    InProgress,
    Completed,
    Failed,
}

/// One scan of a source tree and its outcome.
#[derive(Debug, Clone)]
pub struct ScanResult {
    pub id: u128,
    pub scan_path: String,
    pub annotations: Vec<RequirementAnnotation>,
    pub metrics: Option<CoverageMetrics>,
    pub status: ScanStatus,
    pub started_at: Timestamp,
    pub completed_at: Option<Timestamp>,
    pub error_message: Option<String>,
}

/// A timestamp that the clock can give.
pub open spec fn clock_time(t: Timestamp) -> bool {
    0 <= t.seconds && t.nanos < 1_000_000_000
}

impl ScanResult {
    /// A scan of `scan_path` that has just started: fresh id, no
    /// annotations, no metrics, in progress.
    pub fn new(scan_path: String) -> (r: Self)
        ensures
            r.scan_path == scan_path,
            is_v4_id(r.id),
            r.annotations@.len() == 0,
            r.metrics is None,
            r.status == ScanStatus::InProgress,
            clock_time(r.started_at),
            r.completed_at is None,
            r.error_message is None,
    {
        ScanResult {
            id: new_id(),
            scan_path,
            annotations: Vec::new(),
            metrics: None,
            status: ScanStatus::InProgress,
            started_at: now(),
            completed_at: None,
            error_message: None,
        }
    }

    /// Marks the scan completed with `metrics`, finished now.
    pub fn complete(&mut self, metrics: CoverageMetrics)
        ensures
            final(self).metrics == Some(metrics),
            final(self).status == ScanStatus::Completed,
            final(self).completed_at matches Some(t) && clock_time(t),
            final(self).id == old(self).id,
            final(self).scan_path == old(self).scan_path,
            final(self).annotations == old(self).annotations,
            final(self).started_at == old(self).started_at,
            final(self).error_message == old(self).error_message,
    {
        self.metrics = Some(metrics);
        self.status = ScanStatus::Completed;
        self.completed_at = Some(now());
    }

    /// Marks the scan failed with `error`, finished now.
    pub fn fail(&mut self, error: String)
        ensures
            final(self).status == ScanStatus::Failed,
            final(self).error_message == Some(error),
            final(self).completed_at matches Some(t) && clock_time(t),
            final(self).id == old(self).id,
            final(self).scan_path == old(self).scan_path,
            final(self).annotations == old(self).annotations,
            final(self).metrics == old(self).metrics,
            final(self).started_at == old(self).started_at,
    {
        self.status = ScanStatus::Failed;
        self.error_message = Some(error);
        self.completed_at = Some(now());
    }

    /// Marks the scan failed because its path does not exist, finished now.
    pub fn fail_missing_path(&mut self)
        ensures
            final(self).status == ScanStatus::Failed,
            final(self).error_message matches Some(m) && m@ == missing_path_text(
                path_debug(old(self).scan_path@),
            ),
            final(self).completed_at matches Some(t) && clock_time(t),
            final(self).id == old(self).id,
            final(self).scan_path == old(self).scan_path,
            final(self).annotations == old(self).annotations,
            final(self).metrics == old(self).metrics,
            final(self).started_at == old(self).started_at,
    {
        let message = missing_path_message(self.scan_path.as_str());
        self.fail(message);
    }

    /// How long the scan took, in nanoseconds; `None` while it runs.
    pub fn duration(&self) -> (r: Option<i128>)
        ensures
            r == match self.completed_at {
                Some(end) => Some(self.started_at.nanos_until(end) as i128),
                None => None::<i128>,
            },
    {
        match &self.completed_at {
            Some(end) => Some(self.started_at.duration_until(end)),
            None => None,
        }
    }
}

/// What a caller asks to scan.
#[derive(Debug, Clone)]
pub struct ScanRequest {
    pub path: String,
    /// Glob patterns; a file is scanned when its name matches one.
    pub file_patterns: Vec<String>,
    pub include_tests: bool,
    pub recursive: bool,
}

/// The file patterns of a default request.
pub open spec fn default_file_patterns() -> Seq<Seq<char>> {
    seq!["*.rs"@, "*.js"@, "*.ts"@, "*.java"@, "*.py"@, "*.cpp"@, "*.c"@, "*.h"@]
}

impl Default for ScanRequest {
    fn default() -> (r: Self)
        ensures
            r.path@ == "."@,
            views(r.file_patterns@) == default_file_patterns(),
            r.include_tests,
            r.recursive,
    {
        let mut file_patterns: Vec<String> = Vec::new();
        file_patterns.push(copy_str("*.rs"));
        file_patterns.push(copy_str("*.js"));
        file_patterns.push(copy_str("*.ts"));
        file_patterns.push(copy_str("*.java"));
        file_patterns.push(copy_str("*.py"));
        file_patterns.push(copy_str("*.cpp"));
        file_patterns.push(copy_str("*.c"));
        file_patterns.push(copy_str("*.h"));
        assert(views(file_patterns@) == default_file_patterns());
        ScanRequest { path: copy_str("."), file_patterns, include_tests: true, recursive: true }
    }
}

/// Counts over the stored scans. The average coverage is a floating-point
/// figure and is computed outside the library.
#[derive(Debug, Clone, Copy)]
pub struct ScanStatistics {
    pub total_scans: usize,
    pub successful_scans: usize,
    pub failed_scans: usize,
    pub last_scan_time: Option<Timestamp>,
}

} // verus!
