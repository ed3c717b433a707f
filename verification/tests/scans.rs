use sdd_navigator_service::clock::Timestamp;
use sdd_navigator_service::models::annotation::{AnnotationPattern, RequirementAnnotation};
use sdd_navigator_service::models::coverage::CoverageMetrics;
use sdd_navigator_service::models::scan_result::{ScanRequest, ScanResult, ScanStatus};
use sdd_navigator_service::services::file_processor::DefaultFileProcessor;
use sdd_navigator_service::services::scanner::{
    is_test_file, is_test_file_name, missing_path_message, missing_path_message_of, FileSystemScanner,
    ScanProgress,
};

fn scanner() -> FileSystemScanner {
    FileSystemScanner::new(DefaultFileProcessor::new(AnnotationPattern::default()).unwrap())
}

#[test]
fn test_files_by_name() {
    assert!(is_test_file("src/my_test.rs"));
    assert!(is_test_file("tests/test_scan.py"));
    assert!(is_test_file("a/contest.rs"));
    assert!(!is_test_file("src/lib.rs"));
    // The final component of "tests/" is "tests".
    assert!(is_test_file("tests/"));
    assert!(!is_test_file(".."));
}

#[test]
fn which_files_a_scan_reads() {
    let s = scanner();
    let mut req = ScanRequest::default();
    assert!(s.should_include_file("src/lib.rs", true, &req));
    assert!(!s.should_include_file("src/lib.rs", false, &req));
    assert!(!s.should_include_file("notes.txt", true, &req));
    assert!(s.should_include_file("src/my_test.rs", true, &req));
    req.include_tests = false;
    assert!(!s.should_include_file("src/my_test.rs", true, &req));
    // .hpp is supported but no default pattern accepts it.
    assert!(!s.should_include_file("x.hpp", true, &req));
    req.file_patterns = vec!["lib".to_string()];
    assert!(!s.should_include_file("src/lib.rs", true, &req));
    req.file_patterns = vec!["[".to_string()];
    assert!(!s.should_include_file("src/lib.rs", true, &req));
    assert!(s.should_include_file("src/a[b.rs", true, &req));
}

#[test]
fn scan_lifecycle() {
    let mut s = ScanResult::new("/src".to_string());
    assert_eq!(s.status, ScanStatus::InProgress);
    assert!(s.duration().is_none());
    s.fail("bad".to_string());
    assert_eq!(s.status, ScanStatus::Failed);
    assert_eq!(s.error_message.as_deref(), Some("bad"));
    assert!(s.duration().unwrap() >= 0);
    let mut t = ScanResult::new("/src".to_string());
    t.complete(CoverageMetrics::new(t.id));
    assert_eq!(t.status, ScanStatus::Completed);
    assert!(t.metrics.is_some());
}

#[test]
fn durations_in_nanoseconds() {
    let mut s = ScanResult::new("/".to_string());
    s.started_at = Timestamp { seconds: 10, nanos: 500 };
    s.completed_at = Some(Timestamp { seconds: 12, nanos: 100 });
    assert_eq!(s.duration(), Some(2_000_000_000 - 400));
}

#[test]
fn progress_summary() {
    let mut p = ScanProgress::new();
    let a = RequirementAnnotation::new("R".to_string(), "a.rs".to_string(), 1, String::new(), None);
    p.record_processed(vec![a.clone(), a]);
    p.record_processed(vec![]);
    p.record_failed();
    let mut scan = ScanResult::new("/x".to_string());
    let summary = p.finish(&mut scan);
    assert_eq!(summary, "Processed 2 files, found 2 annotations, 1 files failed");
    assert_eq!(scan.annotations.len(), 2);
    assert_eq!(scan.status, ScanStatus::Completed);
    assert!(scan.completed_at.is_some());
}

#[test]
fn test_file_names() {
    assert!(is_test_file_name("test_scan.py"));
    assert!(is_test_file_name("scan_test"));
    assert!(is_test_file_name("scan.test"));
    assert!(is_test_file_name("attestation.rs"));
    assert!(!is_test_file_name("lib.rs"));
    assert!(!is_test_file_name("Test.rs"));
    assert!(!is_test_file_name(""));
}

#[test]
fn missing_path_messages() {
    assert_eq!(missing_path_message("/no/such"), "Path does not exist: \"/no/such\"");
    assert_eq!(missing_path_message("a\"b"), "Path does not exist: \"a\\\"b\"");
    assert_eq!(missing_path_message_of("X"), "Path does not exist: X");
}

#[test]
fn recording_a_read_or_a_failed_read() {
    let processor = DefaultFileProcessor::new(AnnotationPattern::default()).unwrap();
    let mut p = ScanProgress::new();
    assert!(p.record_file(&processor, "a.rs", Some("// @req(R1)\n// @req(R2)")));
    assert!(!p.record_file(&processor, "b.rs", None));
    assert!(p.record_file(&processor, "c.rs", Some("nothing")));
    assert_eq!(p.processed_files, 2);
    assert_eq!(p.failed_files, 1);
    let ids: Vec<&str> = p.annotations.iter().map(|a| a.requirement_id.as_str()).collect();
    assert_eq!(ids, vec!["R1", "R2"]);
    assert_eq!(p.annotations[1].file_path, "a.rs");
}

#[test]
fn missing_path_failure() {
    let mut s = ScanResult::new("/no/such".to_string());
    s.fail_missing_path();
    assert_eq!(s.status, ScanStatus::Failed);
    assert_eq!(s.error_message.as_deref(), Some("Path does not exist: \"/no/such\""));
    assert!(s.completed_at.is_some());
}
