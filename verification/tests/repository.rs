use sdd_navigator_service::clock::Timestamp;
use sdd_navigator_service::models::scan_result::{ScanResult, ScanStatus};
use sdd_navigator_service::repository::scan_repository::InMemoryScanRepository;

fn scan(id: u128, seconds: i64) -> ScanResult {
    let mut s = ScanResult::new("/tmp".to_string());
    s.id = id;
    s.started_at = Timestamp { seconds, nanos: 0 };
    s
}

#[test]
fn get_returns_what_was_saved() {
    let mut repo = InMemoryScanRepository::new();
    assert!(repo.get_scan(1).is_none());
    repo.save_scan(scan(1, 10));
    assert_eq!(repo.get_scan(1).unwrap().started_at.seconds, 10);
    repo.save_scan(scan(1, 20));
    assert_eq!(repo.get_scan(1).unwrap().started_at.seconds, 20);
    assert_eq!(repo.get_all_scans().len(), 1);
}

#[test]
fn delete_reports_presence() {
    let mut repo = InMemoryScanRepository::new();
    repo.save_scan(scan(1, 10));
    repo.save_scan(scan(2, 11));
    assert!(repo.delete_scan(1));
    assert!(!repo.delete_scan(1));
    assert!(repo.get_scan(1).is_none());
    assert!(repo.get_scan(2).is_some());
}

#[test]
fn all_scans_latest_first() {
    let mut repo = InMemoryScanRepository::new();
    repo.save_scan(scan(1, 10));
    repo.save_scan(scan(2, 30));
    repo.save_scan(scan(3, 20));
    repo.save_scan(scan(4, 30));
    let ids: Vec<u128> = repo.get_all_scans().iter().map(|s| s.id).collect();
    assert_eq!(ids.len(), 4);
    assert!(ids[..2].contains(&2) && ids[..2].contains(&4));
    assert_eq!(&ids[2..], &[3, 1]);
}

#[test]
fn statistics_count_by_status() {
    let mut repo = InMemoryScanRepository::new();
    let stats = repo.get_scan_statistics();
    assert_eq!(stats.total_scans, 0);
    assert!(stats.last_scan_time.is_none());
    let mut a = scan(1, 10);
    a.status = ScanStatus::Completed;
    let mut b = scan(2, 40);
    b.fail("boom".to_string());
    let c = scan(3, 25);
    repo.save_scan(a);
    repo.save_scan(b);
    repo.save_scan(c);
    let stats = repo.get_scan_statistics();
    assert_eq!(stats.total_scans, 3);
    assert_eq!(stats.successful_scans, 1);
    assert_eq!(stats.failed_scans, 1);
    assert_eq!(stats.last_scan_time, Some(Timestamp { seconds: 40, nanos: 0 }));
}

#[test]
fn default_store_is_empty() {
    let repo = InMemoryScanRepository::default();
    assert!(repo.get_all_scans().is_empty());
    assert_eq!(repo.get_scan_statistics().total_scans, 0);
}

#[test]
fn read_after_a_sequence_of_writes() {
    let mut repo = InMemoryScanRepository::new();
    repo.save_scan(scan(1, 10));
    repo.save_scan(scan(2, 20));
    repo.save_scan(scan(1, 30));
    assert!(repo.delete_scan(2));
    repo.save_scan(scan(2, 40));
    repo.save_scan(scan(3, 50));
    assert!(repo.delete_scan(3));
    assert_eq!(repo.get_scan(1).unwrap().started_at.seconds, 30);
    assert_eq!(repo.get_scan(2).unwrap().started_at.seconds, 40);
    assert!(repo.get_scan(3).is_none());
    assert!(repo.get_scan(4).is_none());
    assert_eq!(repo.get_all_scans().len(), 2);
}
