use sdd_navigator_service::models::error::SddNavigatorError;
use sdd_navigator_service::models::scan_result::ScanRequest;
use sdd_navigator_service::utils::validation::{
    validate_file_properties, validate_requirement_id, Validator,
};

#[test]
fn test_validate_requirement_id_valid() {
    assert!(validate_requirement_id("REQ-001").is_ok());
    assert!(validate_requirement_id("REQ_001").is_ok());
    assert!(validate_requirement_id("REQ001").is_ok());
}

#[test]
fn test_validate_requirement_id_invalid() {
    assert!(validate_requirement_id("").is_err());
    assert!(validate_requirement_id("REQ@001").is_err());
    assert!(validate_requirement_id("REQ-001!").is_err());
}

#[test]
fn test_scan_request_validation() {
    let mut request = ScanRequest::default();

    request.path = "/non/existent/path".to_string();
    assert!(request.validate().is_err());

    request.path = ".".to_string();
    request.file_patterns.clear();
    assert!(request.validate().is_err());
}

#[test]
fn requirement_id_errors_carry_their_messages() {
    match validate_requirement_id("") {
        Err(SddNavigatorError::InvalidAnnotation(m)) => assert_eq!(m, "Requirement ID cannot be empty"),
        other => panic!("unexpected {:?}", other),
    }
    match validate_requirement_id("REQ 1") {
        Err(SddNavigatorError::InvalidAnnotation(m)) => assert_eq!(
            m,
            "Requirement ID can only contain alphanumeric characters, hyphens, and underscores"
        ),
        other => panic!("unexpected {:?}", other),
    }
    let long = "A".repeat(101);
    match validate_requirement_id(&long) {
        Err(SddNavigatorError::InvalidAnnotation(m)) => {
            assert_eq!(m, "Requirement ID too long (max 100 characters)")
        }
        other => panic!("unexpected {:?}", other),
    }
    assert!(validate_requirement_id(&"A".repeat(100)).is_ok());
}

#[test]
fn requirement_id_length_counts_bytes() {
    // 'é' is alphanumeric and two bytes long: 51 of them are 102 bytes.
    let id = "é".repeat(51);
    assert!(validate_requirement_id(&id).is_err());
    let id = "é".repeat(50);
    assert!(validate_requirement_id(&id).is_ok());
}

#[test]
fn request_checks_come_in_order() {
    let mut request = ScanRequest::default();
    request.path = "/non/existent/path".to_string();
    match request.validate_with_path_status(false) {
        Err(SddNavigatorError::PathNotFound(p)) => assert_eq!(p, "/non/existent/path"),
        other => panic!("unexpected {:?}", other),
    }
    assert!(request.validate_with_path_status(true).is_ok());
    request.file_patterns.push(String::new());
    match request.validate_with_path_status(true) {
        Err(SddNavigatorError::Config(m)) => assert_eq!(m, "File patterns cannot be empty"),
        other => panic!("unexpected {:?}", other),
    }
    request.file_patterns.clear();
    match request.validate_with_path_status(true) {
        Err(SddNavigatorError::Config(m)) => {
            assert_eq!(m, "At least one file pattern must be specified")
        }
        other => panic!("unexpected {:?}", other),
    }
}

#[test]
fn default_request_is_as_documented() {
    let r = ScanRequest::default();
    assert_eq!(r.path, ".");
    assert_eq!(
        r.file_patterns,
        vec!["*.rs", "*.js", "*.ts", "*.java", "*.py", "*.cpp", "*.c", "*.h"]
    );
    assert!(r.include_tests);
    assert!(r.recursive);
}

#[test]
fn file_properties_are_checked() {
    match validate_file_properties("a.rs", false, false, 0) {
        Err(SddNavigatorError::PathNotFound(p)) => assert_eq!(p, "a.rs"),
        other => panic!("unexpected {:?}", other),
    }
    match validate_file_properties("a.rs", true, false, 0) {
        Err(SddNavigatorError::Scan(m)) => assert_eq!(m, "Path must be a file"),
        other => panic!("unexpected {:?}", other),
    }
    assert!(validate_file_properties("a.rs", true, true, 51 * 1024 * 1024 - 1).is_ok());
    match validate_file_properties("a.rs", true, true, 51 * 1024 * 1024) {
        Err(SddNavigatorError::Scan(m)) => assert_eq!(m, "File too large: 51MB (max 50MB)"),
        other => panic!("unexpected {:?}", other),
    }
}
