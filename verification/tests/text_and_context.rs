use sdd_navigator_service::services::file_processor::extract_context;
use sdd_navigator_service::text::{
    contains_str, decimal_string, ends_with_str, join_strings, split_lines, starts_with_str,
};

#[test]
fn decimal_numbers() {
    assert_eq!(decimal_string(0), "0");
    assert_eq!(decimal_string(7), "7");
    assert_eq!(decimal_string(10), "10");
    assert_eq!(decimal_string(1234567890), "1234567890");
    assert_eq!(decimal_string(u64::MAX), u64::MAX.to_string());
}

#[test]
fn lines_split_like_std() {
    for text in ["", "a", "a\n", "a\nb", "a\r\nb\r\n", "\n\n", "x\r", "a\rb\nc", "\r\n", "one\ntwo\nthree"] {
        let expected: Vec<String> = text.lines().map(|l| l.to_string()).collect();
        assert_eq!(split_lines(text), expected, "text {:?}", text);
    }
}

#[test]
fn join_with_separator() {
    let parts = vec!["a".to_string(), "b".to_string(), "c".to_string()];
    assert_eq!(join_strings(&parts, "\n"), "a\nb\nc");
    assert_eq!(join_strings(&Vec::new(), ","), "");
    assert_eq!(join_strings(&vec!["x".to_string()], ","), "x");
}

#[test]
fn substring_tests() {
    assert!(contains_str("my_test_file.rs", "test"));
    assert!(contains_str("abc", ""));
    assert!(!contains_str("ab", "abc"));
    assert!(starts_with_str("test_x", "test_"));
    assert!(!starts_with_str("tes", "test_"));
    assert!(ends_with_str("x_test", "_test"));
    assert!(!ends_with_str("x_tests", "_test"));
}

#[test]
fn context_marks_the_annotated_line() {
    let content = "l1\nl2\nl3\nl4\nl5\nl6";
    assert_eq!(
        extract_context(content, 2),
        "    1 | l1\n    2 | l2\n>>> 3 | l3\n    4 | l4\n    5 | l5"
    );
    assert_eq!(extract_context(content, 0), ">>> 1 | l1\n    2 | l2\n    3 | l3");
    assert_eq!(extract_context(content, 5), "    4 | l4\n    5 | l5\n>>> 6 | l6");
    assert_eq!(extract_context("only", 0), ">>> 1 | only");
}

#[test]
fn context_past_the_end() {
    // Two lines past the end still yields the last lines, unmarked.
    assert_eq!(extract_context("a\nb", 3), "    2 | b");
    assert_eq!(extract_context("a\nb", 4), "");
}
