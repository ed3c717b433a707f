use sdd_navigator_service::models::annotation::AnnotationPattern;
use sdd_navigator_service::models::error::SddNavigatorError;
use sdd_navigator_service::services::file_processor::{annotations_of_line, DefaultFileProcessor};

fn processor() -> DefaultFileProcessor {
    DefaultFileProcessor::new(AnnotationPattern::default()).unwrap()
}

#[test]
fn default_pattern_is_the_req_annotation() {
    let p = AnnotationPattern::default();
    assert_eq!(p.pattern, r"@req\(([^)]+)\)");
    assert_eq!(p.description, "Matches @req(requirement_id) annotations");
}

#[test]
fn annotations_are_found_line_by_line() {
    let content = "fn a() {}\n// @req(REQ-001) first\nfn b() {} // @req(REQ-002) and @req(REQ-003)\n";
    let found = processor().process_file("src/lib.rs", content);
    let ids: Vec<&str> = found.iter().map(|a| a.requirement_id.as_str()).collect();
    assert_eq!(ids, vec!["REQ-001", "REQ-002", "REQ-003"]);
    assert_eq!(found[0].line_number, 2);
    assert_eq!(found[1].line_number, 3);
    assert_eq!(found[2].line_number, 3);
    assert_eq!(found[0].content, "// @req(REQ-001) first");
    assert_eq!(found[0].file_path, "src/lib.rs");
    assert_eq!(
        found[0].context.as_deref(),
        Some("    1 | fn a() {}\n>>> 2 | // @req(REQ-001) first\n    3 | fn b() {} // @req(REQ-002) and @req(REQ-003)")
    );
    assert_ne!(found[1].id, found[2].id);
}

#[test]
fn nothing_found_in_plain_text() {
    assert!(processor().process_file("a.rs", "no annotations here\n@req() empty").is_empty());
    assert!(processor().process_file("a.rs", "").is_empty());
}

#[test]
fn invalid_pattern_is_a_regex_error() {
    let p = AnnotationPattern { pattern: "foo(bar".to_string(), description: String::new() };
    match DefaultFileProcessor::new(p) {
        Err(SddNavigatorError::Regex(m)) => assert!(!m.is_empty()),
        Err(e) => panic!("unexpected {:?}", e),
        Ok(_) => panic!("accepted an invalid pattern"),
    }
}

#[test]
fn custom_pattern_first_group() {
    let p = AnnotationPattern { pattern: r"SPEC:(\w+)".to_string(), description: String::new() };
    let proc = DefaultFileProcessor::new(p).unwrap();
    let found = proc.process_file("x.py", "# SPEC:abc SPEC:def");
    let ids: Vec<&str> = found.iter().map(|a| a.requirement_id.as_str()).collect();
    assert_eq!(ids, vec!["abc", "def"]);
}

#[test]
fn supported_files() {
    let p = processor();
    for ok in ["a.rs", "dir/b.js", "c.ts", "D.java", "e.py", "f.cpp", "g.c", "h.h", "i.hpp", "j.cc", "k.cxx"] {
        assert!(p.supports_file(ok), "{}", ok);
    }
    for no in ["a.txt", "Makefile", ".rs", "a.RS", "dir.rs/", "a.rs.bak", ".."] {
        assert_eq!(p.supports_file(no), std::path::Path::new(no).extension().map_or(false, |e| e == "rs"), "{}", no);
    }
}

#[test]
fn annotations_of_a_line_from_its_groups() {
    let lines = vec!["a".to_string(), "x @req(R1) y".to_string(), "b".to_string(), "c".to_string()];
    let groups = vec![Some("R1".to_string()), None, Some("R2".to_string())];
    let found = annotations_of_line("f.rs", &lines, 1, &groups);
    assert_eq!(found.len(), 2);
    assert_eq!(found[0].requirement_id, "R1");
    assert_eq!(found[1].requirement_id, "R2");
    assert_eq!(found[0].line_number, 2);
    assert_eq!(found[1].content, "x @req(R1) y");
    assert_eq!(found[1].file_path, "f.rs");
    assert_eq!(
        found[0].context.as_deref(),
        Some("    1 | a\n>>> 2 | x @req(R1) y\n    3 | b\n    4 | c")
    );
    assert!(annotations_of_line("f.rs", &lines, 0, &vec![None]).is_empty());
}
