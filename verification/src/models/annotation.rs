//! Requirement annotations found in source files, and the pattern that
//! finds them.
use vstd::prelude::*;
use crate::clock::{is_v4_id, new_id, now, Timestamp};
use crate::text::copy_str;

verus! {

/// One `@req(..)` annotation found in a source file.
#[derive(Debug, Clone)]
pub struct RequirementAnnotation {
    pub id: u128,
    pub requirement_id: String,
    pub file_path: String,
    /// 1-based line number.
    pub line_number: usize,
    /// The whole line that holds the annotation.
    pub content: String,
    /// The lines around the annotation, as `extract_context` renders them.
    pub context: Option<String>,
    pub created_at: Timestamp,
}

impl RequirementAnnotation {
    /// A new annotation with a fresh random id, stamped with the current
    /// time.
    pub fn new(
        requirement_id: String,
        file_path: String,
        line_number: usize,
        content: String,
        context: Option<String>,
    ) -> (r: Self)
        ensures
            r.requirement_id == requirement_id,
            r.file_path == file_path,
            r.line_number == line_number,
            r.content == content,
            r.context == context,
            is_v4_id(r.id),
            0 <= r.created_at.seconds,
            r.created_at.nanos < 1_000_000_000,
    {
        RequirementAnnotation {
            id: new_id(),
            requirement_id,
            file_path,
            line_number,
            content,
            context,
            created_at: now(),
        }
    }
}

/// A regular expression whose first capture group is the requirement id,
/// with a description for people.
#[derive(Debug, Clone)]
pub struct AnnotationPattern {
    pub pattern: String,
    pub description: String,
}

/// The default pattern: `@req(<id>)`.
pub open spec fn default_pattern_text() -> Seq<char> {
    "@req\\(([^)]+)\\)"@
}

impl Default for AnnotationPattern {
    fn default() -> (r: Self)
        ensures
            r.pattern@ == default_pattern_text(),
            r.description@ == "Matches @req(requirement_id) annotations"@,
    {
        AnnotationPattern {
            pattern: copy_str("@req\\(([^)]+)\\)"),
            description: copy_str("Matches @req(requirement_id) annotations"),
        }
    }
}

} // verus!
