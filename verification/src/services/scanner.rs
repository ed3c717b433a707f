//! Deciding which files a scan reads, and keeping count while it runs.
use vstd::prelude::*;
use crate::clock::now;
use crate::models::annotation::RequirementAnnotation;
use crate::models::scan_result::{clock_time, ScanRequest, ScanResult, ScanStatus};
use crate::paths::{file_name_of, path_debug, path_debug_text, path_extension, path_file_name};
use crate::services::file_processor::{
    annotation_facts,
    found_annotations,
    supported_extension,
    DefaultFileProcessor,
};
use crate::services::glob_pattern::{compile_glob, glob_compiles, glob_is_match, glob_matches};
use crate::text::{
    contains_seq,
    contains_str,
    copy_str,
    decimal,
    decimal_string,
    ends_with_str,
    has_prefix,
    occurs_at,
    has_suffix,
    starts_with_str,
};

verus! {

/// A file name that marks a test file: it contains `test`, starts with
/// `test_`, or ends with `_test` or `.test`.
pub open spec fn test_file_name(name: Seq<char>) -> bool {
    contains_seq(name, "test"@) || has_prefix(name, "test_"@) || has_suffix(name, "_test"@)
        || has_suffix(name, ".test"@)
}

/// A path to a test file (judged by its final component).
pub open spec fn test_file(path: Seq<char>) -> bool {
    match path_file_name(path) {
        Some(n) => test_file_name(n),
        None => false,
    }
}

/// Whether a file name marks a test file.
pub fn is_test_file_name(name: &str) -> (r: bool)
    ensures
        r == test_file_name(name@),
{
    contains_str(name, "test") || starts_with_str(name, "test_") || ends_with_str(name, "_test")
        || ends_with_str(name, ".test")
}

/// Whether a path names a test file.
pub fn is_test_file(path: &str) -> (r: bool)
    ensures
        r == test_file(path@),
{
    match file_name_of(path) {
        Some(name) => is_test_file_name(name.as_str()),
        None => false,
    }
}

/// Law: a file counts as a test file exactly when its name contains
/// `test`; the other three tests add nothing.
pub proof fn law_test_file_means_name_contains_test(path: Seq<char>)
    ensures
        test_file(path) <==> (path_file_name(path) matches Some(n) && contains_seq(n, "test"@)),
{
    reveal_strlit("test");
    reveal_strlit("test_");
    reveal_strlit("_test");
    reveal_strlit(".test");
    if let Some(n) = path_file_name(path) {
        if has_prefix(n, "test_"@) {
            let s5 = n.subrange(0, 5);
            assert(s5 == "test_"@);
            assert(n.subrange(0, 4) == s5.subrange(0, 4));
            assert(n.subrange(0, 4) =~= "test"@);
            assert(occurs_at(n, "test"@, 0));
        }
        if has_suffix(n, "_test"@) {
            let s5 = n.subrange(n.len() - 5, n.len() as int);
            assert(s5 == "_test"@);
            assert(n.subrange(n.len() - 4, n.len() as int) == s5.subrange(1, 5));
            assert(n.subrange(n.len() - 4, n.len() as int) =~= "test"@);
            assert(occurs_at(n, "test"@, n.len() - 4));
        }
        if has_suffix(n, ".test"@) {
            let s5 = n.subrange(n.len() - 5, n.len() as int);
            assert(s5 == ".test"@);
            assert(n.subrange(n.len() - 4, n.len() as int) == s5.subrange(1, 5));
            assert(n.subrange(n.len() - 4, n.len() as int) =~= "test"@);
            assert(occurs_at(n, "test"@, n.len() - 4));
        }
    }
}

/// A file pattern accepts a file name: a valid glob pattern must match
/// it; an invalid one must occur in it as text.
pub open spec fn pattern_accepts(pattern: Seq<char>, name: Seq<char>) -> bool {
    if glob_compiles(pattern) {
        glob_matches(pattern, name)
    } else {
        contains_seq(name, pattern)
    }
}

/// A path names a source file that the processor reads.
pub open spec fn file_supported(path: Seq<char>) -> bool {
    match path_extension(path) {
        Some(e) => supported_extension(e),
        None => false,
    }
}

/// A scan reads the entry at `path`: it is a file, of a supported kind, not
/// a test file unless tests are included, and its name is accepted by one
/// of the request's file patterns.
pub open spec fn include_file(path: Seq<char>, is_file: bool, req: ScanRequest) -> bool {
    &&& is_file
    &&& file_supported(path)
    &&& (req.include_tests || !test_file(path))
    &&& match path_file_name(path) {
        Some(n) => exists|i: int|
            0 <= i < req.file_patterns@.len() && pattern_accepts(
                #[trigger] req.file_patterns@[i]@,
                n,
            ),
        None => false,
    }
}

/// Law: whether a scan reads an entry depends on the path only through its
/// final component: two paths that end in the same file name, in any
/// directories, are read or skipped alike (the file patterns are matched
/// against the file name, not the whole path).
pub proof fn law_inclusion_depends_only_on_file_name(
    p1: Seq<char>,
    p2: Seq<char>,
    is_file: bool,
    req: ScanRequest,
)
    requires
        path_file_name(p1) == path_file_name(p2),
    ensures
        include_file(p1, is_file, req) == include_file(p2, is_file, req),
{
}

fn accepts(pattern: &str, name: &str) -> (r: bool)
    ensures
        r == pattern_accepts(pattern@, name@),
{
    match compile_glob(pattern) {
        Ok(g) => glob_is_match(&g, name),
        Err(_) => contains_str(name, pattern),
    }
}

/// Scans source trees with a file processor.
pub struct FileSystemScanner {
    file_processor: DefaultFileProcessor,
}

impl FileSystemScanner {
    /// The processor this scanner reads files with.
    pub closed spec fn processor(&self) -> DefaultFileProcessor {
        self.file_processor
    }

    pub fn new(file_processor: DefaultFileProcessor) -> (r: Self)
        ensures
            r.processor() == file_processor,
    {
        FileSystemScanner { file_processor }
    }

    /// The file processor.
    pub fn file_processor(&self) -> (r: &DefaultFileProcessor)
        ensures
            *r == self.processor(),
    {
        &self.file_processor
    }

    /// Whether a scan for `request` reads the directory entry at `path`
    /// (`is_file` tells whether the entry is a regular file).
    pub fn should_include_file(&self, path: &str, is_file: bool, request: &ScanRequest) -> (r:
        bool)
        ensures
            r == include_file(path@, is_file, *request),
    {
        if !is_file {
            return false;
        }
        if !self.file_processor.supports_file(path) {
            return false;
        }
        if !request.include_tests && is_test_file(path) {
            return false;
        }
        match file_name_of(path) {
            Some(name) => {
                let n = request.file_patterns.len();
                let mut i: usize = 0;
                while i < n
                    invariant
                        is_file,
                        file_supported(path@),
                        request.include_tests || !test_file(path@),
                        path_file_name(path@) == Some(name@),
                        n == request.file_patterns@.len(),
                        i <= n,
                        forall|j: int|
                            0 <= j < i ==> !pattern_accepts(
                                #[trigger] request.file_patterns@[j]@,
                                name@,
                            ),
                    decreases n - i,
                {
                    if accepts(request.file_patterns[i].as_str(), name.as_str()) {
                        return true;
                    }
                    i = i + 1;
                }
                false
            },
            None => false,
        }
    }
}

/// The failure message of a scan whose path does not exist, given the
/// path as its `Debug` rendering writes it.
pub open spec fn missing_path_text(rendered: Seq<char>) -> Seq<char> {
    "Path does not exist: "@ + rendered
}

/// The failure message of a scan whose path does not exist, from the
/// path's `Debug` rendering.
pub fn missing_path_message_of(rendered: &str) -> (r: String)
    ensures
        r@ == missing_path_text(rendered@),
{
    let mut m = copy_str("Path does not exist: ");
    m.append(rendered);
    m
}

/// The failure message of a scan of `path` when that path does not exist.
pub fn missing_path_message(path: &str) -> (r: String)
    ensures
        r@ == missing_path_text(path_debug(path@)),
{
    let rendered = path_debug_text(path);
    missing_path_message_of(rendered.as_str())
}

/// The running tally of a scan: the annotations found so far and how many
/// files were read or could not be read.
pub struct ScanProgress {
    pub annotations: Vec<RequirementAnnotation>,
    pub processed_files: u32,
    pub failed_files: u32,
}

/// The summary line of a finished scan.
pub open spec fn scan_summary(processed: nat, found: nat, failed: nat) -> Seq<char> {
    "Processed "@ + decimal(processed) + " files, found "@ + decimal(found) + " annotations, "@
        + decimal(failed) + " files failed"@
}

impl ScanProgress {
    /// Nothing found, nothing read.
    pub fn new() -> (r: Self)
        ensures
            r.annotations@.len() == 0,
            r.processed_files == 0,
            r.failed_files == 0,
    {
        ScanProgress { annotations: Vec::new(), processed_files: 0, failed_files: 0 }
    }

    /// A file was read and held `file_annotations`. The count is a 32-bit
    /// signed number, so it must stay below 2^31 - 1.
    pub fn record_processed(&mut self, file_annotations: Vec<RequirementAnnotation>)
        requires
            old(self).processed_files < 0x7fff_ffff,
        ensures
            final(self).annotations@ == old(self).annotations@ + file_annotations@,
            final(self).processed_files == old(self).processed_files + 1,
            final(self).failed_files == old(self).failed_files,
    {
        let mut more = file_annotations;
        self.annotations.append(&mut more);
        self.processed_files = self.processed_files + 1;
    }

    /// A file could not be read. The count must stay below 2^31 - 1.
    pub fn record_failed(&mut self)
        requires
            old(self).failed_files < 0x7fff_ffff,
        ensures
            final(self).annotations == old(self).annotations,
            final(self).processed_files == old(self).processed_files,
            final(self).failed_files == old(self).failed_files + 1,
    {
        self.failed_files = self.failed_files + 1;
    }

    /// The outcome of reading the file at `file_path`: its text, or `None`
    /// when it could not be read. A file read is processed and its
    /// annotations kept; a file that could not be read is counted as failed.
    /// Tells whether the file was processed.
    pub fn record_file(
        &mut self,
        processor: &DefaultFileProcessor,
        file_path: &str,
        content: Option<&str>,
    ) -> (processed: bool)
        requires
            content is Some ==> old(self).processed_files < 0x7fff_ffff,
            content is None ==> old(self).failed_files < 0x7fff_ffff,
        ensures
            processed == content is Some,
            match content {
                Some(text) => {
                    &&& final(self).processed_files == old(self).processed_files + 1
                    &&& final(self).failed_files == old(self).failed_files
                    &&& final(self).annotations@.len() >= old(self).annotations@.len()
                    &&& final(self).annotations@.subrange(0, old(self).annotations@.len() as int)
                        == old(self).annotations@
                    &&& final(self).annotations@.subrange(
                        old(self).annotations@.len() as int,
                        final(self).annotations@.len() as int,
                    ).map_values(|a: RequirementAnnotation| annotation_facts(a))
                        == found_annotations(processor.source(), text@)
                    &&& forall|k: int|
                        old(self).annotations@.len() <= k < final(self).annotations@.len()
                            ==> #[trigger] final(self).annotations@[k].file_path@ == file_path@
                },
                None => {
                    &&& final(self).processed_files == old(self).processed_files
                    &&& final(self).failed_files == old(self).failed_files + 1
                    &&& final(self).annotations == old(self).annotations
                },
            },
    {
        match content {
            Some(text) => {
                let found = processor.process_file(file_path, text);
                let ghost before = self.annotations@;
                let ghost added = found@;
                self.record_processed(found);
                assert(self.annotations@.subrange(0, before.len() as int) == before);
                assert(self.annotations@.subrange(before.len() as int, self.annotations@.len() as int)
                    == added);
                true
            },
            None => {
                self.record_failed();
                false
            },
        }
    }

    /// Completes `scan` with the annotations found, now, and gives the
    /// summary line.
    pub fn finish(self, scan: &mut ScanResult) -> (summary: String)
        ensures
            final(scan).annotations == self.annotations,
            final(scan).status == ScanStatus::Completed,
            final(scan).completed_at matches Some(t) && clock_time(t),
            final(scan).id == old(scan).id,
            final(scan).scan_path == old(scan).scan_path,
            final(scan).metrics == old(scan).metrics,
            final(scan).started_at == old(scan).started_at,
            final(scan).error_message == old(scan).error_message,
            summary@ == scan_summary(
                self.processed_files as nat,
                self.annotations@.len(),
                self.failed_files as nat,
            ),
    {
        let processed = self.processed_files;
        let failed = self.failed_files;
        scan.annotations = self.annotations;
        let found = scan.annotations.len();
        let mut summary = copy_str("Processed ");
        let p = decimal_string(processed as u64);
        summary.append(p.as_str());
        summary.append(" files, found ");
        let a = decimal_string(found as u64);
        summary.append(a.as_str());
        summary.append(" annotations, ");
        let f = decimal_string(failed as u64);
        summary.append(f.as_str());
        summary.append(" files failed");
        scan.status = ScanStatus::Completed;
        scan.completed_at = Some(now());
        summary
    }
}

} // verus!
