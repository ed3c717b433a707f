//! Validation of scan requests, requirement ids and files to scan.
use vstd::prelude::*;
use vstd::utf8::encode_utf8;
use crate::models::error::SddNavigatorError;
use crate::models::scan_result::ScanRequest;
use crate::paths::path_exists;
use crate::text::{char_is_alphanumeric, chars_of, copy_str, decimal, decimal_string, is_alphanumeric,
    utf8_longer_than};

verus! {

/// A value that can check itself.
pub trait Validator<T> {
    fn validate(&self) -> Result<(), SddNavigatorError>;
}

/// The outcome `r` is what a request check gives when the request's path
/// does (`path_exists`) or does not exist: the path is checked first, then
/// that there is a file pattern, then that none is empty.
pub open spec fn request_check(
    req: ScanRequest,
    path_exists: bool,
    r: Result<(), SddNavigatorError>,
) -> bool {
    if !path_exists {
        r matches Err(SddNavigatorError::PathNotFound(p)) && p@ == req.path@
    } else if req.file_patterns@.len() == 0 {
        r matches Err(SddNavigatorError::Config(m)) && m@
            == "At least one file pattern must be specified"@
    } else if exists|i: int| 0 <= i < req.file_patterns@.len() && req.file_patterns@[i]@.len() == 0 {
        r matches Err(SddNavigatorError::Config(m)) && m@ == "File patterns cannot be empty"@
    } else {
        r is Ok
    }
}

impl ScanRequest {
    /// Checks the request, given whether its path exists.
    pub fn validate_with_path_status(&self, path_exists: bool) -> (r: Result<(), SddNavigatorError>)
        ensures
            request_check(*self, path_exists, r),
    {
        if !path_exists {
            return Err(SddNavigatorError::PathNotFound(self.path.clone()));
        }
        if self.file_patterns.len() == 0 {
            return Err(
                SddNavigatorError::Config(copy_str("At least one file pattern must be specified")),
            );
        }
        let n = self.file_patterns.len();
        let mut i: usize = 0;
        while i < n
            invariant
                path_exists,
                n == self.file_patterns@.len(),
                i <= n,
                forall|j: int| 0 <= j < i ==> self.file_patterns@[j]@.len() != 0,
            decreases n - i,
        {
            if self.file_patterns[i].as_str().is_empty() {
                assert(self.file_patterns@[i as int]@.len() == 0);
                assert(exists|k: int|
                    0 <= k < self.file_patterns@.len() && self.file_patterns@[k]@.len() == 0);
                return Err(SddNavigatorError::Config(copy_str("File patterns cannot be empty")));
            }
            i = i + 1;
        }
        Ok(())
    }
}

impl Validator<ScanRequest> for ScanRequest {
    /// Checks the request: its path must exist, and it must name at least
    /// one file pattern, none of them empty. Whether the path exists is read
    /// from the disk.
    fn validate(&self) -> (r: Result<(), SddNavigatorError>)
        ensures
            exists|e: bool| request_check(*self, e, r),
    {
        let exists = path_exists(self.path.as_str());
        let r = self.validate_with_path_status(exists);
        assert(request_check(*self, exists, r));
        r
    }
}

/// A character that may stand in a requirement id.
pub open spec fn id_char_ok(c: char) -> bool {
    char_is_alphanumeric(c) || c == '-' || c == '_'
}

/// What is wrong with a requirement id, if anything: it is empty; or it
/// holds a character other than letters, digits, `-` and `_`; or its UTF-8
/// encoding is longer than 100 bytes.
pub open spec fn requirement_id_problem(id: Seq<char>) -> Option<Seq<char>> {
    if id.len() == 0 {
        Some("Requirement ID cannot be empty"@)
    } else if exists|i: int| 0 <= i < id.len() && !id_char_ok(id[i]) {
        Some("Requirement ID can only contain alphanumeric characters, hyphens, and underscores"@)
    } else if encode_utf8(id).len() > 100 {
        Some("Requirement ID too long (max 100 characters)"@)
    } else {
        None
    }
}

/// Checks a requirement id.
pub fn validate_requirement_id(requirement_id: &str) -> (r: Result<(), SddNavigatorError>)
    ensures
        match requirement_id_problem(requirement_id@) {
            None => r is Ok,
            Some(msg) => r matches Err(SddNavigatorError::InvalidAnnotation(m)) && m@ == msg,
        },
{
    let cs = chars_of(requirement_id);
    if cs.len() == 0 {
        return Err(SddNavigatorError::InvalidAnnotation(copy_str("Requirement ID cannot be empty")));
    }
    let mut i: usize = 0;
    while i < cs.len()
        invariant
            cs@ == requirement_id@,
            i <= cs@.len(),
            forall|j: int| 0 <= j < i ==> id_char_ok(cs@[j]),
        decreases cs@.len() - i,
    {
        let c = cs[i];
        if !(is_alphanumeric(c) || c == '-' || c == '_') {
            return Err(
                SddNavigatorError::InvalidAnnotation(
                    copy_str(
                        "Requirement ID can only contain alphanumeric characters, hyphens, and underscores",
                    ),
                ),
            );
        }
        i = i + 1;
    }
    if utf8_longer_than(requirement_id, 100) {
        return Err(
            SddNavigatorError::InvalidAnnotation(
                copy_str("Requirement ID too long (max 100 characters)"),
            ),
        );
    }
    Ok(())
}

/// The outcome `r` is what the check of a file to scan gives: the path must
/// exist, be a file, and be at most 50 MiB (counted in whole MiB, rounded
/// down).
pub open spec fn file_check(
    path: Seq<char>,
    exists: bool,
    is_file: bool,
    size: u64,
    r: Result<(), SddNavigatorError>,
) -> bool {
    if !exists {
        r matches Err(SddNavigatorError::PathNotFound(p)) && p@ == path
    } else if !is_file {
        r matches Err(SddNavigatorError::Scan(m)) && m@ == "Path must be a file"@
    } else if size as nat / 1_048_576nat > 50 {
        r matches Err(SddNavigatorError::Scan(m)) && m@ == "File too large: "@ + decimal(
            size as nat / 1_048_576nat,
        ) + "MB (max 50MB)"@
    } else {
        r is Ok
    }
}

/// Checks a file to scan from what the file system says of it: whether it
/// exists, whether it is a file, and its size in bytes.
pub fn validate_file_properties(path: &str, exists: bool, is_file: bool, size: u64) -> (r: Result<
    (),
    SddNavigatorError,
>)
    ensures
        file_check(path@, exists, is_file, size, r),
{
    if !exists {
        return Err(SddNavigatorError::PathNotFound(copy_str(path)));
    }
    if !is_file {
        return Err(SddNavigatorError::Scan(copy_str("Path must be a file")));
    }
    let file_size_mb = size / (1024 * 1024);
    if file_size_mb > 50 {
        let mut m = copy_str("File too large: ");
        let digits = decimal_string(file_size_mb);
        m.append(digits.as_str());
        m.append("MB (max 50MB)");
        return Err(SddNavigatorError::Scan(m));
    }
    Ok(())
}

} // verus!
