//! What the scan endpoints answer once the store has been read.
use vstd::prelude::*;
use crate::clock::{id_string, id_text};
use crate::handlers::error::ApiError;
use crate::models::scan_result::ScanResult;
use crate::text::copy_str;

verus! {

/// The message for a scan id that is not stored.
pub open spec fn scan_not_found_text(scan_id: u128) -> Seq<char> {
    "Scan "@ + id_text(scan_id) + " not found"@
}

/// The "not found" error for the scan `scan_id`.
pub fn scan_not_found(scan_id: u128) -> (r: ApiError)
    ensures
        r matches ApiError::NotFound(m) && m@ == scan_not_found_text(scan_id),
{
    let mut m = copy_str("Scan ");
    let id = id_string(scan_id);
    m.append(id.as_str());
    m.append(" not found");
    ApiError::NotFound(m)
}

/// The answer to a request for the scan `scan_id`, given what the store
/// holds under that id.
pub fn get_scan_outcome(scan_id: u128, stored: Option<&ScanResult>) -> (r: Result<
    &ScanResult,
    ApiError,
>)
    ensures
        match stored {
            Some(s) => r == Ok::<&ScanResult, ApiError>(s),
            None => r matches Err(ApiError::NotFound(m)) && m@ == scan_not_found_text(scan_id),
        },
{
    match stored {
        Some(s) => Ok(s),
        None => Err(scan_not_found(scan_id)),
    }
}

/// The answer to a request to delete the scan `scan_id`, given whether the
/// store held it: 204 (no content), or "not found".
pub fn delete_scan_outcome(scan_id: u128, deleted: bool) -> (r: Result<u16, ApiError>)
    ensures
        deleted ==> r == Ok::<u16, ApiError>(204),
        !deleted ==> (r matches Err(ApiError::NotFound(m)) && m@ == scan_not_found_text(scan_id)),
{
    if deleted {
        Ok(204)
    } else {
        Err(scan_not_found(scan_id))
    }
}

} // verus!
