//! What the health endpoint reports.
use vstd::prelude::*;
use crate::text::copy_str;

verus! {

/// The overall status and the store's status, given whether the store
/// answered a statistics query: "healthy" twice, or "degraded" and
/// "unhealthy".
pub fn health_status(store_answered: bool) -> (r: (String, String))
    ensures
        store_answered ==> r.0@ == "healthy"@ && r.1@ == "healthy"@,
        !store_answered ==> r.0@ == "degraded"@ && r.1@ == "unhealthy"@,
{
    if store_answered {
        (copy_str("healthy"), copy_str("healthy"))
    } else {
        (copy_str("degraded"), copy_str("unhealthy"))
    }
}

} // verus!
