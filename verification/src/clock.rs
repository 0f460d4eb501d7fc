//! The wall clock, an outside collaborator. Flow operations that need the
//! current instant read it once here and hand the value to their
//! deterministic `_with` counterparts, which carry the exact contracts.
use vstd::prelude::*;

verus! {

/// Relies on chrono's `Utc::now`: the current Unix timestamp in seconds.
/// Nothing is promised of the value; callers state what holds of every
/// instant. Like the allocator, the call is environmental: chrono aborts
/// if the system clock reads before the Unix epoch.
#[verifier::external_body]
pub fn now_timestamp() -> (t: i64) {
    chrono::Utc::now().timestamp()
}

} // verus!
