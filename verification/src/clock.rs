//! The wall clock.
use vstd::prelude::*;

verus! {

/// Calls `chrono::Utc::now()` and takes its `timestamp()`: the current time in
/// whole seconds since the Unix epoch. The value depends on when it is asked
/// for; all that is claimed is that it is not before the epoch.
#[verifier::external_body]
pub(crate) fn now_timestamp() -> (now: i64)
    ensures
        now >= 0,
{
    chrono::Utc::now().timestamp()
}

} // verus!
