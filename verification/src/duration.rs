//! Building `std::time::Duration` values.
use vstd::prelude::*;
use std::time::Duration;

verus! {

/// The duration `Duration::from_secs(secs)` gives.
pub uninterp spec fn secs_duration(secs: u64) -> Duration;

/// The duration `Duration::from_millis(ms)` gives.
pub uninterp spec fn millis_duration(ms: u64) -> Duration;

/// Calls `Duration::from_secs`. Trusted to return the same value for the
/// same argument (it is a pure constructor); nothing is stated of the
/// duration's fields.
#[verifier::external_body]
pub(crate) fn duration_from_secs(secs: u64) -> (d: Duration)
    ensures
        d == secs_duration(secs),
{
    Duration::from_secs(secs)
}

/// Calls `Duration::from_millis`. Trusted to return the same value for the
/// same argument (it is a pure constructor); nothing is stated of the
/// duration's fields.
#[verifier::external_body]
pub(crate) fn duration_from_millis(ms: u64) -> (d: Duration)
    ensures
        d == millis_duration(ms),
{
    Duration::from_millis(ms)
}

} // verus!
