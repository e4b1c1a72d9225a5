//! Trusted access to the wall clock.  Instants and durations stay opaque;
//! nothing is assumed of them beyond what the verified callers test on the
//! plain values handed back.

use std::time::Duration;
use std::time::Instant;
use vstd::prelude::*;

verus! {

#[verifier::external_type_specification]
#[verifier::external_body]
pub struct ExInstant(Instant);

/// Relies on std::time::Instant::now: the moment of the call.  Nothing is
/// assumed of the value; every caller treats it as opaque.
#[verifier::external_body]
pub fn now() -> Instant {
    Instant::now()
}

/// Relies on std::time::Instant::duration_since: the time from `earlier` to
/// `later`, or zero when `earlier` is the later of the two.
#[verifier::external_body]
pub fn duration_between(later: &Instant, earlier: &Instant) -> Duration {
    later.duration_since(*earlier)
}

/// Relies on std::time::Duration::as_millis: the duration in whole
/// milliseconds.
#[verifier::external_body]
pub fn duration_millis(d: &Duration) -> u128 {
    d.as_millis()
}

/// Relies on std::time::Duration::as_secs: the duration in whole seconds.
#[verifier::external_body]
pub fn duration_secs(d: &Duration) -> u64 {
    d.as_secs()
}

} // verus!
