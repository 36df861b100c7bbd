//! The monotonic clock.
use vstd::prelude::*;

verus! {

/// Microseconds since start-up, as `embassy_time::Instant::now()` reads them
/// from the time driver and `Instant::as_micros` converts them.
///
/// Nothing is claimed of the reading: to the proofs, two readings may differ
/// in any way.
#[verifier::external_body]
pub(crate) fn uptime_micros() -> (micros: u64) {
    embassy_time::Instant::now().as_micros()
}

} // verus!
