//! What the limiter takes from `std::time`: readings of the monotonic clock.
//!
//! No reading is a function of anything the library holds, so nothing is
//! claimed of one; the table's operations are specified for every time.
use std::time::{Duration, Instant};
use vstd::prelude::*;

verus! {

/// `std::time::Instant`, as an opaque type.
#[verifier::external_type_specification]
#[verifier::external_body]
pub struct ExInstant(Instant);

/// `Instant::now` reads the monotonic clock. Nothing is stated of the result.
pub assume_specification[ Instant::now ]() -> (reading: Instant)
;

/// `Instant::saturating_duration_since` is the time from `earlier` to
/// `later`, or zero where `earlier` is the later of the two. Nothing is
/// stated of the result.
pub assume_specification[ Instant::saturating_duration_since ](
    later: &Instant,
    earlier: Instant,
) -> (elapsed: Duration)
;

/// `Duration::as_nanos` is the whole duration in nanoseconds. Nothing is
/// stated of the result.
pub assume_specification[ Duration::as_nanos ](duration: &Duration) -> (nanos: u128)
;

} // verus!
