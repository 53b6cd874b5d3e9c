use vstd::prelude::*;
use std::time::{Duration, Instant};

verus! {

#[verifier::external_type_specification]
#[verifier::external_body]
pub struct ExInstant(Instant);

/// Relies on `Instant::now`: a reading of the monotonic clock, used only to
/// time a generation.
pub assume_specification[ Instant::now ]() -> Instant;

/// Relies on `Instant::elapsed`: the time passed since the reading (zero
/// where the clock went backwards). Nothing is promised of its value.
pub assume_specification[ Instant::elapsed ](self_: &Instant) -> Duration;

/// Relies on `Duration::as_millis`: the whole milliseconds of a duration.
/// Nothing is promised of its value.
pub assume_specification[ Duration::as_millis ](self_: &Duration) -> u128;

} // verus!
