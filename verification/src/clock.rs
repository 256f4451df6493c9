//! The monotonic clock of the standard library, as far as the store needs it.
//!
//! Nothing is claimed about what the clock reads: the store is proved correct
//! for every number of seconds that a measurement may return.

use vstd::prelude::*;
use std::time::{Duration, Instant};

verus! {

/// `std::time::Instant`: a point on the monotonic clock. Its inside is not
/// looked at; the store only keeps one and asks how long ago it was.
#[verifier::external_type_specification]
#[verifier::external_body]
pub struct ExInstant(Instant);

/// `Instant::now` reads the clock. Nothing is assumed about the instant it
/// returns.
pub assume_specification[ Instant::now ]() -> (now: Instant);

/// `Instant::elapsed` measures the time from an instant to now. Nothing is
/// assumed about the length of the time it returns.
pub assume_specification[ Instant::elapsed ](start: &Instant) -> (time: Duration);

/// `Duration::as_secs` gives the whole seconds of a length of time, the
/// fraction dropped. Nothing is assumed about the number.
pub assume_specification[ Duration::as_secs ](time: &Duration) -> (seconds: u64);

} // verus!
