//! A monotonic stopwatch. The cache and the metrics recorder take their
//! timestamps from it as whole nanoseconds since the stopwatch was started.

use vstd::prelude::*;
use std::time::Instant;

verus! {

/// `std::time::Instant`: a reading of the monotonic clock. The stopwatch
/// keeps one and never looks inside.
#[verifier::external_type_specification]
#[verifier::external_body]
pub struct ExInstant(Instant);

/// A running stopwatch.
#[derive(Clone, Copy, Debug)]
pub struct Stopwatch {
    origin: Instant,
}

impl Stopwatch {
    /// Calls `Instant::now` and keeps the instant as the stopwatch's origin.
    /// Nothing is claimed of the value: it depends on when the call is made.
    #[verifier::external_body]
    pub(crate) fn start() -> Stopwatch {
        Stopwatch { origin: Instant::now() }
    }

    /// Calls `Instant::elapsed` on the origin and converts the duration to
    /// whole nanoseconds. Nothing is claimed of the value: it depends on
    /// when the call is made.
    #[verifier::external_body]
    pub(crate) fn elapsed_nanos(&self) -> u128 {
        self.origin.elapsed().as_nanos()
    }
}

} // verus!
