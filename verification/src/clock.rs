//! The engine's view of wall time: an opaque starting instant and a
//! millisecond reading against it. A reading depends on the clock, so
//! nothing is promised of its value; the time manager in `bot` makes its
//! own monotone watermark out of the readings.

use vstd::prelude::*;

verus! {

#[verifier::external_type_specification]
#[verifier::external_body]
pub struct ExInstant(std::time::Instant);

/// Relies on std::time::Instant::now.
#[verifier::external_body]
pub fn instant_now() -> std::time::Instant {
    std::time::Instant::now()
}

/// Relies on std::time::Instant::elapsed and Duration::as_millis: the
/// milliseconds since `start`, truncated to 64 bits.
#[verifier::external_body]
pub fn elapsed_ms(start: &std::time::Instant) -> u64 {
    start.elapsed().as_millis() as u64
}

} // verus!
