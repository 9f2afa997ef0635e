//! Wall-clock readings for deadline enforcement. The clock is outside the
//! library's control: every reading is opaque, and the engine's guarantees
//! hold whatever values come back.

use vstd::prelude::*;

verus! {

#[verifier::external_type_specification]
#[verifier::external_body]
pub struct ExInstant(std::time::Instant);

/// Relies on `std::time::Instant::now`: an opaque reading of the monotonic
/// clock, taken when a run starts.
#[verifier::external_body]
pub(crate) fn clock_now() -> std::time::Instant {
    std::time::Instant::now()
}

/// Relies on `std::time::Instant::elapsed`: the time since `start`, opaque
/// to the library.
#[verifier::external_body]
pub(crate) fn clock_elapsed(start: &std::time::Instant) -> std::time::Duration {
    start.elapsed()
}

/// Relies on `core::time::Duration::as_millis`: the whole milliseconds of
/// `d`.
#[verifier::external_body]
pub(crate) fn duration_millis(d: &std::time::Duration) -> u128 {
    d.as_millis()
}

/// The whole milliseconds on the clock since `start`, saturated to `u64`.
pub(crate) fn elapsed_millis(start: &std::time::Instant) -> u64 {
    let d = clock_elapsed(start);
    let ms = duration_millis(&d);
    if ms > u64::MAX as u128 {
        u64::MAX
    } else {
        ms as u64
    }
}

} // verus!
