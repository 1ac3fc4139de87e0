//! A monotonic clock, read as whole milliseconds since it was started.
//!
//! Times in this crate are `u64` millisecond counts from the start of a
//! [`Clock`]. Nothing is promised of what the clock reads; the functions
//! that take a time as an argument are the ones with exact contracts.

use std::time::{Duration, Instant};
use vstd::prelude::*;

verus! {

#[verifier::external_type_specification]
#[verifier::external_body]
pub struct ExInstant(Instant);

/// `Instant::now`: the current instant of the monotonic clock. Nothing is
/// claimed of it.
#[verifier::external_body]
fn instant_now() -> Instant {
    Instant::now()
}

/// `Instant::elapsed`: the time since `i`. The instant is opaque here, so
/// nothing is claimed of the duration.
#[verifier::external_body]
fn instant_elapsed(i: &Instant) -> Duration {
    i.elapsed()
}

/// `Duration::as_millis`: the whole milliseconds of a duration. The
/// duration is opaque here, so nothing is claimed of the count.
#[verifier::external_body]
fn duration_as_millis(d: &Duration) -> u128 {
    d.as_millis()
}

/// A monotonic clock that counts milliseconds from the instant it was
/// started.
#[derive(Debug, Clone, Copy)]
pub struct Clock {
    origin: Instant,
}

impl Clock {
    /// Starts a clock now.
    pub fn start() -> Clock {
        Clock { origin: instant_now() }
    }

    /// The whole milliseconds since the clock was started, held at
    /// `u64::MAX` past what 64 bits hold.
    pub fn millis(&self) -> u64 {
        let elapsed = instant_elapsed(&self.origin);
        let ms = duration_as_millis(&elapsed);
        if ms > u64::MAX as u128 {
            u64::MAX
        } else {
            ms as u64
        }
    }
}

} // verus!
