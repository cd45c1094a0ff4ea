//! Wall-clock instants, used only for cross-thread telemetry timestamps;
//! nothing in the physics depends on them.

use vstd::prelude::*;

verus! {

#[verifier::external_type_specification]
#[verifier::external_body]
pub struct ExInstant(std::time::Instant);

/// A timer remembering the instant it was started.
pub struct EasyTimer {
    pub timer: std::time::Instant,
}

/// Relies on `std::time::Instant::now` for the current instant; nothing is
/// assumed of the value, which depends on the clock.
#[verifier::external_body]
pub fn get_present() -> std::time::Instant {
    std::time::Instant::now()
}

impl EasyTimer {
    /// A timer started at the present instant.
    pub fn now() -> Self {
        EasyTimer { timer: get_present() }
    }
}

} // verus!
