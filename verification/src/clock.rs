//! The abstract system-clock interface the controller steers, and the
//! fatal conditions the caller must act on.

use vstd::prelude::*;
use crate::packet::NtpLeapIndicator;
use crate::time::{NtpDuration, NtpTimestamp};

verus! {

/// A clock operation failed. The controller treats every such failure as
/// fatal and reports it to the caller.
#[derive(Clone, Copy, Debug, PartialEq, Eq, Structural)]
pub struct ClockError;

/// Conditions under which the controller refuses to continue; the caller
/// is expected to terminate the process.
#[derive(Clone, Copy, Debug, PartialEq, Eq, Structural)]
pub enum FatalError {
    /// A system-clock operation failed.
    ClockAccess,
    /// A suggested clock step exceeded a panic threshold.
    StepLimit,
}

/// The operations the controller needs from the system clock. Production
/// code wires this to the operating system; tests provide a deterministic
/// fake.
pub trait NtpClock {
    /// Read the current time.
    fn now(&self) -> Result<NtpTimestamp, ClockError>;

    /// Set the multiplicative frequency correction, a 32.32 fixed-point
    /// residual.
    fn set_frequency(&self, freq: i64) -> Result<(), ClockError>;

    /// Shift the clock instantaneously by `offset`.
    fn step_clock(&self, offset: NtpDuration) -> Result<(), ClockError>;

    /// Report the current error estimate to the clock.
    fn error_estimate_update(&self, dispersion: NtpDuration, delay: NtpDuration) -> Result<
        (),
        ClockError,
    >;

    /// Announce the leap-second status.
    fn status_update(&self, leap: NtpLeapIndicator) -> Result<(), ClockError>;

    /// Make sure no kernel NTP discipline contends with this controller.
    fn disable_ntp_algorithm(&self) -> Result<(), ClockError>;
}

} // verus!
