//! NTP timestamps and signed durations in 64-bit fixed-point format
//! (32 integer bits, 32 fractional bits; one raw unit is 2^-32 seconds).

use vstd::prelude::*;

verus! {

/// Signed division truncating towards zero, the rounding `/` performs on
/// signed machine integers.
pub open spec fn trunc_div(a: int, d: int) -> int
    recommends
        d > 0,
{
    if a >= 0 {
        a / d
    } else {
        -((-a) / d)
    }
}

/// `x` clamped into the value range of `i64`.
pub open spec fn clamp_i64(x: int) -> int {
    if x > i64::MAX {
        i64::MAX as int
    } else if x < i64::MIN {
        i64::MIN as int
    } else {
        x
    }
}

/// `x` clamped into the value range of `u64`.
pub open spec fn clamp_u64(x: int) -> int {
    if x > u64::MAX {
        u64::MAX as int
    } else if x < 0 {
        0
    } else {
        x
    }
}

/// A signed span of time. One raw unit is 2^-32 seconds.
#[derive(Clone, Copy, Debug, PartialEq, Eq, PartialOrd, Ord, Hash, Structural)]
pub struct NtpDuration {
    pub raw: i64,
}

/// A point in NTP time. One raw unit is 2^-32 seconds.
#[derive(Clone, Copy, Debug, PartialEq, Eq, PartialOrd, Ord, Hash, Structural)]
pub struct NtpTimestamp {
    pub raw: u64,
}

impl NtpDuration {
    /// The duration with the given raw fixed-point representation.
    pub fn from_fixed_int(raw: i64) -> (r: NtpDuration)
        ensures
            r.raw == raw,
    {
        NtpDuration { raw }
    }

    /// The zero duration.
    pub fn zero() -> (r: NtpDuration)
        ensures
            r.raw == 0,
    {
        NtpDuration { raw: 0 }
    }

    /// Exactly one second.
    pub fn one() -> (r: NtpDuration)
        ensures
            r.raw == 0x1_0000_0000,
    {
        NtpDuration { raw: 0x1_0000_0000 }
    }

    /// Lower bound used for the delay term of the root distance,
    /// about five milliseconds.
    pub fn min_dispersion() -> (r: NtpDuration)
        ensures
            r.raw == 21474836,
    {
        NtpDuration { raw: 21474836 }
    }

    /// Exact sum of two durations.
    pub fn plus(self, other: NtpDuration) -> (r: NtpDuration)
        requires
            i64::MIN <= self.raw + other.raw <= i64::MAX,
        ensures
            r.raw == self.raw + other.raw,
    {
        NtpDuration { raw: self.raw + other.raw }
    }

    /// Sum of two durations, clamped at the representation limits.
    pub fn saturating_plus(self, other: NtpDuration) -> (r: NtpDuration)
        ensures
            r.raw == clamp_i64(self.raw + other.raw),
    {
        let wide: i128 = self.raw as i128 + other.raw as i128;
        if wide > i64::MAX as i128 {
            NtpDuration { raw: i64::MAX }
        } else if wide < i64::MIN as i128 {
            NtpDuration { raw: i64::MIN }
        } else {
            NtpDuration { raw: wide as i64 }
        }
    }

    /// Exact difference of two durations.
    pub fn minus(self, other: NtpDuration) -> (r: NtpDuration)
        requires
            i64::MIN <= self.raw - other.raw <= i64::MAX,
        ensures
            r.raw == self.raw - other.raw,
    {
        NtpDuration { raw: self.raw - other.raw }
    }

    /// Exact product with a plain integer factor.
    pub fn times(self, factor: i64) -> (r: NtpDuration)
        requires
            i64::MIN <= self.raw * factor <= i64::MAX,
        ensures
            r.raw == self.raw * factor,
    {
        NtpDuration { raw: self.raw * factor }
    }

    /// Quotient by a positive integer, rounded towards zero.
    pub fn divide(self, divisor: i64) -> (r: NtpDuration)
        requires
            divisor > 0,
            self.raw > i64::MIN,
        ensures
            r.raw == trunc_div(self.raw as int, divisor as int),
    {
        if self.raw >= 0 {
            NtpDuration { raw: ((self.raw as u64) / (divisor as u64)) as i64 }
        } else {
            NtpDuration { raw: -((((-self.raw) as u64) / (divisor as u64)) as i64) }
        }
    }

    /// Absolute value.
    pub fn abs(self) -> (r: NtpDuration)
        requires
            self.raw > i64::MIN,
        ensures
            r.raw == if self.raw >= 0 { self.raw as int } else { -self.raw as int },
    {
        if self.raw >= 0 {
            self
        } else {
            NtpDuration { raw: -self.raw }
        }
    }

    /// The larger of two durations.
    pub fn max_of(self, other: NtpDuration) -> (r: NtpDuration)
        ensures
            r.raw == if self.raw >= other.raw { self.raw } else { other.raw },
    {
        if self.raw >= other.raw {
            self
        } else {
            other
        }
    }
}

impl NtpTimestamp {
    /// The timestamp with the given raw fixed-point representation.
    pub fn from_fixed_int(raw: u64) -> (r: NtpTimestamp)
        ensures
            r.raw == raw,
    {
        NtpTimestamp { raw }
    }

    /// The zero timestamp.
    pub fn zero() -> (r: NtpTimestamp)
        ensures
            r.raw == 0,
    {
        NtpTimestamp { raw: 0 }
    }

    /// Exact difference of two time points, as a duration.
    pub fn minus(self, other: NtpTimestamp) -> (r: NtpDuration)
        requires
            i64::MIN <= self.raw - other.raw <= i64::MAX,
        ensures
            r.raw == self.raw - other.raw,
    {
        let wide: i128 = self.raw as i128 - other.raw as i128;
        NtpDuration { raw: wide as i64 }
    }

    /// The time point a duration later, clamped at the representation limits.
    pub fn saturating_plus(self, d: NtpDuration) -> (r: NtpTimestamp)
        ensures
            r.raw == clamp_u64(self.raw + d.raw),
    {
        let wide: i128 = self.raw as i128 + d.raw as i128;
        if wide > u64::MAX as i128 {
            NtpTimestamp { raw: u64::MAX }
        } else if wide < 0 {
            NtpTimestamp { raw: 0 }
        } else {
            NtpTimestamp { raw: wide as u64 }
        }
    }
}

} // verus!
