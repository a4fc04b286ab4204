//! Configuration of the synchronization core: system-wide limits and the
//! tuning constants of the filter and steering algorithm.
//!
//! All dimensionless factors, durations in seconds and variances are
//! 32.32 fixed-point scalars.

use vstd::prelude::*;
use crate::fixed::MAX_VALUE;
use crate::time::NtpDuration;

verus! {

/// Bounds on the poll-interval exponent.
#[derive(Clone, Copy, Debug, PartialEq, Eq, Structural)]
pub struct PollIntervalLimits {
    pub min: i8,
    pub max: i8,
}

impl Default for PollIntervalLimits {
    /// Poll between 16 and 1024 seconds.
    fn default() -> (r: PollIntervalLimits)
        ensures
            r.min == 4 && r.max == 10,
    {
        PollIntervalLimits { min: 4, max: 10 }
    }
}

/// A limit on a single clock step, possibly different per direction;
/// `None` means unlimited.
#[derive(Clone, Copy, Debug, PartialEq, Eq, Structural)]
pub struct StepThreshold {
    pub forward: Option<NtpDuration>,
    pub backward: Option<NtpDuration>,
}

/// Whether a step of `d` stays inside the threshold `t`.
pub open spec fn spec_is_within(t: StepThreshold, d: NtpDuration) -> bool {
    if d.raw >= 0 {
        match t.forward {
            Some(f) => d.raw < f.raw,
            None => true,
        }
    } else {
        match t.backward {
            Some(b) => -(d.raw as int) < b.raw,
            None => true,
        }
    }
}

impl StepThreshold {
    /// A threshold that allows any step.
    pub fn unlimited() -> (r: StepThreshold)
        ensures
            r.forward is None && r.backward is None,
    {
        StepThreshold { forward: None, backward: None }
    }

    /// Whether a step of `d` stays inside this threshold.
    pub fn is_within(&self, d: NtpDuration) -> (r: bool)
        requires
            d.raw > i64::MIN,
        ensures
            r == spec_is_within(*self, d),
    {
        if d.raw >= 0 {
            match self.forward {
                Some(f) => d.raw < f.raw,
                None => true,
            }
        } else {
            match self.backward {
                Some(b) => -d.raw < b.raw,
                None => true,
            }
        }
    }
}

/// System-wide configuration of the controller.
#[derive(Clone, Copy, Debug, PartialEq, Eq, Structural)]
pub struct SystemConfig {
    pub poll_limits: PollIntervalLimits,
    pub startup_panic_threshold: StepThreshold,
    pub panic_threshold: StepThreshold,
    pub accumulated_threshold: Option<NtpDuration>,
}

impl Default for SystemConfig {
    /// Unlimited startup steps, a 1000 second panic threshold afterwards,
    /// and no accumulated-step limit.
    fn default() -> (r: SystemConfig)
        ensures
            r == SystemConfig::spec_default(),
    {
        SystemConfig {
            poll_limits: PollIntervalLimits { min: 4, max: 10 },
            startup_panic_threshold: StepThreshold { forward: None, backward: None },
            panic_threshold: StepThreshold {
                forward: Some(NtpDuration { raw: 0xFA_0000_0000i64 }),
                backward: Some(NtpDuration { raw: 0xFA_0000_0000i64 }),
            },
            accumulated_threshold: None,
        }
    }
}

impl SystemConfig {
    /// The configuration `default` returns.
    pub open spec fn spec_default() -> SystemConfig {
        SystemConfig {
            poll_limits: PollIntervalLimits { min: 4, max: 10 },
            startup_panic_threshold: StepThreshold { forward: None, backward: None },
            panic_threshold: StepThreshold {
                forward: Some(NtpDuration { raw: 0xFA_0000_0000i64 }),
                backward: Some(NtpDuration { raw: 0xFA_0000_0000i64 }),
            },
            accumulated_threshold: None,
        }
    }
}

/// Tuning constants of the filter and steering algorithm.
#[derive(Clone, Copy, Debug, PartialEq, Eq, Structural)]
pub struct AlgorithmConfig {
    /// Steer the frequency once the estimated residual exceeds this many
    /// standard deviations.
    pub steer_frequency_threshold: i64,
    /// Fraction of a standard deviation left uncorrected on a frequency
    /// steer.
    pub steer_frequency_leftover: i64,
    /// Steer the offset once the estimate exceeds this many standard
    /// deviations.
    pub steer_offset_threshold: i64,
    /// Fraction of a standard deviation left uncorrected on an offset
    /// steer.
    pub steer_offset_leftover: i64,
    /// Offsets above this are corrected by stepping the clock, smaller
    /// ones by slewing.
    pub jump_threshold: i64,
    /// Largest frequency adjustment a slew may use.
    pub slew_max_frequency_offset: i64,
    /// Shortest duration over which a slew is stretched.
    pub slew_min_duration: i64,
    /// Width multiplier of the per-peer offset intervals during selection.
    pub selection_confidence_k: i64,
    /// Smallest number of agreeing peers that counts as a consensus.
    pub minimum_agreeing_peers: usize,
    /// Offset variance a fresh filter starts from.
    pub initial_offset_variance: i64,
    /// Frequency variance a fresh filter starts from.
    pub initial_frequency_variance: i64,
    /// Variance floor of a single measurement.
    pub base_measurement_variance: i64,
    /// Weight of the squared delay in the measurement variance.
    pub delay_variance_weight: i64,
    /// Frequency random-walk variance accumulated per second.
    pub frequency_walk_variance: i64,
}

impl AlgorithmConfig {
    /// All tuning constants in range: nonnegative, bounded by the scalar
    /// limit, with the divisors and counts at least one.
    pub open spec fn valid(self) -> bool {
        &&& 0 <= self.steer_frequency_threshold <= MAX_VALUE
        &&& 0 <= self.steer_frequency_leftover <= MAX_VALUE
        &&& 0 <= self.steer_offset_threshold <= MAX_VALUE
        &&& 0 <= self.steer_offset_leftover <= MAX_VALUE
        &&& 0 <= self.jump_threshold <= MAX_VALUE
        &&& 1 <= self.slew_max_frequency_offset <= MAX_VALUE
        &&& 1 <= self.slew_min_duration <= MAX_VALUE
        &&& 0 <= self.selection_confidence_k <= MAX_VALUE
        &&& 1 <= self.minimum_agreeing_peers
        &&& 0 <= self.initial_offset_variance <= MAX_VALUE
        &&& 0 <= self.initial_frequency_variance <= MAX_VALUE
        &&& 1 <= self.base_measurement_variance <= MAX_VALUE
        &&& 0 <= self.delay_variance_weight <= MAX_VALUE
        &&& 0 <= self.frequency_walk_variance <= MAX_VALUE
    }

    /// The configuration `default` returns.
    pub open spec fn spec_default() -> AlgorithmConfig {
        AlgorithmConfig {
            steer_frequency_threshold: 0x2_0000_0000i64,
            steer_frequency_leftover: 0x1_0000_0000,
            steer_offset_threshold: 0x2_0000_0000i64,
            steer_offset_leftover: 0x1_0000_0000,
            jump_threshold: 42949673,
            slew_max_frequency_offset: 858993,
            slew_min_duration: 0x64_0000_0000i64,
            selection_confidence_k: 0x3_0000_0000i64,
            minimum_agreeing_peers: 3,
            initial_offset_variance: 0x4000_0000,
            initial_frequency_variance: 4295,
            base_measurement_variance: 4295,
            delay_variance_weight: 0x4000_0000,
            frequency_walk_variance: 43,
        }
    }
}

impl Default for AlgorithmConfig {
    /// Steer at two standard deviations leaving one, jump above ten
    /// milliseconds, slew at up to 200 ppm over at least 100 seconds, and
    /// select with three-sigma intervals among at least three peers.
    fn default() -> (r: AlgorithmConfig)
        ensures
            r == AlgorithmConfig::spec_default(),
            r.valid(),
    {
        AlgorithmConfig {
            steer_frequency_threshold: 0x2_0000_0000i64,
            steer_frequency_leftover: 0x1_0000_0000,
            steer_offset_threshold: 0x2_0000_0000i64,
            steer_offset_leftover: 0x1_0000_0000,
            jump_threshold: 42949673,
            slew_max_frequency_offset: 858993,
            slew_min_duration: 0x64_0000_0000i64,
            selection_confidence_k: 0x3_0000_0000i64,
            minimum_agreeing_peers: 3,
            initial_offset_variance: 0x4000_0000,
            initial_frequency_variance: 4295,
            base_measurement_variance: 4295,
            delay_variance_weight: 0x4000_0000,
            frequency_walk_variance: 43,
        }
    }
}

} // verus!
