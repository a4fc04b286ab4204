//! The per-peer Kalman filter: a probabilistic estimate of the pair
//! (offset, frequency) of one remote peer, with its covariance, driven by
//! the measurements the peer's packets yield.

use vstd::prelude::*;
use crate::config::{AlgorithmConfig, PollIntervalLimits};
use crate::fixed::{clamp128, div_floor_128, fadd, fdiv, fmul, fsub, s_add, s_div, s_mul, s_sub,
    clampv, MAX_VALUE};
use crate::matrix::{spec_mat_plus, spec_psd, spec_regularize, Matrix, Vector};
use crate::packet::{NtpHeader, NtpLeapIndicator};
use crate::time::{NtpDuration, NtpTimestamp};

verus! {

/// One measurement for the filter: observed offset and round-trip delay,
/// and the local time it was taken at.
#[derive(Clone, Copy, Debug, PartialEq, Eq, Structural)]
pub struct Measurement {
    pub delay: NtpDuration,
    pub offset: NtpDuration,
    pub localtime: NtpTimestamp,
}

/// Immutable projection of one peer's filter for selection and
/// combination.
#[derive(Clone, Copy, Debug)]
pub struct KalmanSnapshot {
    pub index: u64,
    pub state: Vector,
    pub uncertainty: Matrix,
    pub delay: i64,
    pub peer_uncertainty: NtpDuration,
    pub peer_delay: NtpDuration,
    pub leap_indicator: NtpLeapIndicator,
    pub last_update: NtpTimestamp,
}

impl KalmanSnapshot {
    /// A snapshot fit for combination: positive-semidefinite bounded
    /// uncertainty, bounded scalars, and a known leap status.
    pub open spec fn wf(self) -> bool {
        &&& spec_psd(self.uncertainty)
        &&& mat_bounded(self.uncertainty)
        &&& -MAX_VALUE <= self.state.e0 <= MAX_VALUE
        &&& -MAX_VALUE <= self.state.e1 <= MAX_VALUE
        &&& -MAX_VALUE <= self.delay <= MAX_VALUE
        &&& 0 <= self.peer_uncertainty.raw <= MAX_VALUE
        &&& -MAX_VALUE <= self.peer_delay.raw <= MAX_VALUE
        &&& self.leap_indicator != NtpLeapIndicator::Unknown
    }
}

/// All entries of a matrix inside the scalar range.
pub open spec fn mat_bounded(m: Matrix) -> bool {
    &&& -MAX_VALUE <= m.e00 <= MAX_VALUE
    &&& -MAX_VALUE <= m.e01 <= MAX_VALUE
    &&& -MAX_VALUE <= m.e10 <= MAX_VALUE
    &&& -MAX_VALUE <= m.e11 <= MAX_VALUE
}

/// The filter state of one peer. Until the first accepted measurement the
/// filter is uninitialized and produces no snapshot.
#[derive(Clone, Copy, Debug)]
pub struct PeerState {
    pub initialized: bool,
    pub state: Vector,
    pub uncertainty: Matrix,
    pub delay: i64,
    pub peer_uncertainty: NtpDuration,
    pub peer_delay: NtpDuration,
    pub leap_indicator: NtpLeapIndicator,
    pub last_update: NtpTimestamp,
    pub desired_poll: i8,
}

/// `x` clamped into the scalar range (spec form).
pub open spec fn clamp_raw(x: int) -> int {
    clampv(x)
}

/// `x` clamped into the nonnegative scalar range.
pub open spec fn clamp_nonneg(x: int) -> int {
    if x < 0 {
        0
    } else if x > MAX_VALUE {
        MAX_VALUE as int
    } else {
        x
    }
}

/// The elapsed filter time from `last` to `t`, clamped into the scalar
/// range; zero when `t` is not later.
pub open spec fn spec_elapsed(last: NtpTimestamp, t: NtpTimestamp) -> int {
    if t.raw <= last.raw {
        0
    } else if t.raw - last.raw > MAX_VALUE {
        MAX_VALUE as int
    } else {
        t.raw - last.raw
    }
}

/// The process noise accumulated over `dt`: a random-walk frequency model
/// with variance `dt * c` on the frequency and `dt^3 / 3 * c` on the
/// offset.
pub open spec fn spec_process_noise(dt: int, c: int) -> Matrix
    recommends
        dt >= 0,
        c >= 0,
{
    let cube = s_mul(s_mul(dt, dt), dt);
    Matrix {
        e00: s_mul(cube / 3, c) as i64,
        e01: 0,
        e10: 0,
        e11: s_mul(dt, c) as i64,
    }
}

/// The filter state projected to time `t`: the offset drifts at the
/// estimated frequency, the covariance is propagated through the linear
/// transition and grows by the process noise, and the result is
/// regularized back to a symmetric positive-semidefinite matrix.
pub open spec fn spec_propagate(ps: PeerState, t: NtpTimestamp, algo: AlgorithmConfig) -> PeerState {
    if !ps.initialized || t.raw <= ps.last_update.raw {
        ps
    } else {
        let dt = spec_elapsed(ps.last_update, t);
        let p = ps.uncertainty;
        let moved = Matrix {
            e00: s_add(
                s_add(p.e00 as int, s_mul(dt, p.e01 as int)),
                s_add(s_mul(dt, p.e10 as int), s_mul(s_mul(dt, dt), p.e11 as int)),
            ) as i64,
            e01: s_add(p.e01 as int, s_mul(dt, p.e11 as int)) as i64,
            e10: s_add(p.e10 as int, s_mul(dt, p.e11 as int)) as i64,
            e11: p.e11,
        };
        let noisy = spec_mat_plus(moved, spec_process_noise(dt, algo.frequency_walk_variance as int));
        PeerState {
            state: Vector {
                e0: s_add(ps.state.e0 as int, s_mul(dt, ps.state.e1 as int)) as i64,
                e1: ps.state.e1,
            },
            uncertainty: spec_regularize(noisy),
            last_update: t,
            ..ps
        }
    }
}

/// The variance attributed to one measurement: a configured floor plus a
/// term growing with the squared delay, at least one raw unit.
pub open spec fn spec_measurement_variance(algo: AlgorithmConfig, delay: int) -> int {
    let v = s_add(
        algo.base_measurement_variance as int,
        s_mul(algo.delay_variance_weight as int, s_mul(delay, delay)),
    );
    if v < 1 {
        1
    } else {
        v
    }
}

/// One Kalman measurement update on an initialized, already-projected
/// filter: innovation against the observed offset, gain from the offset
/// variance against the measurement variance, and the covariance shrunk
/// accordingly and regularized.
pub open spec fn spec_absorb(
    ps: PeerState,
    m: Measurement,
    packet: NtpHeader,
    algo: AlgorithmConfig,
) -> PeerState {
    let z = clamp_raw(m.offset.raw as int);
    let d = clamp_raw(m.delay.raw as int);
    let r = spec_measurement_variance(algo, d);
    let p = ps.uncertainty;
    let y = s_sub(z, ps.state.e0 as int);
    let s = {
        let sum = s_add(p.e00 as int, r);
        if sum < 1 {
            1
        } else {
            sum
        }
    };
    let k0 = s_div(p.e00 as int, s);
    let k1 = s_div(p.e10 as int, s);
    let shrunk = Matrix {
        e00: s_sub(p.e00 as int, s_mul(k0, p.e00 as int)) as i64,
        e01: s_sub(p.e01 as int, s_mul(k0, p.e01 as int)) as i64,
        e10: s_sub(p.e10 as int, s_mul(k1, p.e00 as int)) as i64,
        e11: s_sub(p.e11 as int, s_mul(k1, p.e01 as int)) as i64,
    };
    PeerState {
        state: Vector {
            e0: s_add(ps.state.e0 as int, s_mul(k0, y)) as i64,
            e1: s_add(ps.state.e1 as int, s_mul(k1, y)) as i64,
        },
        uncertainty: spec_regularize(shrunk),
        delay: ((ps.delay + d) / 2) as i64,
        peer_uncertainty: NtpDuration { raw: clamp_nonneg(packet.root_dispersion.raw as int) as i64 },
        peer_delay: NtpDuration { raw: clamp_raw(packet.root_delay.raw as int) as i64 },
        leap_indicator: packet.leap,
        ..ps
    }
}

/// The filter a first measurement initializes: the measured offset with a
/// zero frequency estimate, the configured initial variances, and the
/// packet's root data.
pub open spec fn spec_initial(
    ps: PeerState,
    m: Measurement,
    packet: NtpHeader,
    algo: AlgorithmConfig,
) -> PeerState {
    PeerState {
        initialized: true,
        state: Vector { e0: clamp_raw(m.offset.raw as int) as i64, e1: 0 },
        uncertainty: Matrix {
            e00: algo.initial_offset_variance,
            e01: 0,
            e10: 0,
            e11: algo.initial_frequency_variance,
        },
        delay: clamp_raw(m.delay.raw as int) as i64,
        peer_uncertainty: NtpDuration { raw: clamp_nonneg(packet.root_dispersion.raw as int) as i64 },
        peer_delay: NtpDuration { raw: clamp_raw(packet.root_delay.raw as int) as i64 },
        leap_indicator: packet.leap,
        last_update: m.localtime,
        ..ps
    }
}

/// State and result of `update`: a measurement older than the filter time
/// is rejected; the first measurement initializes the filter; any later
/// one projects the filter to the measurement time and absorbs it.
pub open spec fn spec_update(
    ps: PeerState,
    algo: AlgorithmConfig,
    m: Measurement,
    packet: NtpHeader,
) -> (PeerState, bool) {
    if ps.initialized && m.localtime.raw < ps.last_update.raw {
        (ps, false)
    } else if !ps.initialized {
        (spec_initial(ps, m, packet, algo), true)
    } else {
        (spec_absorb(spec_propagate(ps, m.localtime, algo), m, packet, algo), true)
    }
}

/// The filter after the clock was stepped by `change`: the whole frame
/// shifts, so the offset estimate drops by the step.
pub open spec fn spec_offset_steer(ps: PeerState, change: int) -> PeerState {
    if ps.initialized {
        PeerState {
            state: Vector { e0: s_sub(ps.state.e0 as int, change) as i64, e1: ps.state.e1 },
            ..ps
        }
    } else {
        ps
    }
}

/// The filter after the clock frequency changed by `change` at time `t`:
/// the filter is re-anchored at `t` and the frequency estimate drops by
/// the change.
pub open spec fn spec_frequency_steer(
    ps: PeerState,
    t: NtpTimestamp,
    change: int,
    algo: AlgorithmConfig,
) -> PeerState {
    if ps.initialized {
        let moved = spec_propagate(ps, t, algo);
        PeerState {
            state: Vector {
                e0: moved.state.e0,
                e1: s_sub(moved.state.e1 as int, change) as i64,
            },
            ..moved
        }
    } else {
        ps
    }
}

impl PeerState {
    /// A well-formed filter: once initialized, its covariance is symmetric
    /// positive-semidefinite and every scalar is inside the fixed-point
    /// range.
    pub open spec fn wf(self) -> bool {
        self.initialized ==> {
            &&& spec_psd(self.uncertainty)
            &&& mat_bounded(self.uncertainty)
            &&& -MAX_VALUE <= self.state.e0 <= MAX_VALUE
            &&& -MAX_VALUE <= self.state.e1 <= MAX_VALUE
            &&& -MAX_VALUE <= self.delay <= MAX_VALUE
            &&& 0 <= self.peer_uncertainty.raw <= MAX_VALUE
            &&& -MAX_VALUE <= self.peer_delay.raw <= MAX_VALUE
        }
    }

    /// A fresh, uninitialized filter.
    pub fn new() -> (r: PeerState)
        ensures
            r == PeerState::spec_new(),
            r.wf(),
    {
        PeerState {
            initialized: false,
            state: Vector { e0: 0, e1: 0 },
            uncertainty: Matrix { e00: 0, e01: 0, e10: 0, e11: 0 },
            delay: 0,
            peer_uncertainty: NtpDuration { raw: 0 },
            peer_delay: NtpDuration { raw: 0 },
            leap_indicator: NtpLeapIndicator::Unknown,
            last_update: NtpTimestamp { raw: 0 },
            desired_poll: 4,
        }
    }

    /// The filter `new` builds.
    pub open spec fn spec_new() -> PeerState {
        PeerState {
            initialized: false,
            state: Vector { e0: 0, e1: 0 },
            uncertainty: Matrix { e00: 0, e01: 0, e10: 0, e11: 0 },
            delay: 0,
            peer_uncertainty: NtpDuration { raw: 0 },
            peer_delay: NtpDuration { raw: 0 },
            leap_indicator: NtpLeapIndicator::Unknown,
            last_update: NtpTimestamp { raw: 0 },
            desired_poll: 4,
        }
    }

    /// The time the filter state refers to, once it has one.
    pub fn get_filtertime(&self) -> (r: Option<NtpTimestamp>)
        ensures
            r == if self.initialized {
                Some(self.last_update)
            } else {
                None::<NtpTimestamp>
            },
    {
        if self.initialized {
            Some(self.last_update)
        } else {
            None
        }
    }

    /// The poll interval this peer would like, clamped to the system
    /// limits.
    pub fn get_desired_poll(&self, limits: &PollIntervalLimits) -> (r: i8)
        ensures
            r == clamp_poll(self.desired_poll as int, *limits),
    {
        if self.desired_poll < limits.min {
            limits.min
        } else if self.desired_poll > limits.max {
            limits.max
        } else {
            self.desired_poll
        }
    }

    /// Advance the filter to time `t`.
    pub fn progress_filtertime(&mut self, t: NtpTimestamp, algo: &AlgorithmConfig)
        requires
            old(self).wf(),
            algo.valid(),
        ensures
            *final(self) == spec_propagate(*old(self), t, *algo),
            final(self).wf(),
    {
        if !self.initialized || t.raw <= self.last_update.raw {
            return ;
        }
        let dt = elapsed(self.last_update, t);
        let p = self.uncertainty;
        let moved = Matrix {
            e00: fadd(fadd(p.e00, fmul(dt, p.e01)), fadd(fmul(dt, p.e10), fmul(fmul(dt, dt), p.e11))),
            e01: fadd(p.e01, fmul(dt, p.e11)),
            e10: fadd(p.e10, fmul(dt, p.e11)),
            e11: p.e11,
        };
        let noise = process_noise(dt, algo.frequency_walk_variance);
        let noisy = moved.plus(noise);
        self.state = Vector { e0: fadd(self.state.e0, fmul(dt, self.state.e1)), e1: self.state.e1 };
        self.uncertainty = noisy.regularize();
        self.last_update = t;
        proof {
            lemma_regularize_bounded_entries(noisy);
        }
    }

    /// Absorb one measurement, initializing the filter if this is the
    /// first. Returns whether the measurement was accepted.
    #[verifier::rlimit(30)]
    pub fn update(
        &mut self,
        algo: &AlgorithmConfig,
        measurement: Measurement,
        packet: NtpHeader,
    ) -> (r: bool)
        requires
            old(self).wf(),
            algo.valid(),
        ensures
            ((*final(self), r) === spec_update(*old(self), *algo, measurement, packet)),
            final(self).wf(),
    {
        if self.initialized && measurement.localtime.raw < self.last_update.raw {
            return false;
        }
        if !self.initialized {
            self.initialized = true;
            self.state = Vector { e0: clamp128(measurement.offset.raw as i128), e1: 0 };
            self.uncertainty = Matrix {
                e00: algo.initial_offset_variance,
                e01: 0,
                e10: 0,
                e11: algo.initial_frequency_variance,
            };
            self.delay = clamp128(measurement.delay.raw as i128);
            self.peer_uncertainty = NtpDuration {
                raw: clamp_nonneg_exec(packet.root_dispersion.raw),
            };
            self.peer_delay = NtpDuration { raw: clamp128(packet.root_delay.raw as i128) };
            self.leap_indicator = packet.leap;
            self.last_update = measurement.localtime;
            proof {
                assert((algo.initial_offset_variance as int) * (algo.initial_frequency_variance
                    as int) >= 0) by (nonlinear_arith)
                    requires
                        algo.initial_offset_variance as int >= 0,
                        algo.initial_frequency_variance as int >= 0,
                ;
                assert(self.wf());
            }
            return true;
        }
        self.progress_filtertime(measurement.localtime, algo);

        let z = clamp128(measurement.offset.raw as i128);
        let d = clamp128(measurement.delay.raw as i128);
        let r = measurement_variance(algo, d);
        let p = self.uncertainty;
        let y = fsub(z, self.state.e0);
        let s = {
            let sum = fadd(p.e00, r);
            if sum < 1 {
                1
            } else {
                sum
            }
        };
        let k0 = fdiv(p.e00, s);
        let k1 = fdiv(p.e10, s);
        let shrunk = Matrix {
            e00: fsub(p.e00, fmul(k0, p.e00)),
            e01: fsub(p.e01, fmul(k0, p.e01)),
            e10: fsub(p.e10, fmul(k1, p.e00)),
            e11: fsub(p.e11, fmul(k1, p.e01)),
        };
        self.state = Vector { e0: fadd(self.state.e0, fmul(k0, y)), e1: fadd(self.state.e1, fmul(k1, y)) };
        self.uncertainty = shrunk.regularize();
        self.delay = div_floor_128(self.delay as i128 + d as i128, 2) as i64;
        self.peer_uncertainty = NtpDuration { raw: clamp_nonneg_exec(packet.root_dispersion.raw) };
        self.peer_delay = NtpDuration { raw: clamp128(packet.root_delay.raw as i128) };
        self.leap_indicator = packet.leap;
        proof {
            lemma_regularize_bounded_entries(shrunk);
            assert(self.wf());
        }
        true
    }

    /// The controller stepped the clock by `change`: shift the offset
    /// estimate down by the same amount.
    pub fn process_offset_steering(&mut self, change: i64)
        requires
            old(self).wf(),
        ensures
            *final(self) == spec_offset_steer(*old(self), change as int),
            final(self).wf(),
    {
        if self.initialized {
            self.state = Vector { e0: fsub(self.state.e0, change), e1: self.state.e1 };
        }
    }

    /// The controller changed the clock frequency by `change` at time `t`:
    /// re-anchor the filter there and shift the frequency estimate down.
    pub fn process_frequency_steering(
        &mut self,
        t: NtpTimestamp,
        change: i64,
        algo: &AlgorithmConfig,
    )
        requires
            old(self).wf(),
            algo.valid(),
        ensures
            *final(self) == spec_frequency_steer(*old(self), t, change as int, *algo),
            final(self).wf(),
    {
        if self.initialized {
            self.progress_filtertime(t, algo);
            self.state = Vector { e0: self.state.e0, e1: fsub(self.state.e1, change) };
        }
    }

    /// The snapshot this peer contributes to selection, if its filter is
    /// initialized and its leap status known.
    pub fn snapshot(&self, index: u64) -> (r: Option<KalmanSnapshot>)
        requires
            self.wf(),
        ensures
            r == spec_snapshot(*self, index),
            (r matches Some(s) ==> s.wf()),
    {
        if self.initialized && self.leap_indicator.is_synchronized() {
            Some(
                KalmanSnapshot {
                    index,
                    state: self.state,
                    uncertainty: self.uncertainty,
                    delay: self.delay,
                    peer_uncertainty: self.peer_uncertainty,
                    peer_delay: self.peer_delay,
                    leap_indicator: self.leap_indicator,
                    last_update: self.last_update,
                },
            )
        } else {
            None
        }
    }
}

/// The snapshot `PeerState::snapshot` yields.
pub open spec fn spec_snapshot(ps: PeerState, index: u64) -> Option<KalmanSnapshot> {
    if ps.initialized && ps.leap_indicator != NtpLeapIndicator::Unknown {
        Some(
            KalmanSnapshot {
                index,
                state: ps.state,
                uncertainty: ps.uncertainty,
                delay: ps.delay,
                peer_uncertainty: ps.peer_uncertainty,
                peer_delay: ps.peer_delay,
                leap_indicator: ps.leap_indicator,
                last_update: ps.last_update,
            },
        )
    } else {
        None
    }
}

/// `v` clamped into the poll-interval limits.
pub open spec fn clamp_poll(v: int, limits: PollIntervalLimits) -> int {
    if v < limits.min {
        limits.min as int
    } else if v > limits.max {
        limits.max as int
    } else {
        v
    }
}

/// Elapsed filter time, as executable code.
fn elapsed(last: NtpTimestamp, t: NtpTimestamp) -> (r: i64)
    ensures
        r == spec_elapsed(last, t),
        0 <= r <= MAX_VALUE,
{
    if t.raw <= last.raw {
        0
    } else {
        let diff = t.raw - last.raw;
        if diff > MAX_VALUE as u64 {
            MAX_VALUE
        } else {
            diff as i64
        }
    }
}

/// `x` clamped into the nonnegative scalar range, as executable code.
fn clamp_nonneg_exec(x: i64) -> (r: i64)
    ensures
        r == clamp_nonneg(x as int),
{
    if x < 0 {
        0
    } else if x > MAX_VALUE {
        MAX_VALUE
    } else {
        x
    }
}

/// Process-noise matrix, as executable code.
fn process_noise(dt: i64, c: i64) -> (r: Matrix)
    requires
        0 <= dt,
        0 <= c,
    ensures
        r == spec_process_noise(dt as int, c as int),
{
    let cube = fmul(fmul(dt, dt), dt);
    let third = div_floor_128(cube as i128, 3) as i64;
    Matrix { e00: fmul(third, c), e01: 0, e10: 0, e11: fmul(dt, c) }
}

/// Measurement variance, as executable code.
fn measurement_variance(algo: &AlgorithmConfig, delay: i64) -> (r: i64)
    requires
        algo.valid(),
    ensures
        r == spec_measurement_variance(*algo, delay as int),
        r >= 1,
{
    let v = fadd(algo.base_measurement_variance, fmul(algo.delay_variance_weight, fmul(delay, delay)));
    if v < 1 {
        1
    } else {
        v
    }
}

/// The entries a regularization produces stay inside the scalar range
/// whenever its input entries do.
pub proof fn lemma_regularize_bounded_entries(m: Matrix)
    requires
        -MAX_VALUE <= m.e00 <= MAX_VALUE,
        -MAX_VALUE <= m.e11 <= MAX_VALUE,
    ensures
        mat_bounded(spec_regularize(m)),
{
    let r = spec_regularize(m);
    let a = if m.e00 < 0 {
        0
    } else {
        m.e00 as int
    };
    let c = if m.e11 < 0 {
        0
    } else {
        m.e11 as int
    };
    let limit = crate::fixed::s_isqrt((a * c) as nat) as int;
    crate::fixed::lemma_s_isqrt_bounds((a * c) as nat);
    assert(a * c <= MAX_VALUE * MAX_VALUE) by (nonlinear_arith)
        requires
            0 <= a <= MAX_VALUE,
            0 <= c <= MAX_VALUE,
    ;
    if limit > MAX_VALUE {
        assert(limit * limit > MAX_VALUE * MAX_VALUE) by (nonlinear_arith)
            requires
                limit > MAX_VALUE,
                MAX_VALUE > 0,
        ;
    }
}

} // verus!
