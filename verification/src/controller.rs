//! The clock controller: owns the peer table and the system clock, drives
//! the selection and combination stages after accepted measurements, and
//! steers the clock by stepping or slewing.
//!
//! Fatal conditions (panic-threshold breaches, clock failures) are
//! reported to the caller as errors; the surrounding daemon terminates
//! the process on them.

use vstd::prelude::*;
use crate::clock::{FatalError, NtpClock};
use crate::combine::{combine, spec_fold_from, spec_inflate, spec_min_delay, spec_quality_pairs,
    spec_sort_by_quality, spec_vote_leap};
use crate::config::{spec_is_within, AlgorithmConfig, SystemConfig};
use crate::filter::{spec_frequency_steer, spec_offset_steer, spec_update, KalmanSnapshot,
    Measurement, PeerState};
use crate::fixed::{clampv, fadd, fdiv, fmul, fsqrt, fsub, s_add, s_isqrt, s_mul, s_sub,
    MAX_VALUE, SCALE};
use crate::packet::{NtpHeader, NtpLeapIndicator};
use crate::matrix::{Matrix, Vector};
use crate::select::{select, spec_selected};
use crate::time::{clamp_i64, clamp_u64, NtpDuration, NtpTimestamp};

verus! {

/// Observable snapshot of the controller's time data.
#[derive(Clone, Copy, Debug, PartialEq, Eq, Structural)]
pub struct TimeSnapshot {
    pub poll_interval: i8,
    pub root_delay: NtpDuration,
    pub root_dispersion: NtpDuration,
    pub accumulated_steps: NtpDuration,
    pub leap_indicator: NtpLeapIndicator,
}

impl Default for TimeSnapshot {
    /// A fresh snapshot: default poll, no delays, no steps, no leap
    /// announced.
    fn default() -> (r: TimeSnapshot)
        ensures
            r == TimeSnapshot::spec_default(),
    {
        TimeSnapshot {
            poll_interval: 4,
            root_delay: NtpDuration { raw: 0 },
            root_dispersion: NtpDuration { raw: 0 },
            accumulated_steps: NtpDuration { raw: 0 },
            leap_indicator: NtpLeapIndicator::NoWarning,
        }
    }
}

impl TimeSnapshot {
    /// The snapshot `default` returns.
    pub open spec fn spec_default() -> TimeSnapshot {
        TimeSnapshot {
            poll_interval: 4,
            root_delay: NtpDuration { raw: 0 },
            root_dispersion: NtpDuration { raw: 0 },
            accumulated_steps: NtpDuration { raw: 0 },
            leap_indicator: NtpLeapIndicator::NoWarning,
        }
    }
}

/// What one controller event reports back to the caller.
#[derive(Clone, Debug)]
pub struct StateUpdate {
    /// The peers used for the last clock update, best first.
    pub used_peers: Option<Vec<u64>>,
    /// The current time data, when it may have changed.
    pub timesnapshot: Option<TimeSnapshot>,
    /// When the controller wants `time_update` to be called.
    pub next_update: Option<NtpTimestamp>,
}

impl Default for StateUpdate {
    /// An update that reports nothing.
    fn default() -> (r: StateUpdate)
        ensures
            (r.used_peers is None) && (r.timesnapshot is None) && (r.next_update is None),
    {
        StateUpdate { used_peers: None, timesnapshot: None, next_update: None }
    }
}

/// Observable per-peer time data.
#[derive(Clone, Copy, Debug, PartialEq, Eq, Structural)]
pub struct ObservablePeerTimedata {
    pub offset: NtpDuration,
    pub uncertainty: NtpDuration,
    pub delay: NtpDuration,
    pub remote_delay: NtpDuration,
    pub remote_uncertainty: NtpDuration,
    pub last_update: NtpTimestamp,
}

/// One row of the controller's peer table.
#[derive(Clone, Copy, Debug)]
pub struct PeerEntry {
    pub id: u64,
    pub state: PeerState,
    pub usable: bool,
}

/// The peer table with every row of the given id removed, in order.
pub open spec fn spec_remove_entries(s: Seq<PeerEntry>, id: u64) -> Seq<PeerEntry>
    decreases s.len(),
{
    if s.len() == 0 {
        Seq::empty()
    } else {
        let rest = spec_remove_entries(s.drop_last(), id);
        if s.last().id == id {
            rest
        } else {
            rest.push(s.last())
        }
    }
}

/// The peer table with the usable flag of `id` set to `usable`.
pub open spec fn spec_set_usable(s: Seq<PeerEntry>, id: u64, usable: bool) -> Seq<PeerEntry> {
    s.map_values(
        |e: PeerEntry|
            if e.id == id {
                PeerEntry { usable, ..e }
            } else {
                e
            },
    )
}

/// The peer table after the measurement was fed to the filter of `id`.
pub open spec fn spec_measure_table(
    s: Seq<PeerEntry>,
    id: u64,
    algo: AlgorithmConfig,
    m: Measurement,
    packet: NtpHeader,
) -> Seq<PeerEntry> {
    s.map_values(
        |e: PeerEntry|
            if e.id == id {
                PeerEntry { state: spec_update(e.state, algo, m, packet).0, ..e }
            } else {
                e
            },
    )
}

/// Whether feeding the measurement to `id` should trigger a clock update:
/// the peer exists, is marked usable, and its filter accepted the sample.
pub open spec fn spec_measure_accepted(
    s: Seq<PeerEntry>,
    id: u64,
    algo: AlgorithmConfig,
    m: Measurement,
    packet: NtpHeader,
) -> bool {
    exists|t: int|
        0 <= t < s.len() && (#[trigger] s[t]).id == id && s[t].usable && spec_update(
            s[t].state,
            algo,
            m,
            packet,
        ).1
}

/// Every filter projected to time `t`.
pub open spec fn spec_progress_table(
    s: Seq<PeerEntry>,
    t: NtpTimestamp,
    algo: AlgorithmConfig,
) -> Seq<PeerEntry> {
    s.map_values(
        |e: PeerEntry| PeerEntry { state: crate::filter::spec_propagate(e.state, t, algo), ..e },
    )
}

/// Every filter told that the clock was stepped by `change`.
pub open spec fn spec_offset_steer_table(s: Seq<PeerEntry>, change: int) -> Seq<PeerEntry> {
    s.map_values(|e: PeerEntry| PeerEntry { state: spec_offset_steer(e.state, change), ..e })
}

/// Every filter told that the frequency changed by `change` at time `t`.
pub open spec fn spec_freq_steer_table(
    s: Seq<PeerEntry>,
    t: NtpTimestamp,
    change: int,
    algo: AlgorithmConfig,
) -> Seq<PeerEntry> {
    s.map_values(
        |e: PeerEntry| PeerEntry { state: spec_frequency_steer(e.state, t, change, algo), ..e },
    )
}

/// The smallest desired poll interval over the peer table, or the upper
/// limit when the table is empty.
pub open spec fn spec_min_poll(s: Seq<PeerEntry>, config: SystemConfig) -> int
    decreases s.len(),
{
    if s.len() == 0 {
        config.poll_limits.max as int
    } else {
        let rest = spec_min_poll(s.drop_last(), config);
        let here = crate::filter::clamp_poll(s.last().state.desired_poll as int, config.poll_limits);
        if here < rest {
            here
        } else {
            rest
        }
    }
}

/// The snapshots of the usable peers with an initialized filter and a
/// known leap status, in table order.
pub open spec fn spec_usable_snapshots(s: Seq<PeerEntry>) -> Seq<KalmanSnapshot>
    decreases s.len(),
{
    if s.len() == 0 {
        Seq::empty()
    } else {
        let rest = spec_usable_snapshots(s.drop_last());
        let e = s.last();
        if e.usable {
            match crate::filter::spec_snapshot(e.state, e.id) {
                Some(snap) => rest.push(snap),
                None => rest,
            }
        } else {
            rest
        }
    }
}

/// The selection a clock update at `time` works with: every filter
/// projected to `time`, the usable ones snapshotted, and the selection
/// run over them.
pub open spec fn spec_consensus_selection(
    s: Seq<PeerEntry>,
    time: NtpTimestamp,
    algo: AlgorithmConfig,
) -> Seq<KalmanSnapshot> {
    spec_selected(spec_usable_snapshots(spec_progress_table(s, time, algo)), algo)
}

/// The combined estimate of a nonempty selection: the fold that starts
/// from the first snapshot with its uncertainty inflated.
pub open spec fn spec_combined(sel: Seq<KalmanSnapshot>) -> (Vector, Matrix)
    recommends
        sel.len() > 0,
{
    spec_fold_from(sel, 1, sel[0].state, spec_inflate(sel[0]))
}

/// The standard deviation of a variance entry: the square root of its
/// nonnegative part.
pub open spec fn spec_sigma_of(var: int) -> int {
    s_isqrt(((if var < 0 {
        0
    } else {
        var
    }) * SCALE) as nat) as int
}

/// The frequency adjustment a clock update issues, if any: when the
/// estimated residual against the desired frequency exceeds the
/// threshold, steer it down to the configured leftover.
pub open spec fn spec_freq_steer_amount(
    est: Vector,
    cov: Matrix,
    desired: int,
    algo: AlgorithmConfig,
) -> Option<int> {
    let delta = s_sub(est.e1 as int, desired);
    let sigma = spec_sigma_of(cov.e11 as int);
    let delta_abs = if delta >= 0 {
        delta
    } else {
        -delta
    };
    if delta_abs > s_mul(sigma, algo.steer_frequency_threshold as int) {
        Some(
            if delta >= 0 {
                s_sub(delta, s_mul(sigma, algo.steer_frequency_leftover as int))
            } else {
                s_add(delta, s_mul(sigma, algo.steer_frequency_leftover as int))
            },
        )
    } else {
        None
    }
}

/// The offset correction a clock update issues, if any: when the
/// combined offset exceeds the threshold, correct it down to the
/// configured leftover. The correction is gated elsewhere on no slew
/// being in progress.
pub open spec fn spec_offset_steer_amount(est: Vector, cov: Matrix, algo: AlgorithmConfig) -> Option<
    int,
> {
    let delta = clampv(est.e0 as int);
    let sigma = spec_sigma_of(cov.e00 as int);
    let delta_abs = if delta >= 0 {
        delta
    } else {
        -delta
    };
    if delta_abs > s_mul(sigma, algo.steer_offset_threshold as int) {
        Some(
            if delta >= 0 {
                s_sub(delta, s_mul(sigma, algo.steer_offset_leftover as int))
            } else {
                s_add(delta, s_mul(sigma, algo.steer_offset_leftover as int))
            },
        )
    } else {
        None
    }
}

/// The running frequency correction after a clock update over the
/// combined estimate: composed once for the frequency steer, and once
/// more when an offset steer slews.
pub open spec fn spec_clock_update_freq(
    freq_offset: int,
    desired: int,
    est: Vector,
    cov: Matrix,
    algo: AlgorithmConfig,
) -> int {
    let f1 = match spec_freq_steer_amount(est, cov, desired, algo) {
        Some(a) => spec_compose_frequency(freq_offset, a),
        None => freq_offset,
    };
    if desired == 0 {
        match spec_offset_steer_amount(est, cov, algo) {
            Some(a2) => {
                let a2_abs = if a2 >= 0 {
                    a2
                } else {
                    -a2
                };
                if a2_abs > algo.jump_threshold {
                    f1
                } else {
                    spec_compose_frequency(f1, -spec_slew_desired_freq(algo, a2))
                }
            },
            None => f1,
        }
    } else {
        f1
    }
}

/// No two rows of the peer table carry the same id.
pub open spec fn unique_peer_ids(s: Seq<PeerEntry>) -> bool {
    forall|i: int, j: int| 0 <= i < j < s.len() ==> s[i].id != s[j].id
}

/// Removing an id from a table of unique ids leaves a table of unique
/// ids, none of them the removed one, each row taken from the original.
proof fn lemma_remove_entries_unique(s: Seq<PeerEntry>, id: u64)
    requires
        unique_peer_ids(s),
    ensures
        unique_peer_ids(spec_remove_entries(s, id)),
        forall|t: int|
            0 <= t < spec_remove_entries(s, id).len() ==> (#[trigger] spec_remove_entries(
                s,
                id,
            )[t]).id != id,
        forall|t: int|
            0 <= t < spec_remove_entries(s, id).len() ==> exists|u: int|
                0 <= u < s.len() && #[trigger] spec_remove_entries(s, id)[t] == s[u],
    decreases s.len(),
{
    if s.len() > 0 {
        let d = s.drop_last();
        assert(unique_peer_ids(d));
        lemma_remove_entries_unique(d, id);
        let rest = spec_remove_entries(d, id);
        let res = spec_remove_entries(s, id);
        if s.last().id == id {
            assert(res == rest);
            assert forall|t: int| 0 <= t < res.len() implies exists|u: int|
                0 <= u < s.len() && #[trigger] res[t] == s[u] by {
                let u0 = choose|u: int| 0 <= u < d.len() && #[trigger] rest[t] == d[u];
                assert(res[t] == s[u0]);
            }
        } else {
            assert(res == rest.push(s.last()));
            assert forall|t: int| 0 <= t < res.len() implies exists|u: int|
                0 <= u < s.len() && #[trigger] res[t] == s[u] by {
                if t < res.len() - 1 {
                    let u0 = choose|u: int| 0 <= u < d.len() && #[trigger] rest[t] == d[u];
                    assert(res[t] == s[u0]);
                } else {
                    assert(res[t] == s[s.len() - 1]);
                }
            }
            assert forall|t1: int, t2: int| 0 <= t1 < t2 < res.len() implies res[t1].id
                != res[t2].id by {
                if t2 == res.len() - 1 {
                    let u0 = choose|u: int| 0 <= u < d.len() && #[trigger] rest[t1] == d[u];
                    assert(s[u0].id != s[s.len() - 1].id);
                }
            }
        }
    }
}

/// The first row of the peer table carrying `id`, if any.
pub open spec fn spec_find_peer(s: Seq<PeerEntry>, id: u64) -> Option<PeerState>
    decreases s.len(),
{
    if s.len() == 0 {
        None
    } else if s[0].id == id {
        Some(s[0].state)
    } else {
        spec_find_peer(s.drop_first(), id)
    }
}

/// The observable time data of one peer filter: its offset estimate, the
/// standard deviation of that estimate, and the delays and times it
/// carries; nothing while the filter yields no snapshot.
pub open spec fn spec_observe(ps: PeerState, id: u64) -> Option<ObservablePeerTimedata> {
    match crate::filter::spec_snapshot(ps, id) {
        None => None,
        Some(snap) => Some(
            ObservablePeerTimedata {
                offset: NtpDuration { raw: snap.state.e0 },
                uncertainty: NtpDuration { raw: spec_sigma_of(snap.uncertainty.e00 as int) as i64 },
                delay: NtpDuration { raw: snap.delay },
                remote_delay: snap.peer_delay,
                remote_uncertainty: snap.peer_uncertainty,
                last_update: snap.last_update,
            },
        ),
    }
}

/// The multiplicative composition of two fixed-point frequency
/// adjustments: `(1+a)(1+b) - 1` evaluated as `a + b + ab`, each step
/// rounded and clamped as the scalar arithmetic does.
pub open spec fn spec_compose_frequency(a: int, b: int) -> int {
    s_add(s_add(a, b), s_mul(a, b))
}

/// For adjustments away from the saturation bounds the composed
/// frequency is the exactly floor-rounded fixed-point image of
/// `(1+a)(1+b) - 1`: scaled back up it differs from the true product by
/// less than one raw unit.
pub proof fn lemma_compose_frequency_exact(a: int, b: int)
    requires
        -0x80_0000_0000 <= a <= 0x80_0000_0000,
        -0x80_0000_0000 <= b <= 0x80_0000_0000,
    ensures
        0 <= (0x1_0000_0000 + a) * (0x1_0000_0000 + b) - 0x1_0000_0000 * (0x1_0000_0000
            + spec_compose_frequency(a, b)) < 0x1_0000_0000,
{
    let scale = 0x1_0000_0000;
    let prod = a * b;
    assert(-302231454903657293676544 <= prod <= 302231454903657293676544)
        by (nonlinear_arith)
        requires
            prod == a * b,
            -0x80_0000_0000 <= a <= 0x80_0000_0000,
            -0x80_0000_0000 <= b <= 0x80_0000_0000,
    ;
    let q = prod / scale;
    vstd::arithmetic::div_mod::lemma_fundamental_div_mod(prod, scale);
    vstd::arithmetic::div_mod::lemma_mod_bound(prod, scale);
    vstd::arithmetic::div_mod::lemma_div_is_ordered(
        prod,
        302231454903657293676544,
        scale,
    );
    vstd::arithmetic::div_mod::lemma_div_is_ordered(
        -302231454903657293676544,
        prod,
        scale,
    );
    assert(70368744177664int * 0x1_0000_0000 == 302231454903657293676544)
        by (nonlinear_arith);
    assert(302231454903657293676544int / 0x1_0000_0000 == 70368744177664) by {
        vstd::arithmetic::div_mod::lemma_fundamental_div_mod_converse(
            302231454903657293676544,
            0x1_0000_0000,
            70368744177664,
            0,
        );
    }
    assert((-70368744177664int) * 0x1_0000_0000 == -302231454903657293676544)
        by (nonlinear_arith);
    assert((-302231454903657293676544int) / 0x1_0000_0000 == -70368744177664) by {
        vstd::arithmetic::div_mod::lemma_fundamental_div_mod_converse(
            -302231454903657293676544,
            0x1_0000_0000,
            -70368744177664,
            0,
        );
    }
    assert(prod == scale * q + prod % scale);
    assert(s_mul(a, b) == q);
    assert(spec_compose_frequency(a, b) == a + b + q);
    assert((scale + a) * (scale + b) == scale * scale + scale * a + scale * b + a * b)
        by (nonlinear_arith);
    assert(scale * (scale + (a + b + q)) == scale * scale + scale * a + scale * b + scale * q)
        by (nonlinear_arith);
}

/// The clock controller.
pub struct KalmanClockController<C: NtpClock> {
    pub peers: Vec<PeerEntry>,
    pub clock: C,
    pub config: SystemConfig,
    pub algo_config: AlgorithmConfig,
    pub ignore_before: NtpTimestamp,
    pub freq_offset: i64,
    pub timedata: TimeSnapshot,
    pub desired_freq: i64,
    pub in_startup: bool,
}

/// A system configuration the steering code can work with: announced
/// thresholds are positive and representable.
pub open spec fn config_valid(config: SystemConfig) -> bool {
    &&& (config.accumulated_threshold matches Some(v) ==> 0 < v.raw)
    &&& (config.panic_threshold.forward matches Some(v) ==> v.raw > i64::MIN)
    &&& (config.panic_threshold.backward matches Some(v) ==> v.raw > i64::MIN)
    &&& (config.startup_panic_threshold.forward matches Some(v) ==> v.raw > i64::MIN)
    &&& (config.startup_panic_threshold.backward matches Some(v) ==> v.raw > i64::MIN)
}

/// The time data and verdict of the step check: during startup only the
/// startup threshold is consulted; afterwards the step is accumulated and
/// both the per-step and the cumulative threshold must hold.
pub open spec fn spec_check_offset_steer(
    config: SystemConfig,
    timedata: TimeSnapshot,
    in_startup: bool,
    change: int,
) -> (TimeSnapshot, Result<(), FatalError>) {
    let d = NtpDuration { raw: change as i64 };
    if in_startup {
        if spec_is_within(config.startup_panic_threshold, d) {
            (timedata, Ok(()))
        } else {
            (timedata, Err(FatalError::StepLimit))
        }
    } else {
        let acc = NtpDuration { raw: clamp_i64(timedata.accumulated_steps.raw + change) as i64 };
        let td = TimeSnapshot { accumulated_steps: acc, ..timedata };
        let cumulative_breached = match config.accumulated_threshold {
            Some(v) => acc.raw >= v.raw || acc.raw <= -v.raw,
            None => false,
        };
        if !spec_is_within(config.panic_threshold, d) || cumulative_breached {
            (td, Err(FatalError::StepLimit))
        } else {
            (td, Ok(()))
        }
    }
}

impl<C: NtpClock> KalmanClockController<C> {
    /// A well-formed controller: valid configuration, a well-formed
    /// filter per peer, and scalars inside the fixed-point range.
    pub open spec fn wf(self) -> bool {
        &&& self.algo_config.valid()
        &&& config_valid(self.config)
        &&& forall|i: int| 0 <= i < self.peers@.len() ==> (#[trigger] self.peers@[i]).state.wf()
        &&& unique_peer_ids(self.peers@)
        &&& -MAX_VALUE <= self.freq_offset <= MAX_VALUE
        &&& -MAX_VALUE <= self.desired_freq <= MAX_VALUE
    }

    /// Set up the clock (no kernel discipline, unknown leap status, zero
    /// frequency correction) and start with an empty peer table,
    /// ignoring every measurement taken before the current clock reading.
    pub fn new(clock: C, config: SystemConfig, algo_config: AlgorithmConfig) -> (r: Result<
        Self,
        FatalError,
    >)
        requires
            algo_config.valid(),
            config_valid(config),
        ensures
            (r matches Err(e) ==> e == FatalError::ClockAccess),
            (r matches Ok(c) ==> {
                &&& c.wf()
                &&& c.peers@.len() == 0
                &&& c.config == config
                &&& c.algo_config == algo_config
                &&& c.freq_offset == 0
                &&& c.desired_freq == 0
                &&& c.in_startup == false
                &&& c.timedata == TimeSnapshot::spec_default()
            }),
    {
        if clock.disable_ntp_algorithm().is_err() {
            return Err(FatalError::ClockAccess);
        }
        if clock.status_update(NtpLeapIndicator::Unknown).is_err() {
            return Err(FatalError::ClockAccess);
        }
        if clock.set_frequency(0).is_err() {
            return Err(FatalError::ClockAccess);
        }
        let ignore_before = match clock.now() {
            Ok(t) => t,
            Err(_) => {
                return Err(FatalError::ClockAccess);
            },
        };
        Ok(
            KalmanClockController {
                peers: Vec::new(),
                ignore_before,
                clock,
                config,
                algo_config,
                freq_offset: 0,
                desired_freq: 0,
                timedata: TimeSnapshot::default(),
                in_startup: false,
            },
        )
    }

    /// Replace both configurations.
    pub fn update_config(&mut self, config: SystemConfig, algo_config: AlgorithmConfig)
        requires
            old(self).wf(),
            algo_config.valid(),
            config_valid(config),
        ensures
            final(self).wf(),
            (*final(self) == KalmanClockController {
                config,
                algo_config,
                ..*old(self)
            }),
    {
        self.config = config;
        self.algo_config = algo_config;
    }

    /// Add a peer with a fresh filter, not yet usable. An existing peer
    /// of the same id is replaced. Never touches the clock.
    pub fn peer_add(&mut self, id: u64)
        requires
            old(self).wf(),
        ensures
            final(self).wf(),
            final(self).peers@ =~= spec_remove_entries(old(self).peers@, id).push(
                PeerEntry { id, state: PeerState::spec_new(), usable: false },
            ),
            (*final(self) == KalmanClockController { peers: final(self).peers, ..*old(self) }),
    {
        self.remove_entries(id);
        proof {
            lemma_remove_entries_unique(old(self).peers@, id);
            assert(self.peers@ == spec_remove_entries(old(self).peers@, id));
        }
        self.peers.push(PeerEntry { id, state: PeerState::new(), usable: false });
        proof {
            assert forall|i: int, j: int|
                0 <= i < j < self.peers@.len() implies self.peers@[i].id != self.peers@[j].id by {
                if j == self.peers@.len() - 1 {
                    assert(self.peers@[i].id != id);
                }
            }
        }
    }

    /// Remove a peer and its filter. Never touches the clock.
    pub fn peer_remove(&mut self, id: u64)
        requires
            old(self).wf(),
        ensures
            final(self).wf(),
            final(self).peers@ =~= spec_remove_entries(old(self).peers@, id),
            (*final(self) == KalmanClockController { peers: final(self).peers, ..*old(self) }),
    {
        self.remove_entries(id);
    }

    /// Mark a peer usable or unusable for synchronization. Never touches
    /// the clock.
    pub fn peer_update(&mut self, id: u64, usable: bool)
        requires
            old(self).wf(),
        ensures
            final(self).wf(),
            final(self).peers@ =~= spec_set_usable(old(self).peers@, id, usable),
            (*final(self) == KalmanClockController { peers: final(self).peers, ..*old(self) }),
    {
        let n = self.peers.len();
        let mut i: usize = 0;
        while i < n
            invariant
                0 <= i <= n,
                n == self.peers@.len(),
                old(self).wf(),
                n == old(self).peers@.len(),
                forall|t: int|
                    0 <= t < i ==> self.peers@[t] == spec_set_usable(
                        old(self).peers@,
                        id,
                        usable,
                    )[t],
                forall|t: int| i <= t < n ==> self.peers@[t] == old(self).peers@[t],
                (*self == KalmanClockController { peers: self.peers, ..*old(self) }),
            decreases n - i,
        {
            let e = self.peers[i];
            if e.id == id {
                self.peers[i] = PeerEntry { usable, ..e };
            }
            i += 1;
        }
    }

    /// Drop every row of the table carrying `id`, keeping the order.
    fn remove_entries(&mut self, id: u64)
        requires
            old(self).wf(),
        ensures
            final(self).wf(),
            final(self).peers@ =~= spec_remove_entries(old(self).peers@, id),
            (*final(self) == KalmanClockController { peers: final(self).peers, ..*old(self) }),
    {
        let n = self.peers.len();
        let mut kept: Vec<PeerEntry> = Vec::new();
        let mut i: usize = 0;
        while i < n
            invariant
                0 <= i <= n,
                n == self.peers@.len(),
                old(self).wf(),
                self.peers@ == old(self).peers@,
                kept@ =~= spec_remove_entries(old(self).peers@.take(i as int), id),
                forall|t: int| 0 <= t < kept@.len() ==> (#[trigger] kept@[t]).state.wf(),
                (*self == KalmanClockController { peers: self.peers, ..*old(self) }),
            decreases n - i,
        {
            proof {
                assert(old(self).peers@.take(i + 1).drop_last() =~= old(self).peers@.take(i as int));
                assert(old(self).peers@.take(i + 1).last() == old(self).peers@[i as int]);
            }
            let e = self.peers[i];
            if e.id != id {
                kept.push(e);
            }
            i += 1;
        }
        proof {
            assert(old(self).peers@.take(n as int) =~= old(self).peers@);
            assert(kept@ =~= spec_remove_entries(old(self).peers@, id));
            assert(kept@ == spec_remove_entries(old(self).peers@, id));
            lemma_remove_entries_unique(old(self).peers@, id);
        }
        self.peers = kept;
    }

    /// Feed one measurement to the peer's filter. Returns whether the
    /// clock should be updated: the measurement is recent enough, the
    /// peer exists and is usable, and its filter accepted the sample.
    fn update_peer(&mut self, id: u64, measurement: Measurement, packet: NtpHeader) -> (r: bool)
        requires
            old(self).wf(),
        ensures
            final(self).wf(),
            measurement.localtime.raw < old(self).ignore_before.raw ==> r == false && *final(self)
                == *old(self),
            measurement.localtime.raw >= old(self).ignore_before.raw ==> {
                &&& final(self).peers@ =~= spec_measure_table(
                    old(self).peers@,
                    id,
                    old(self).algo_config,
                    measurement,
                    packet,
                )
                &&& r == spec_measure_accepted(
                    old(self).peers@,
                    id,
                    old(self).algo_config,
                    measurement,
                    packet,
                )
                &&& (*final(self) == KalmanClockController {
                    peers: final(self).peers,
                    ..*old(self)
                })
            },
    {
        if measurement.localtime.raw < self.ignore_before.raw {
            return false;
        }
        let n = self.peers.len();
        let mut accepted = false;
        let mut i: usize = 0;
        while i < n
            invariant
                0 <= i <= n,
                n == self.peers@.len(),
                old(self).wf(),
                n == old(self).peers@.len(),
                forall|t: int|
                    0 <= t < i ==> self.peers@[t] == spec_measure_table(
                        old(self).peers@,
                        id,
                        old(self).algo_config,
                        measurement,
                        packet,
                    )[t],
                forall|t: int| i <= t < n ==> self.peers@[t] == old(self).peers@[t],
                forall|t: int| 0 <= t < n ==> (#[trigger] self.peers@[t]).state.wf(),
                accepted == exists|t: int|
                    0 <= t < i && (#[trigger] old(self).peers@[t]).id == id && old(
                        self,
                    ).peers@[t].usable && spec_update(
                        old(self).peers@[t].state,
                        old(self).algo_config,
                        measurement,
                        packet,
                    ).1,
                (*self == KalmanClockController { peers: self.peers, ..*old(self) }),
            decreases n - i,
        {
            let e = self.peers[i];
            if e.id == id {
                let mut st = e.state;
                let ok = st.update(&self.algo_config, measurement, packet);
                self.peers[i] = PeerEntry { state: st, ..e };
                if ok && e.usable {
                    accepted = true;
                    proof {
                        assert((#[trigger] old(self).peers@[i as int]).id == id && old(
                            self,
                        ).peers@[i as int].usable && spec_update(
                            old(self).peers@[i as int].state,
                            old(self).algo_config,
                            measurement,
                            packet,
                        ).1);
                    }
                }
            }
            i += 1;
        }
        accepted
    }

    /// Recompute the desired poll interval: the smallest wish over all
    /// peers, within the configured limits.
    fn update_desired_poll(&mut self)
        requires
            old(self).wf(),
        ensures
            final(self).wf(),
            final(self).timedata == (TimeSnapshot {
                poll_interval: spec_min_poll(old(self).peers@, old(self).config) as i8,
                ..old(self).timedata
            }),
            (*final(self) == KalmanClockController {
                timedata: final(self).timedata,
                ..*old(self)
            }),
    {
        let n = self.peers.len();
        let mut best: i8 = self.config.poll_limits.max;
        let mut i: usize = 0;
        while i < n
            invariant
                0 <= i <= n,
                n == self.peers@.len(),
                old(self).wf(),
                *self == *old(self),
                best == spec_min_poll(self.peers@.take(i as int), self.config),
            decreases n - i,
        {
            proof {
                assert(self.peers@.take(i + 1).drop_last() =~= self.peers@.take(i as int));
                assert(self.peers@.take(i + 1).last() == self.peers@[i as int]);
            }
            let wish = self.peers[i].state.get_desired_poll(&self.config.poll_limits);
            if wish < best {
                best = wish;
            }
            i += 1;
        }
        proof {
            assert(self.peers@.take(n as int) =~= self.peers@);
        }
        self.timedata = TimeSnapshot { poll_interval: best, ..self.timedata };
    }

    /// Check a proposed clock step against the panic thresholds and
    /// account for it. An unusually large step is fatal: the caller must
    /// stop rather than risk corrupt time.
    fn check_offset_steer(&mut self, change: i64) -> (r: Result<(), FatalError>)
        requires
            old(self).wf(),
            -MAX_VALUE <= change <= MAX_VALUE,
        ensures
            final(self).wf(),
            ((final(self).timedata, r) === spec_check_offset_steer(
                old(self).config,
                old(self).timedata,
                old(self).in_startup,
                change as int,
            )),
            (*final(self) == KalmanClockController {
                timedata: final(self).timedata,
                ..*old(self)
            }),
    {
        let d = NtpDuration { raw: change };
        if self.in_startup {
            if !self.config.startup_panic_threshold.is_within(d) {
                return Err(FatalError::StepLimit);
            }
            Ok(())
        } else {
            let acc = self.timedata.accumulated_steps.saturating_plus(d);
            self.timedata = TimeSnapshot { accumulated_steps: acc, ..self.timedata };
            let cumulative_breached = match self.config.accumulated_threshold {
                Some(v) => acc.raw >= v.raw || acc.raw <= -v.raw,
                None => false,
            };
            if !self.config.panic_threshold.is_within(d) || cumulative_breached {
                return Err(FatalError::StepLimit);
            }
            Ok(())
        }
    }

    /// Compose a frequency adjustment into the running correction, push
    /// it to the clock, and re-anchor every peer filter at the clock time
    /// the adjustment took effect. Returns that time.
    fn steer_frequency(&mut self, change: i64) -> (r: Result<NtpTimestamp, FatalError>)
        requires
            old(self).wf(),
            -MAX_VALUE <= change <= MAX_VALUE,
        ensures
            final(self).wf(),
            final(self).freq_offset == spec_compose_frequency(
                old(self).freq_offset as int,
                change as int,
            ),
            (r matches Ok(t) ==> final(self).peers@ =~= spec_freq_steer_table(
                old(self).peers@,
                t,
                change as int,
                old(self).algo_config,
            )),
            (r is Err ==> final(self).peers@ == old(self).peers@ && r === Err::<
                NtpTimestamp,
                FatalError,
            >(FatalError::ClockAccess)),
            (*final(self) == KalmanClockController {
                freq_offset: final(self).freq_offset,
                peers: final(self).peers,
                ..*old(self)
            }),
    {
        self.freq_offset = fadd(fadd(self.freq_offset, change), fmul(self.freq_offset, change));
        if self.clock.set_frequency(self.freq_offset).is_err() {
            return Err(FatalError::ClockAccess);
        }
        let freq_update = match self.clock.now() {
            Ok(t) => t,
            Err(_) => {
                return Err(FatalError::ClockAccess);
            },
        };
        let n = self.peers.len();
        let mut i: usize = 0;
        while i < n
            invariant
                0 <= i <= n,
                n == self.peers@.len(),
                old(self).wf(),
                -MAX_VALUE <= change <= MAX_VALUE,
                n == old(self).peers@.len(),
                self.algo_config == old(self).algo_config,
                forall|t: int|
                    0 <= t < i ==> self.peers@[t] == spec_freq_steer_table(
                        old(self).peers@,
                        freq_update,
                        change as int,
                        old(self).algo_config,
                    )[t],
                forall|t: int| i <= t < n ==> self.peers@[t] == old(self).peers@[t],
                forall|t: int| 0 <= t < n ==> (#[trigger] self.peers@[t]).state.wf(),
                (*self == KalmanClockController {
                    freq_offset: self.freq_offset,
                    peers: self.peers,
                    ..*old(self)
                }),
                -MAX_VALUE <= self.freq_offset <= MAX_VALUE,
                self.freq_offset == spec_compose_frequency(
                    old(self).freq_offset as int,
                    change as int,
                ),
            decreases n - i,
        {
            let e = self.peers[i];
            let mut st = e.state;
            st.process_frequency_steering(freq_update, change, &self.algo_config);
            self.peers[i] = PeerEntry { state: st, ..e };
            i += 1;
        }
        Ok(freq_update)
    }

    /// Correct a measured offset: steps larger than the jump threshold
    /// step the clock at once, smaller ones start a slew by steering the
    /// frequency for a bounded time. Returns the time at which a started
    /// slew must be ended by `time_update`, and fails fatally when the
    /// step check or the clock refuses.
    fn steer_offset(&mut self, change: i64) -> (r: Result<Option<NtpTimestamp>, FatalError>)
        requires
            old(self).wf(),
            -MAX_VALUE <= change <= MAX_VALUE,
        ensures
            final(self).wf(),
            final(self).timedata == spec_check_offset_steer(
                old(self).config,
                old(self).timedata,
                old(self).in_startup,
                change as int,
            ).0,
            (spec_check_offset_steer(
                old(self).config,
                old(self).timedata,
                old(self).in_startup,
                change as int,
            ).1 is Err ==> r === Err::<Option<NtpTimestamp>, FatalError>(FatalError::StepLimit)
                && final(self).peers@ == old(self).peers@ && final(self).desired_freq == old(
                self,
            ).desired_freq && final(self).freq_offset == old(self).freq_offset),
            (spec_check_offset_steer(
                old(self).config,
                old(self).timedata,
                old(self).in_startup,
                change as int,
            ).1 is Ok && r is Err ==> r === Err::<Option<NtpTimestamp>, FatalError>(
                FatalError::ClockAccess,
            )),
            (r is Err ==> final(self).peers@ == old(self).peers@),
            (r matches Ok(nu) ==> {
                let change_abs = if change >= 0 {
                    change as int
                } else {
                    -change as int
                };
                if change_abs > old(self).algo_config.jump_threshold {
                    &&& final(self).peers@ =~= spec_offset_steer_table(
                        old(self).peers@,
                        change as int,
                    )
                    &&& final(self).desired_freq == old(self).desired_freq
                    &&& final(self).freq_offset == old(self).freq_offset
                    &&& nu is None
                } else {
                    &&& final(self).desired_freq == spec_slew_desired_freq(
                        old(self).algo_config,
                        change as int,
                    )
                    &&& final(self).freq_offset == spec_compose_frequency(
                        old(self).freq_offset as int,
                        -spec_slew_desired_freq(old(self).algo_config, change as int),
                    )
                    &&& exists|t: NtpTimestamp|
                        final(self).peers@ =~= spec_freq_steer_table(
                            old(self).peers@,
                            t,
                            -spec_slew_desired_freq(old(self).algo_config, change as int),
                            old(self).algo_config,
                        ) && nu == Some(
                            NtpTimestamp {
                                raw: clamp_u64(
                                    t.raw + spec_slew_duration(
                                        old(self).algo_config,
                                        change as int,
                                    ),
                                ) as u64,
                            },
                        )
                }
            }),
            (*final(self) == KalmanClockController {
                timedata: final(self).timedata,
                peers: final(self).peers,
                desired_freq: final(self).desired_freq,
                freq_offset: final(self).freq_offset,
                ..*old(self)
            }),
    {
        if let Err(e) = self.check_offset_steer(change) {
            return Err(e);
        }
        proof {
            assert(self.timedata == spec_check_offset_steer(
                old(self).config,
                old(self).timedata,
                old(self).in_startup,
                change as int,
            ).0);
        }
        let change_abs = if change >= 0 {
            change
        } else {
            -change
        };
        if change_abs > self.algo_config.jump_threshold {
            // jump
            if self.clock.step_clock(NtpDuration { raw: change }).is_err() {
                return Err(FatalError::ClockAccess);
            }
            let n = self.peers.len();
            let mut i: usize = 0;
            while i < n
                invariant
                    0 <= i <= n,
                    n == self.peers@.len(),
                    old(self).wf(),
                    n == old(self).peers@.len(),
                    forall|t: int|
                        0 <= t < i ==> self.peers@[t] == spec_offset_steer_table(
                            old(self).peers@,
                            change as int,
                        )[t],
                    forall|t: int| i <= t < n ==> self.peers@[t] == old(self).peers@[t],
                    forall|t: int| 0 <= t < n ==> (#[trigger] self.peers@[t]).state.wf(),
                    self.timedata == spec_check_offset_steer(
                        old(self).config,
                        old(self).timedata,
                        old(self).in_startup,
                        change as int,
                    ).0,
                    (*self == KalmanClockController {
                        timedata: self.timedata,
                        peers: self.peers,
                        ..*old(self)
                    }),
                decreases n - i,
            {
                let e = self.peers[i];
                let mut st = e.state;
                st.process_offset_steering(change);
                self.peers[i] = PeerEntry { state: st, ..e };
                i += 1;
            }
            proof {
                assert(self.timedata == spec_check_offset_steer(
                    old(self).config,
                    old(self).timedata,
                    old(self).in_startup,
                    change as int,
                ).0);
            }
            Ok(None)
        } else {
            // start a slew: pick the frequency and stretch it over the
            // corresponding duration
            let rate = fdiv(change_abs, self.algo_config.slew_min_duration);
            let mut freq = if rate < self.algo_config.slew_max_frequency_offset {
                rate
            } else {
                self.algo_config.slew_max_frequency_offset
            };
            if freq < 1 {
                freq = 1;
            }
            self.desired_freq = if change >= 0 {
                -freq
            } else {
                freq
            };
            let duration = fdiv(change_abs, freq);
            let back = if change >= 0 {
                freq
            } else {
                -freq
            };
            let start = match self.steer_frequency(back) {
                Ok(t) => t,
                Err(e) => {
                    return Err(e);
                },
            };
            proof {
                assert(self.timedata == spec_check_offset_steer(
                    old(self).config,
                    old(self).timedata,
                    old(self).in_startup,
                    change as int,
                ).0);
            }
            Ok(Some(start.saturating_plus(NtpDuration { raw: duration })))
        }
    }

    /// End the current slew: cancel the remaining desired frequency and
    /// return to idle.
    pub fn time_update(&mut self) -> (r: Result<StateUpdate, FatalError>)
        requires
            old(self).wf(),
        ensures
            final(self).wf(),
            final(self).desired_freq == 0,
            final(self).freq_offset == spec_compose_frequency(
                old(self).freq_offset as int,
                old(self).desired_freq as int,
            ),
            (r matches Ok(su) ==> (su.used_peers is None) && (su.timesnapshot is None) && (
            su.next_update is None)),
            (r matches Ok(su) ==> exists|t: NtpTimestamp|
                final(self).peers@ =~= spec_freq_steer_table(
                    old(self).peers@,
                    t,
                    old(self).desired_freq as int,
                    old(self).algo_config,
                )),
            (r matches Err(e) ==> e == FatalError::ClockAccess && final(self).peers@ == old(
                self,
            ).peers@),
            (*final(self) == KalmanClockController {
                peers: final(self).peers,
                freq_offset: final(self).freq_offset,
                desired_freq: final(self).desired_freq,
                ..*old(self)
            }),
    {
        let df = self.desired_freq;
        if let Err(e) = self.steer_frequency(df) {
            self.desired_freq = 0;
            return Err(e);
        }
        self.desired_freq = 0;
        Ok(StateUpdate::default())
    }

    /// Feed one measurement from peer `id` into the controller: update
    /// the peer's filter, recompute the poll cadence, and if the sample
    /// was accepted from a usable peer run selection, combination and
    /// steering.
    #[verifier::rlimit(100)]
    #[verifier::spinoff_prover]
    pub fn peer_measurement(
        &mut self,
        id: u64,
        measurement: Measurement,
        packet: NtpHeader,
    ) -> (r: Result<StateUpdate, FatalError>)
        requires
            old(self).wf(),
        ensures
            final(self).wf(),
            measurement.localtime.raw < old(self).ignore_before.raw ==> {
                &&& (*final(self) == KalmanClockController {
                    timedata: final(self).timedata,
                    ..*old(self)
                })
                &&& final(self).timedata == (TimeSnapshot {
                    poll_interval: spec_min_poll(old(self).peers@, old(self).config) as i8,
                    ..old(self).timedata
                })
                &&& (r matches Ok(su) && (su.used_peers is None) && (su.next_update is None)
                    && su.timesnapshot == Some(final(self).timedata))
            },
            old(self).desired_freq != 0 ==> final(self).desired_freq == old(self).desired_freq
                && final(self).timedata.accumulated_steps
                == old(self).timedata.accumulated_steps && (r matches Ok(su)
                ==> su.next_update is None),
            (measurement.localtime.raw >= old(self).ignore_before.raw && !spec_measure_accepted(
                old(self).peers@,
                id,
                old(self).algo_config,
                measurement,
                packet,
            )) ==> {
                &&& final(self).peers@ =~= spec_measure_table(
                    old(self).peers@,
                    id,
                    old(self).algo_config,
                    measurement,
                    packet,
                )
                &&& (r matches Ok(su) && (su.used_peers is None) && (su.next_update is None)
                    && su.timesnapshot == Some(final(self).timedata))
                &&& final(self).timedata == (TimeSnapshot {
                    poll_interval: spec_min_poll(final(self).peers@, old(self).config) as i8,
                    ..old(self).timedata
                })
                &&& (*final(self) == KalmanClockController {
                    peers: final(self).peers,
                    timedata: final(self).timedata,
                    ..*old(self)
                })
            },
            (r matches Ok(su) ==> (su.used_peers is Some ==> final(self).in_startup == false)),
            (measurement.localtime.raw >= old(self).ignore_before.raw && spec_measure_accepted(
                old(self).peers@,
                id,
                old(self).algo_config,
                measurement,
                packet,
            )) ==> {
                let mid = spec_measure_table(
                    old(self).peers@,
                    id,
                    old(self).algo_config,
                    measurement,
                    packet,
                );
                let midtd = (TimeSnapshot {
                    poll_interval: spec_min_poll(mid, old(self).config) as i8,
                    ..old(self).timedata
                });
                &&& ((exists|t: int|
                    0 <= t < mid.len() && (#[trigger] mid[t]).state.initialized
                        && mid[t].state.last_update.raw > measurement.localtime.raw)
                    ==> final(self).peers@ == mid && final(self).timedata == midtd && (
                r matches Ok(su) && (su.used_peers is None) && (su.next_update is None)
                    && su.timesnapshot == Some(midtd)))
                &&& ((forall|t: int|
                    0 <= t < mid.len() ==> !((#[trigger] mid[t]).state.initialized
                        && mid[t].state.last_update.raw > measurement.localtime.raw)) ==> {
                    let sel = spec_consensus_selection(
                        mid,
                        measurement.localtime,
                        old(self).algo_config,
                    );
                    &&& (sel.len() == 0 ==> final(self).peers@ =~= spec_progress_table(
                        mid,
                        measurement.localtime,
                        old(self).algo_config,
                    ) && final(self).timedata == midtd && (r matches Ok(su) && (
                    su.used_peers is None) && (su.next_update is None) && su.timesnapshot
                        == Some(midtd)))
                    &&& (sel.len() > 0 ==> (r matches Ok(su) ==> {
                        let comb = spec_combined(sel);
                        &&& (su.used_peers matches Some(ids) && ids@ =~= spec_sort_by_quality(
                            spec_quality_pairs(sel),
                        ).map_values((|p: (u64, i64)| p.0)))
                        &&& final(self).timedata.root_delay.raw == spec_min_delay(sel)
                        &&& final(self).timedata.root_dispersion.raw == spec_sigma_of(
                            comb.1.e00 as int,
                        )
                        &&& final(self).timedata.leap_indicator == (match spec_vote_leap(sel) {
                            Some(v) => v,
                            None => old(self).timedata.leap_indicator,
                        })
                        &&& final(self).timedata.poll_interval == spec_min_poll(
                            mid,
                            old(self).config,
                        ) as i8
                        &&& final(self).freq_offset == spec_clock_update_freq(
                            old(self).freq_offset as int,
                            old(self).desired_freq as int,
                            comb.0,
                            comb.1,
                            old(self).algo_config,
                        )
                        &&& final(self).in_startup == false
                        &&& su.timesnapshot == Some(final(self).timedata)
                    }))
                })
            },
    {
        let should_update_clock = self.update_peer(id, measurement, packet);
        self.update_desired_poll();
        if should_update_clock {
            proof {
                assert(self.peers@ == spec_measure_table(
                    old(self).peers@,
                    id,
                    old(self).algo_config,
                    measurement,
                    packet,
                ));
            }
            self.update_clock(measurement.localtime)
        } else {
            Ok(
                StateUpdate {
                    used_peers: None,
                    timesnapshot: Some(self.timedata),
                    next_update: None,
                },
            )
        }
    }

    /// Observable time data of one peer: the first table row carrying the
    /// id, mapped to its filter's offset, offset standard deviation,
    /// delays and last update; nothing for an unknown peer or an
    /// uninitialized filter. Read-only.
    pub fn peer_snapshot(&self, id: u64) -> (r: Option<ObservablePeerTimedata>)
        requires
            self.wf(),
        ensures
            r == (match spec_find_peer(self.peers@, id) {
                None => None::<ObservablePeerTimedata>,
                Some(ps) => spec_observe(ps, id),
            }),
    {
        proof {
            assert(self.peers@.skip(0) =~= self.peers@);
            assert(self.peers@.skip(0) == self.peers@);
        }
        let n = self.peers.len();
        let mut i: usize = 0;
        while i < n
            invariant
                0 <= i <= n,
                n == self.peers@.len(),
                self.wf(),
                spec_find_peer(self.peers@.skip(i as int), id) == spec_find_peer(
                    self.peers@,
                    id,
                ),
            decreases n - i,
        {
            proof {
                assert(self.peers@.skip(i as int).drop_first() =~= self.peers@.skip(i + 1));
                assert(self.peers@.skip(i as int).drop_first() == self.peers@.skip(i + 1));
                assert(self.peers@.skip(i as int)[0] == self.peers@[i as int]);
            }
            let e = self.peers[i];
            if e.id == id {
                match e.state.snapshot(id) {
                    Some(snap) => {
                        let var = if snap.uncertainty.e00 >= 0 {
                            snap.uncertainty.e00
                        } else {
                            0
                        };
                        return Some(
                            ObservablePeerTimedata {
                                offset: NtpDuration { raw: snap.state.e0 },
                                uncertainty: NtpDuration { raw: fsqrt(var) },
                                delay: NtpDuration { raw: snap.delay },
                                remote_delay: snap.peer_delay,
                                remote_uncertainty: snap.peer_uncertainty,
                                last_update: snap.last_update,
                            },
                        );
                    },
                    None => {
                        return None;
                    },
                }
            }
            i += 1;
        }
        proof {
            assert(self.peers@.skip(n as int) =~= Seq::<PeerEntry>::empty());
            assert(self.peers@.skip(n as int) == Seq::<PeerEntry>::empty());
        }
        None
    }

    /// Run the selection, combination and steering pipeline at time
    /// `time`: project all filters there, select a consistent subset of
    /// the usable peers, combine it, and steer frequency and offset as
    /// the thresholds demand. During a slew no offset steer is issued.
    #[verifier::rlimit(100)]
    #[verifier::spinoff_prover]
    fn update_clock(&mut self, time: NtpTimestamp) -> (r: Result<StateUpdate, FatalError>)
        requires
            old(self).wf(),
        ensures
            final(self).wf(),
            old(self).desired_freq != 0 ==> final(self).desired_freq == old(self).desired_freq
                && final(self).timedata.accumulated_steps
                == old(self).timedata.accumulated_steps && (r matches Ok(su)
                ==> su.next_update is None),
            (exists|t: int|
                0 <= t < old(self).peers@.len() && (#[trigger] old(
                    self,
                ).peers@[t]).state.initialized && old(self).peers@[t].state.last_update.raw
                    > time.raw) ==> *final(self) == *old(self) && (r matches Ok(su) && (
            su.used_peers is None) && (su.next_update is None) && su.timesnapshot == Some(
                old(self).timedata,
            )),
            (r matches Ok(su) ==> (su.used_peers is Some ==> final(self).in_startup == false
                && su.timesnapshot == Some(final(self).timedata))),
            (forall|t: int|
                0 <= t < old(self).peers@.len() ==> !((#[trigger] old(
                    self,
                ).peers@[t]).state.initialized && old(self).peers@[t].state.last_update.raw
                    > time.raw)) ==> {
                let sel = spec_consensus_selection(old(self).peers@, time, old(self).algo_config);
                &&& (sel.len() == 0 ==> {
                    &&& final(self).peers@ =~= spec_progress_table(
                        old(self).peers@,
                        time,
                        old(self).algo_config,
                    )
                    &&& (*final(self) == KalmanClockController {
                        peers: final(self).peers,
                        ..*old(self)
                    })
                    &&& (r matches Ok(su) && (su.used_peers is None) && (su.next_update is None)
                        && su.timesnapshot == Some(old(self).timedata))
                })
                &&& (sel.len() > 0 ==> (r matches Ok(su) ==> {
                    let comb = spec_combined(sel);
                    &&& (su.used_peers matches Some(ids) && ids@ =~= spec_sort_by_quality(
                        spec_quality_pairs(sel),
                    ).map_values((|p: (u64, i64)| p.0)))
                    &&& final(self).timedata.root_delay.raw == spec_min_delay(sel)
                    &&& final(self).timedata.root_dispersion.raw == spec_sigma_of(
                        comb.1.e00 as int,
                    )
                    &&& final(self).timedata.leap_indicator == (match spec_vote_leap(sel) {
                        Some(v) => v,
                        None => old(self).timedata.leap_indicator,
                    })
                    &&& final(self).timedata.poll_interval == old(self).timedata.poll_interval
                    &&& final(self).freq_offset == spec_clock_update_freq(
                        old(self).freq_offset as int,
                        old(self).desired_freq as int,
                        comb.0,
                        comb.1,
                        old(self).algo_config,
                    )
                    &&& final(self).in_startup == false
                    &&& su.timesnapshot == Some(final(self).timedata)
                }))
            },
    {
        // ensure all filters represent the same (current) time: a filter
        // ahead of `time` indicates reordered measurements, so wait
        let n = self.peers.len();
        let mut i: usize = 0;
        while i < n
            invariant
                0 <= i <= n,
                n == self.peers@.len(),
                self.wf(),
                *self == *old(self),
                forall|t: int|
                    0 <= t < i ==> !((#[trigger] self.peers@[t]).state.initialized
                        && self.peers@[t].state.last_update.raw > time.raw),
            decreases n - i,
        {
            let e = self.peers[i];
            match e.state.get_filtertime() {
                Some(ft) => {
                    if ft.raw > time.raw {
                        return Ok(
                            StateUpdate {
                                used_peers: None,
                                timesnapshot: Some(self.timedata),
                                next_update: None,
                            },
                        );
                    }
                },
                None => {},
            }
            i += 1;
        }

        // project every filter to now
        let mut i: usize = 0;
        while i < n
            invariant
                0 <= i <= n,
                n == self.peers@.len(),
                old(self).wf(),
                n == old(self).peers@.len(),
                self.algo_config == old(self).algo_config,
                forall|t: int|
                    0 <= t < i ==> self.peers@[t] == spec_progress_table(
                        old(self).peers@,
                        time,
                        old(self).algo_config,
                    )[t],
                forall|t: int| i <= t < n ==> self.peers@[t] == old(self).peers@[t],
                forall|t: int| 0 <= t < n ==> (#[trigger] self.peers@[t]).state.wf(),
                (*self == KalmanClockController { peers: self.peers, ..*old(self) }),
            decreases n - i,
        {
            let e = self.peers[i];
            let mut st = e.state;
            st.progress_filtertime(time, &self.algo_config);
            self.peers[i] = PeerEntry { state: st, ..e };
            i += 1;
        }
        let ghost projected = spec_progress_table(old(self).peers@, time, old(self).algo_config);
        proof {
            assert(self.peers@ =~= projected);
        }

        // snapshots of the usable peers
        let mut snapshots: Vec<KalmanSnapshot> = Vec::new();
        let mut i: usize = 0;
        while i < n
            invariant
                0 <= i <= n,
                n == self.peers@.len(),
                self.wf(),
                self.peers@ == projected,
                snapshots@ =~= spec_usable_snapshots(projected.take(i as int)),
                forall|t: int| 0 <= t < snapshots@.len() ==> (#[trigger] snapshots@[t]).wf(),
                (*self == KalmanClockController { peers: self.peers, ..*old(self) }),
            decreases n - i,
        {
            proof {
                assert(projected.take(i + 1).drop_last() =~= projected.take(i as int));
                assert(projected.take(i + 1).drop_last() == projected.take(i as int));
                assert(projected.take(i + 1).last() == projected[i as int]);
            }
            let e = self.peers[i];
            if e.usable {
                match e.state.snapshot(e.id) {
                    Some(snap) => {
                        snapshots.push(snap);
                    },
                    None => {},
                }
            }
            i += 1;
        }
        let ghost snaps = spec_usable_snapshots(projected);
        proof {
            assert(projected.take(n as int) =~= projected);
            assert(projected.take(n as int) == projected);
            assert(snapshots@ =~= snaps);
            assert(snapshots@ == snaps);
        }

        let selection = select(&self.algo_config, snapshots);
        let ghost sel = spec_consensus_selection(old(self).peers@, time, old(self).algo_config);
        proof {
            assert(selection@ =~= spec_selected(snaps, self.algo_config));
            assert(selection@ =~= sel);
            assert(selection@ == sel);
        }

        let combined = match combine(&selection) {
            Some(c) => c,
            None => {
                // no consensus cluster found
                return Ok(
                    StateUpdate {
                        used_peers: None,
                        timesnapshot: Some(self.timedata),
                        next_update: None,
                    },
                );
            },
        };

        let ghost comb = spec_combined(sel);
        proof {
            assert(combined.estimate == comb.0);
            assert(combined.uncertainty == comb.1);
        }
        let freq_delta = fsub(combined.estimate.e1, self.desired_freq);
        let freq_var = if combined.uncertainty.e11 >= 0 {
            combined.uncertainty.e11
        } else {
            0
        };
        let freq_uncertainty = fsqrt(freq_var);
        let freq_delta_abs = if freq_delta >= 0 {
            freq_delta
        } else {
            -freq_delta
        };
        if freq_delta_abs > fmul(freq_uncertainty, self.algo_config.steer_frequency_threshold) {
            let leftover = fmul(freq_uncertainty, self.algo_config.steer_frequency_leftover);
            let amount = if freq_delta >= 0 {
                fsub(freq_delta, leftover)
            } else {
                fadd(freq_delta, leftover)
            };
            if let Err(e) = self.steer_frequency(amount) {
                return Err(e);
            }
        }
        let ghost famt = spec_freq_steer_amount(
            comb.0,
            comb.1,
            old(self).desired_freq as int,
            old(self).algo_config,
        );
        proof {
            assert(self.freq_offset as int == (match famt {
                Some(a) => spec_compose_frequency(old(self).freq_offset as int, a),
                None => old(self).freq_offset as int,
            }));
        }

        let offset_delta = crate::fixed::clamp128(combined.estimate.e0 as i128);
        let offset_var = if combined.uncertainty.e00 >= 0 {
            combined.uncertainty.e00
        } else {
            0
        };
        let offset_uncertainty = fsqrt(offset_var);
        let offset_delta_abs = if offset_delta >= 0 {
            offset_delta
        } else {
            -offset_delta
        };
        let next_update = if self.desired_freq == 0 && offset_delta_abs > fmul(
            offset_uncertainty,
            self.algo_config.steer_offset_threshold,
        ) {
            let leftover = fmul(offset_uncertainty, self.algo_config.steer_offset_leftover);
            let amount = if offset_delta >= 0 {
                fsub(offset_delta, leftover)
            } else {
                fadd(offset_delta, leftover)
            };
            match self.steer_offset(amount) {
                Ok(nu) => nu,
                Err(e) => {
                    return Err(e);
                },
            }
        } else {
            None
        };
        proof {
            assert(self.freq_offset as int == spec_clock_update_freq(
                old(self).freq_offset as int,
                old(self).desired_freq as int,
                comb.0,
                comb.1,
                old(self).algo_config,
            ));
        }

        self.timedata = TimeSnapshot {
            root_delay: combined.delay,
            root_dispersion: NtpDuration { raw: offset_uncertainty },
            ..self.timedata
        };
        if self.clock.error_estimate_update(
            self.timedata.root_dispersion,
            self.timedata.root_delay,
        ).is_err() {
            return Err(FatalError::ClockAccess);
        }

        if let Some(leap) = combined.leap_indicator {
            if self.clock.status_update(leap).is_err() {
                return Err(FatalError::ClockAccess);
            }
            self.timedata = TimeSnapshot { leap_indicator: leap, ..self.timedata };
        }

        // after a successful consensus we are out of startup
        self.in_startup = false;

        Ok(
            StateUpdate {
                used_peers: Some(combined.peers),
                timesnapshot: Some(self.timedata),
                next_update,
            },
        )
    }
}

/// The frequency magnitude a slew of `change` uses: the change spread
/// over at least the minimum slew duration, capped at the maximum slew
/// frequency, and at least one raw unit.
pub open spec fn spec_slew_freq(algo: AlgorithmConfig, change: int) -> int {
    let change_abs = if change >= 0 {
        change
    } else {
        -change
    };
    let rate = crate::fixed::s_div(change_abs, algo.slew_min_duration as int);
    let capped = if rate < algo.slew_max_frequency_offset {
        rate
    } else {
        algo.slew_max_frequency_offset as int
    };
    if capped < 1 {
        1
    } else {
        capped
    }
}

/// The desired frequency a slew of `change` sets: the slew rate directed
/// against the sign of the change.
pub open spec fn spec_slew_desired_freq(algo: AlgorithmConfig, change: int) -> int {
    if change >= 0 {
        -spec_slew_freq(algo, change)
    } else {
        spec_slew_freq(algo, change)
    }
}

/// How long a slew of `change` runs: the change divided by the slew
/// frequency.
pub open spec fn spec_slew_duration(algo: AlgorithmConfig, change: int) -> int {
    let change_abs = if change >= 0 {
        change
    } else {
        -change
    };
    crate::fixed::s_div(change_abs, spec_slew_freq(algo, change))
}

/// Adding a fresh peer and removing it again returns the peer table to
/// exactly its prior state, for any id not already in the table.
pub proof fn lemma_peer_add_remove_roundtrip(s: Seq<PeerEntry>, id: u64)
    requires
        forall|t: int| 0 <= t < s.len() ==> (#[trigger] s[t]).id != id,
    ensures
        spec_remove_entries(
            spec_remove_entries(s, id).push(
                PeerEntry { id, state: PeerState::spec_new(), usable: false },
            ),
            id,
        ) =~= s,
{
    let removed = spec_remove_entries(s, id);
    lemma_remove_absent(s, id);
    assert(removed == s);
    let entry = PeerEntry { id, state: PeerState::spec_new(), usable: false };
    let added = removed.push(entry);
    assert(added.drop_last() =~= removed);
    assert(added.drop_last() == removed);
    assert(added.last().id == id);
    assert(spec_remove_entries(added, id) == spec_remove_entries(removed, id));
}

/// Removing an id that no row carries changes nothing.
proof fn lemma_remove_absent(s: Seq<PeerEntry>, id: u64)
    requires
        forall|t: int| 0 <= t < s.len() ==> (#[trigger] s[t]).id != id,
    ensures
        spec_remove_entries(s, id) =~= s,
    decreases s.len(),
{
    if s.len() > 0 {
        assert(forall|t: int|
            0 <= t < s.drop_last().len() ==> (#[trigger] s.drop_last()[t]).id != id);
        lemma_remove_absent(s.drop_last(), id);
        assert(s[s.len() - 1].id != id);
        assert(spec_remove_entries(s, id) =~= s.drop_last().push(s.last()));
        assert(s.drop_last().push(s.last()) =~= s);
    }
}

/// Setting a peer's usable flag twice is the same as setting it once.
pub proof fn lemma_peer_update_idempotent(s: Seq<PeerEntry>, id: u64, usable: bool)
    ensures
        spec_set_usable(spec_set_usable(s, id, usable), id, usable) =~= spec_set_usable(
            s,
            id,
            usable,
        ),
{
    let once = spec_set_usable(s, id, usable);
    assert forall|t: int| 0 <= t < once.len() implies #[trigger] spec_set_usable(
        once,
        id,
        usable,
    )[t] == once[t] by {
    }
}

} // verus!
