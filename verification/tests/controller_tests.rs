use std::cell::RefCell;
use std::rc::Rc;

use ntp_proto::clock::{ClockError, FatalError, NtpClock};
use ntp_proto::config::{AlgorithmConfig, SystemConfig};
use ntp_proto::controller::KalmanClockController;
use ntp_proto::filter::Measurement;
use ntp_proto::fixed::fsqrt;
use ntp_proto::packet::{NtpHeader, NtpLeapIndicator};
use ntp_proto::time::{NtpDuration, NtpTimestamp};

const ONE: i64 = 0x1_0000_0000;
const T0: u64 = 1000 << 32;

#[derive(Default)]
struct Recorded {
    steps: Vec<i64>,
    freqs: Vec<i64>,
    statuses: Vec<NtpLeapIndicator>,
}

struct FakeClock {
    now: u64,
    recorded: Rc<RefCell<Recorded>>,
}

impl NtpClock for FakeClock {
    fn now(&self) -> Result<NtpTimestamp, ClockError> {
        Ok(NtpTimestamp::from_fixed_int(self.now))
    }

    fn set_frequency(&self, freq: i64) -> Result<(), ClockError> {
        self.recorded.borrow_mut().freqs.push(freq);
        Ok(())
    }

    fn step_clock(&self, offset: NtpDuration) -> Result<(), ClockError> {
        self.recorded.borrow_mut().steps.push(offset.raw);
        Ok(())
    }

    fn error_estimate_update(
        &self,
        _dispersion: NtpDuration,
        _delay: NtpDuration,
    ) -> Result<(), ClockError> {
        Ok(())
    }

    fn status_update(&self, leap: NtpLeapIndicator) -> Result<(), ClockError> {
        self.recorded.borrow_mut().statuses.push(leap);
        Ok(())
    }

    fn disable_ntp_algorithm(&self) -> Result<(), ClockError> {
        Ok(())
    }
}

fn test_algo() -> AlgorithmConfig {
    AlgorithmConfig {
        minimum_agreeing_peers: 1,
        jump_threshold: 549755813, // about 0.128 seconds
        slew_max_frequency_offset: 858993, // about 200 ppm
        slew_min_duration: 100 * ONE,
        initial_offset_variance: 4295, // about (1 ms)^2
        initial_frequency_variance: 4295,
        ..Default::default()
    }
}

fn controller(
    algo: AlgorithmConfig,
    config: SystemConfig,
) -> (KalmanClockController<FakeClock>, Rc<RefCell<Recorded>>) {
    let recorded = Rc::new(RefCell::new(Recorded::default()));
    let clock = FakeClock { now: T0, recorded: Rc::clone(&recorded) };
    let c = KalmanClockController::new(clock, config, algo).unwrap();
    (c, recorded)
}

fn measurement(offset: i64, t: u64) -> (Measurement, NtpHeader) {
    let m = Measurement {
        delay: NtpDuration::from_fixed_int(0),
        offset: NtpDuration::from_fixed_int(offset),
        localtime: NtpTimestamp::from_fixed_int(t),
    };
    let mut packet = NtpHeader::new();
    packet.stratum = 2;
    packet.leap = NtpLeapIndicator::NoWarning;
    (m, packet)
}

#[test]
fn new_controller_initializes_clock() {
    let (c, recorded) = controller(test_algo(), SystemConfig::default());
    let r = recorded.borrow();
    // the clock frequency is reset on startup and the status is unknown
    assert_eq!(r.freqs, vec![0]);
    assert_eq!(r.statuses, vec![NtpLeapIndicator::Unknown]);
    assert_eq!(c.freq_offset, 0);
    assert_eq!(c.desired_freq, 0);
}

#[test]
fn measurement_before_startup_is_dropped() {
    let (mut c, recorded) = controller(test_algo(), SystemConfig::default());
    c.peer_add(1);
    c.peer_update(1, true);
    // taken before the controller started: ignored entirely
    let (m, packet) = measurement(ONE, 500 << 32);
    let update = c.peer_measurement(1, m, packet).unwrap();
    assert!(update.used_peers.is_none());
    assert!(update.next_update.is_none());
    assert!(c.peer_snapshot(1).is_none());
    assert!(recorded.borrow().steps.is_empty());
}

#[test]
fn unusable_peer_never_updates_clock() {
    let (mut c, recorded) = controller(test_algo(), SystemConfig::default());
    c.peer_add(1);
    // peer never marked usable
    let (m, packet) = measurement(ONE, T0 + (16 << 32));
    let update = c.peer_measurement(1, m, packet).unwrap();
    assert!(update.used_peers.is_none());
    assert!(recorded.borrow().steps.is_empty());
    // the filter still absorbed the measurement
    assert!(c.peer_snapshot(1).is_some());
}

#[test]
fn large_offset_jumps_clock() {
    let (mut c, recorded) = controller(test_algo(), SystemConfig::default());
    c.peer_add(1);
    c.peer_update(1, true);
    let (m, packet) = measurement(ONE, T0 + (16 << 32));
    let update = c.peer_measurement(1, m, packet).unwrap();

    let r = recorded.borrow();
    // a consensus offset of one second is far above the jump threshold:
    // the clock is stepped once by roughly that much
    assert_eq!(r.steps.len(), 1);
    assert!((r.steps[0] - ONE).abs() < ONE / 16);
    // a jump schedules no slew end
    assert!(update.next_update.is_none());
    assert_eq!(update.used_peers, Some(vec![1]));
    assert_eq!(c.desired_freq, 0);
    // the peer filter's offset estimate was shifted along
    let snap = c.peer_snapshot(1).unwrap();
    assert!(snap.offset.raw.abs() < ONE / 64);
}

#[test]
fn small_offset_slews_clock() {
    let (mut c, recorded) = controller(test_algo(), SystemConfig::default());
    c.peer_add(1);
    c.peer_update(1, true);
    let offset = 42949672; // about 10 milliseconds
    let (m, packet) = measurement(offset, T0 + (16 << 32));
    let update = c.peer_measurement(1, m, packet).unwrap();

    let r = recorded.borrow();
    // no step: the offset is below the jump threshold
    assert!(r.steps.is_empty());
    // the slew runs against the offset at the computed rate
    let sigma = fsqrt(test_algo().initial_offset_variance);
    let amount = offset - sigma;
    let expected_rate = (((amount as i128) << 32) / ((100 * ONE) as i128)) as i64;
    assert_eq!(c.desired_freq, -expected_rate);
    // the slew end is scheduled about 100 seconds out
    let next = update.next_update.unwrap();
    let horizon = (T0 + (100 << 32)) as i128;
    assert!(((next.raw as i128) - horizon).abs() < (ONE / 4) as i128);
    // the frequency was pushed to the clock: once at startup, once now
    assert_eq!(r.freqs.len(), 2);
}

#[test]
fn no_offset_steer_during_slew() {
    let algo = AlgorithmConfig {
        steer_frequency_threshold: 0,
        steer_frequency_leftover: 0,
        ..test_algo()
    };
    let (mut c, recorded) = controller(algo, SystemConfig::default());
    c.peer_add(1);
    c.peer_update(1, true);
    // start a slew with a small offset
    let (m, packet) = measurement(42949672, T0 + (16 << 32));
    c.peer_measurement(1, m, packet).unwrap();
    let slewing = c.desired_freq;
    assert!(slewing != 0);
    let freq_pushes = recorded.borrow().freqs.len();

    // a second measurement with a huge offset arrives while slewing
    let (m, packet) = measurement(ONE, T0 + (32 << 32));
    let update = c.peer_measurement(1, m, packet).unwrap();

    let r = recorded.borrow();
    // the frequency residual was steered, but no offset steer was issued
    assert!(r.freqs.len() > freq_pushes);
    assert!(r.steps.is_empty());
    assert!(update.next_update.is_none());
    assert_eq!(c.desired_freq, slewing);
}

#[test]
fn time_update_ends_slew() {
    let (mut c, _recorded) = controller(test_algo(), SystemConfig::default());
    c.peer_add(1);
    c.peer_update(1, true);
    let (m, packet) = measurement(42949672, T0 + (16 << 32));
    c.peer_measurement(1, m, packet).unwrap();
    assert!(c.desired_freq != 0);

    let update = c.time_update().unwrap();
    assert_eq!(c.desired_freq, 0);
    assert!(update.used_peers.is_none());
    assert!(update.next_update.is_none());
}

#[test]
fn panic_threshold_is_fatal() {
    let config = SystemConfig {
        panic_threshold: ntp_proto::config::StepThreshold {
            forward: Some(NtpDuration::from_fixed_int(ONE)),
            backward: Some(NtpDuration::from_fixed_int(ONE)),
        },
        ..Default::default()
    };
    let (mut c, recorded) = controller(test_algo(), config);
    c.peer_add(1);
    c.peer_update(1, true);
    // a ten-second offset with a one-second panic threshold must be fatal
    let offset = 10 * ONE;
    let (m, packet) = measurement(offset, T0 + (16 << 32));
    let result = c.peer_measurement(1, m, packet);
    assert_eq!(result.unwrap_err(), FatalError::StepLimit);
    // the clock was never stepped and the peer state not mutated further
    assert!(recorded.borrow().steps.is_empty());
    let snap = c.peer_snapshot(1).unwrap();
    assert_eq!(snap.offset.raw, offset);
}

#[test]
fn frequency_composition_is_multiplicative() {
    let (mut c, _recorded) = controller(test_algo(), SystemConfig::default());
    c.peer_add(1);
    c.peer_update(1, true);
    // start a slew, then end it: the two adjustments compose
    // multiplicatively into the running frequency correction
    let (m, packet) = measurement(42949672, T0 + (16 << 32));
    c.peer_measurement(1, m, packet).unwrap();
    let after_start = c.freq_offset;
    let slewing = c.desired_freq;
    c.time_update().unwrap();
    let expected = after_start as i128 + slewing as i128
        + ((after_start as i128) * (slewing as i128)) / (ONE as i128) - 1;
    // a + b + floor(a * b / scale) can be off by the floor's unit
    assert!((c.freq_offset as i128 - expected).abs() <= 1);
}

#[test]
fn peer_add_remove_roundtrip() {
    let (mut c, _recorded) = controller(test_algo(), SystemConfig::default());
    c.peer_add(3);
    c.peer_update(3, true);
    let (m, packet) = measurement(ONE / 16, T0 + (16 << 32));
    c.peer_measurement(3, m, packet).unwrap();
    let before = c.peer_snapshot(3);

    // adding a fresh peer and removing it leaves the table as it was
    c.peer_add(5);
    c.peer_remove(5);
    assert!(c.peer_snapshot(5).is_none());
    assert_eq!(c.peer_snapshot(3), before);
}

#[test]
fn peer_update_is_idempotent() {
    let (mut c, recorded) = controller(test_algo(), SystemConfig::default());
    c.peer_add(1);
    c.peer_update(1, true);
    c.peer_update(1, true);
    let (m, packet) = measurement(ONE, T0 + (16 << 32));
    let update = c.peer_measurement(1, m, packet).unwrap();
    // the doubly-marked peer behaves exactly like a singly-marked one
    assert_eq!(update.used_peers, Some(vec![1]));
    assert_eq!(recorded.borrow().steps.len(), 1);
}

#[test]
fn removed_peer_is_gone() {
    let (mut c, _recorded) = controller(test_algo(), SystemConfig::default());
    c.peer_add(1);
    c.peer_update(1, true);
    let (m, packet) = measurement(ONE / 16, T0 + (16 << 32));
    c.peer_measurement(1, m, packet).unwrap();
    assert!(c.peer_snapshot(1).is_some());
    c.peer_remove(1);
    assert!(c.peer_snapshot(1).is_none());
    // a measurement for an unknown peer does nothing
    let (m, packet) = measurement(ONE / 16, T0 + (32 << 32));
    let update = c.peer_measurement(1, m, packet).unwrap();
    assert!(update.used_peers.is_none());
}

struct BrokenClock;

impl NtpClock for BrokenClock {
    fn now(&self) -> Result<NtpTimestamp, ClockError> {
        Err(ClockError)
    }

    fn set_frequency(&self, _freq: i64) -> Result<(), ClockError> {
        Err(ClockError)
    }

    fn step_clock(&self, _offset: NtpDuration) -> Result<(), ClockError> {
        Err(ClockError)
    }

    fn error_estimate_update(
        &self,
        _dispersion: NtpDuration,
        _delay: NtpDuration,
    ) -> Result<(), ClockError> {
        Err(ClockError)
    }

    fn status_update(&self, _leap: NtpLeapIndicator) -> Result<(), ClockError> {
        Err(ClockError)
    }

    fn disable_ntp_algorithm(&self) -> Result<(), ClockError> {
        Err(ClockError)
    }
}

#[test]
fn clock_failure_is_fatal() {
    let result = KalmanClockController::new(BrokenClock, SystemConfig::default(), test_algo());
    match result {
        Ok(_) => panic!("a controller on a broken clock must not come up"),
        Err(error) => assert_eq!(error, FatalError::ClockAccess),
    }
}

#[test]
fn accumulated_steps_threshold_is_fatal() {
    let config = SystemConfig {
        accumulated_threshold: Some(NtpDuration::from_fixed_int(3 * ONE / 2)),
        ..Default::default()
    };
    let (mut c, recorded) = controller(test_algo(), config);
    c.peer_add(1);
    c.peer_update(1, true);
    // a first one-second step stays below the accumulated limit
    let (m, packet) = measurement(ONE, T0 + (16 << 32));
    assert!(c.peer_measurement(1, m, packet).is_ok());
    assert_eq!(recorded.borrow().steps.len(), 1);
    // a second step of the same size pushes the accumulated total over it
    let (m, packet) = measurement(ONE, T0 + (32 << 32));
    let result = c.peer_measurement(1, m, packet);
    assert_eq!(result.unwrap_err(), FatalError::StepLimit);
    assert_eq!(recorded.borrow().steps.len(), 1);
}
