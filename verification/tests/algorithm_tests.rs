use ntp_proto::combine::{combine, vote_leap};
use ntp_proto::config::AlgorithmConfig;
use ntp_proto::filter::{KalmanSnapshot, Measurement, PeerState};
use ntp_proto::fixed::{fmul, fsqrt, SCALE};
use ntp_proto::matrix::{Matrix, Vector};
use ntp_proto::packet::{NtpHeader, NtpLeapIndicator};
use ntp_proto::select::select;
use ntp_proto::time::{NtpDuration, NtpTimestamp};

const ONE: i64 = SCALE;

fn snapshot(index: u64, offset: i64, dispersion: i64, leap: NtpLeapIndicator) -> KalmanSnapshot {
    KalmanSnapshot {
        index,
        state: Vector { e0: offset, e1: 0 },
        uncertainty: Matrix {
            e00: ONE / 1024,
            e01: 0,
            e10: 0,
            e11: ONE / 1024,
        },
        delay: ONE / 16,
        peer_uncertainty: NtpDuration::from_fixed_int(dispersion),
        peer_delay: NtpDuration::from_fixed_int(ONE / 8),
        leap_indicator: leap,
        last_update: NtpTimestamp::from_fixed_int(0),
    }
}

#[test]
fn leap_vote_majority() {
    let majority = vec![
        snapshot(0, 0, 0, NtpLeapIndicator::NoWarning),
        snapshot(1, 0, 0, NtpLeapIndicator::NoWarning),
        snapshot(2, 0, 0, NtpLeapIndicator::Leap61),
    ];
    assert_eq!(vote_leap(&majority), Some(NtpLeapIndicator::NoWarning));

    let split = vec![
        snapshot(0, 0, 0, NtpLeapIndicator::NoWarning),
        snapshot(1, 0, 0, NtpLeapIndicator::Leap61),
        snapshot(2, 0, 0, NtpLeapIndicator::Leap59),
    ];
    assert_eq!(vote_leap(&split), None);

    let leap59 = vec![
        snapshot(0, 0, 0, NtpLeapIndicator::Leap59),
        snapshot(1, 0, 0, NtpLeapIndicator::Leap59),
        snapshot(2, 0, 0, NtpLeapIndicator::NoWarning),
    ];
    assert_eq!(vote_leap(&leap59), Some(NtpLeapIndicator::Leap59));

    let empty: Vec<KalmanSnapshot> = Vec::new();
    assert_eq!(vote_leap(&empty), None);
}

#[test]
fn combine_empty_is_none() {
    let empty: Vec<KalmanSnapshot> = Vec::new();
    assert!(combine(&empty).is_none());
}

#[test]
fn combine_singleton_keeps_estimate() {
    // a singleton selection is returned unchanged in mean; the
    // uncertainty is inflated by the square of the reported dispersion
    let dispersion = ONE / 256;
    let s = snapshot(7, ONE / 2, dispersion, NtpLeapIndicator::NoWarning);
    let combined = combine(&vec![s]).unwrap();
    assert_eq!(combined.estimate.e0, ONE / 2);
    assert_eq!(combined.estimate.e1, 0);
    assert_eq!(
        combined.uncertainty.e00,
        s.uncertainty.e00 + fmul(dispersion, dispersion)
    );
    assert_eq!(combined.uncertainty.e11, s.uncertainty.e11);
    assert_eq!(combined.peers, vec![7]);
    // delay is the sum of smoothed and remote delay
    assert_eq!(combined.delay, NtpDuration::from_fixed_int(ONE / 16 + ONE / 8));
    assert_eq!(combined.leap_indicator, Some(NtpLeapIndicator::NoWarning));
}

#[test]
fn combine_orders_peers_by_quality() {
    let mut better = snapshot(1, 0, 0, NtpLeapIndicator::NoWarning);
    better.uncertainty = Matrix { e00: ONE / 4096, e01: 0, e10: 0, e11: ONE / 4096 };
    let worse = snapshot(2, 0, 0, NtpLeapIndicator::NoWarning);
    // the worse peer comes first in the selection but last in the result
    let combined = combine(&vec![worse, better]).unwrap();
    assert_eq!(combined.peers, vec![1, 2]);
}

#[test]
fn combine_pulls_towards_second_peer() {
    let a = snapshot(1, 0, 0, NtpLeapIndicator::NoWarning);
    let b = snapshot(2, ONE, 0, NtpLeapIndicator::NoWarning);
    let combined = combine(&vec![a, b]).unwrap();
    // equal uncertainties: the combination lies strictly between the two
    assert!(combined.estimate.e0 > 0);
    assert!(combined.estimate.e0 < ONE);
}

fn algo_for_select() -> AlgorithmConfig {
    AlgorithmConfig {
        minimum_agreeing_peers: 3,
        ..Default::default()
    }
}

#[test]
fn select_drops_outlier() {
    // three peers agree near zero, one claims a second of offset
    let agreeing1 = snapshot(1, 0, 0, NtpLeapIndicator::NoWarning);
    let agreeing2 = snapshot(2, ONE / 2048, 0, NtpLeapIndicator::NoWarning);
    let agreeing3 = snapshot(3, -ONE / 2048, 0, NtpLeapIndicator::NoWarning);
    let outlier = snapshot(4, ONE, 0, NtpLeapIndicator::NoWarning);

    let selected = select(
        &algo_for_select(),
        vec![agreeing1, agreeing2, agreeing3, outlier],
    );
    let ids: Vec<u64> = selected.iter().map(|s| s.index).collect();
    assert_eq!(ids, vec![1, 2, 3]);
}

#[test]
fn select_below_minimum_is_empty() {
    // two agreeing peers are not enough when three are required
    let a = snapshot(1, 0, 0, NtpLeapIndicator::NoWarning);
    let b = snapshot(2, 0, 0, NtpLeapIndicator::NoWarning);
    let selected = select(&algo_for_select(), vec![a, b]);
    assert!(selected.is_empty());
}

#[test]
fn select_empty_input_is_empty() {
    let selected = select(&algo_for_select(), Vec::new());
    assert!(selected.is_empty());
}

#[test]
fn fixed_point_square_root_exact() {
    // sqrt of 4 seconds squared is 2 seconds
    assert_eq!(fsqrt(4 * ONE), 2 * ONE);
    // sqrt of zero is zero
    assert_eq!(fsqrt(0), 0);
}

fn test_measurement(offset: i64, t: u64) -> (Measurement, NtpHeader) {
    let m = Measurement {
        delay: NtpDuration::from_fixed_int(ONE / 64),
        offset: NtpDuration::from_fixed_int(offset),
        localtime: NtpTimestamp::from_fixed_int(t),
    };
    let mut packet = NtpHeader::new();
    packet.stratum = 2;
    packet.leap = NtpLeapIndicator::NoWarning;
    packet.root_delay = NtpDuration::from_fixed_int(ONE / 32);
    packet.root_dispersion = NtpDuration::from_fixed_int(ONE / 128);
    (m, packet)
}

#[test]
fn filter_initializes_from_first_measurement() {
    let algo = AlgorithmConfig::default();
    let mut state = PeerState::new();
    assert!(state.get_filtertime().is_none());
    assert!(state.snapshot(1).is_none());

    let (m, packet) = test_measurement(ONE / 2, 100 << 32);
    assert!(state.update(&algo, m, packet));
    assert_eq!(
        state.get_filtertime(),
        Some(NtpTimestamp::from_fixed_int(100 << 32))
    );
    let snap = state.snapshot(1).unwrap();
    assert_eq!(snap.state.e0, ONE / 2);
    assert_eq!(snap.state.e1, 0);
    assert_eq!(snap.uncertainty.e00, algo.initial_offset_variance);
}

#[test]
fn filter_rejects_stale_measurement() {
    let algo = AlgorithmConfig::default();
    let mut state = PeerState::new();
    let (m, packet) = test_measurement(ONE / 2, 100 << 32);
    assert!(state.update(&algo, m, packet));
    // an older measurement is rejected and changes nothing
    let (old_m, old_packet) = test_measurement(ONE, 50 << 32);
    assert!(!state.update(&algo, old_m, old_packet));
    let snap = state.snapshot(1).unwrap();
    assert_eq!(snap.state.e0, ONE / 2);
}

#[test]
fn filter_covariance_stays_positive_semidefinite() {
    let algo = AlgorithmConfig::default();
    let mut state = PeerState::new();
    let mut t: u64 = 100;
    let (m, packet) = test_measurement(ONE / 2, t << 32);
    state.update(&algo, m, packet);
    for step in 0..20 {
        t += 16;
        let wobble = if step % 2 == 0 { ONE / 512 } else { -(ONE / 512) };
        let (m, packet) = test_measurement(ONE / 2 + wobble, t << 32);
        assert!(state.update(&algo, m, packet));
        let snap = state.snapshot(1).unwrap();
        let p = snap.uncertainty;
        assert!(p.e00 >= 0);
        assert!(p.e11 >= 0);
        assert_eq!(p.e01, p.e10);
        assert!((p.e01 as i128) * (p.e01 as i128) <= (p.e00 as i128) * (p.e11 as i128));
    }
}

#[test]
fn filter_measurements_pull_offset_towards_observation() {
    let algo = AlgorithmConfig::default();
    let mut state = PeerState::new();
    let (m, packet) = test_measurement(0, 100 << 32);
    state.update(&algo, m, packet);
    // repeated measurements at one second pull the estimate up
    let mut t: u64 = 100;
    for _ in 0..10 {
        t += 16;
        let (m, packet) = test_measurement(ONE, t << 32);
        assert!(state.update(&algo, m, packet));
    }
    let snap = state.snapshot(1).unwrap();
    assert!(snap.state.e0 > ONE / 2);
    assert!(snap.state.e0 <= ONE);
}

#[test]
fn filter_offset_steering_shifts_estimate() {
    let algo = AlgorithmConfig::default();
    let mut state = PeerState::new();
    let (m, packet) = test_measurement(ONE / 2, 100 << 32);
    state.update(&algo, m, packet);
    state.process_offset_steering(ONE / 4);
    let snap = state.snapshot(1).unwrap();
    assert_eq!(snap.state.e0, ONE / 2 - ONE / 4);
}

#[test]
fn filter_frequency_steering_shifts_frequency() {
    let algo = AlgorithmConfig::default();
    let mut state = PeerState::new();
    let (m, packet) = test_measurement(ONE / 2, 100 << 32);
    state.update(&algo, m, packet);
    let change = 4295; // about one part per million
    state.process_frequency_steering(NtpTimestamp::from_fixed_int(100 << 32), change, &algo);
    let snap = state.snapshot(1).unwrap();
    assert_eq!(snap.state.e1, -change);
}

#[test]
fn filter_unknown_leap_yields_no_snapshot() {
    let algo = AlgorithmConfig::default();
    let mut state = PeerState::new();
    let (m, mut packet) = test_measurement(ONE / 2, 100 << 32);
    packet.leap = NtpLeapIndicator::Unknown;
    assert!(state.update(&algo, m, packet));
    assert!(state.snapshot(1).is_none());
}
