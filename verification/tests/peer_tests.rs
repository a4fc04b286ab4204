use ntp_proto::packet::{NtpAssociationMode, NtpHeader, NtpLeapIndicator, ReferenceId};
use ntp_proto::peer::{
    max_distance, multiply_by_phi, AcceptSynchronizationError, IgnoreReason, Peer, PeerStatistics,
    Reach,
};
use ntp_proto::time::{NtpDuration, NtpTimestamp};

#[test]
fn test_root_duration_sanity() {
    // Ensure root distance at least increases as it is supposed to
    // when changing the main measurement parameters

    let duration_1s = NtpDuration::from_fixed_int(1_0000_0000);
    let duration_2s = NtpDuration::from_fixed_int(2_0000_0000);

    let timestamp_1s = NtpTimestamp::from_fixed_int(1_0000_0000);
    let timestamp_2s = NtpTimestamp::from_fixed_int(2_0000_0000);

    let mut packet = NtpHeader::new();
    packet.root_delay = duration_1s;
    packet.root_dispersion = duration_1s;
    let reference = Peer {
        statistics: PeerStatistics {
            delay: duration_1s,
            dispersion: duration_1s,
            ..Default::default()
        },
        last_packet: packet,
        time: timestamp_1s,
        ..Peer::test_peer()
    };

    assert!(reference.root_distance(timestamp_1s) < reference.root_distance(timestamp_2s));

    let sample = Peer {
        statistics: PeerStatistics {
            delay: duration_2s,
            dispersion: duration_1s,
            ..Default::default()
        },
        last_packet: packet,
        time: timestamp_1s,
        ..Peer::test_peer()
    };
    assert!(reference.root_distance(timestamp_1s) < sample.root_distance(timestamp_1s));

    let sample = Peer {
        statistics: PeerStatistics {
            delay: duration_1s,
            dispersion: duration_2s,
            ..Default::default()
        },
        last_packet: packet,
        time: timestamp_1s,
        ..Peer::test_peer()
    };
    assert!(reference.root_distance(timestamp_1s) < sample.root_distance(timestamp_1s));

    let sample = Peer {
        statistics: PeerStatistics {
            delay: duration_1s,
            dispersion: duration_1s,
            ..Default::default()
        },
        last_packet: packet,
        time: NtpTimestamp::from_fixed_int(0),
        ..Peer::test_peer()
    };
    assert!(reference.root_distance(timestamp_1s) < sample.root_distance(timestamp_1s));

    packet.root_delay = duration_2s;
    let sample = Peer {
        statistics: PeerStatistics {
            delay: duration_1s,
            dispersion: duration_1s,
            ..Default::default()
        },
        last_packet: packet,
        time: timestamp_1s,
        ..Peer::test_peer()
    };
    packet.root_delay = duration_1s;
    assert!(reference.root_distance(timestamp_1s) < sample.root_distance(timestamp_1s));

    packet.root_dispersion = duration_2s;
    let sample = Peer {
        statistics: PeerStatistics {
            delay: duration_1s,
            dispersion: duration_1s,
            ..Default::default()
        },
        last_packet: packet,
        time: timestamp_1s,
        ..Peer::test_peer()
    };
    packet.root_dispersion = duration_1s;
    assert!(reference.root_distance(timestamp_1s) < sample.root_distance(timestamp_1s));

    let sample = Peer {
        statistics: PeerStatistics {
            delay: duration_1s,
            dispersion: duration_1s,
            ..Default::default()
        },
        last_packet: packet,
        time: timestamp_1s,
        ..Peer::test_peer()
    };

    assert_eq!(
        reference.root_distance(timestamp_1s),
        sample.root_distance(timestamp_1s)
    );
}

#[test]
fn reachability() {
    let mut reach = Reach::default();

    // the default reach register value is 0, and hence not reachable
    assert!(!reach.is_reachable());

    // when we receive a packet, we set the right-most bit;
    // we just received a packet from the peer, so it is reachable
    reach.received_packet();
    assert!(reach.is_reachable());

    // on every poll, the register is shifted to the left, and there are
    // 8 bits. So we can poll 7 times and the peer is still considered reachable
    for _ in 0..7 {
        reach.poll();
    }

    assert!(reach.is_reachable());

    // but one more poll and all 1 bits have been shifted out;
    // the peer is no longer reachable
    reach.poll();
    assert!(!reach.is_reachable());

    // until we receive a packet from it again
    reach.received_packet();
    assert!(reach.is_reachable());
}

#[test]
fn test_accept_synchronization() {
    let local_clock_time = NtpTimestamp::zero();
    let system_poll = NtpDuration::zero();

    let mut peer = Peer::test_peer();

    // by default, the packet id and the peer's id are the same, indicating a loop
    assert_eq!(
        peer.accept_synchronization(local_clock_time, system_poll),
        Err(AcceptSynchronizationError::Loop)
    );

    peer.our_id = ReferenceId::from_int(42);

    assert_eq!(
        peer.accept_synchronization(local_clock_time, system_poll),
        Err(AcceptSynchronizationError::ServerUnreachable)
    );

    peer.reach.received_packet();

    assert_eq!(
        peer.accept_synchronization(local_clock_time, system_poll),
        Ok(())
    );

    peer.last_packet.leap = NtpLeapIndicator::Unknown;
    assert_eq!(
        peer.accept_synchronization(local_clock_time, system_poll),
        Err(AcceptSynchronizationError::Stratum)
    );

    peer.last_packet.leap = NtpLeapIndicator::NoWarning;
    peer.last_packet.stratum = 42;
    assert_eq!(
        peer.accept_synchronization(local_clock_time, system_poll),
        Err(AcceptSynchronizationError::Stratum)
    );

    peer.last_packet.stratum = 0;

    peer.last_packet.root_dispersion = max_distance().times(2);
    assert_eq!(
        peer.accept_synchronization(local_clock_time, system_poll),
        Err(AcceptSynchronizationError::Distance)
    );
}

#[test]
fn distance_boundary_is_sharp() {
    // a peer whose root distance is exactly MAX_DISTANCE + phi * system_poll
    // is accepted; one raw unit more is rejected with Distance
    let mut peer = Peer::test_peer();
    peer.our_id = ReferenceId::from_int(42);
    peer.reach.received_packet();
    // max(MIN_DISPERSION, root_delay + delay) / 2 == 1 s exactly
    peer.last_packet.root_delay = NtpDuration::from_fixed_int(0x1_0000_0000);
    peer.statistics.delay = NtpDuration::from_fixed_int(0x1_0000_0000);

    let local_clock_time = NtpTimestamp::zero();
    let system_poll = NtpDuration::zero();
    assert_eq!(
        peer.accept_synchronization(local_clock_time, system_poll),
        Ok(())
    );

    peer.last_packet.root_dispersion = NtpDuration::from_fixed_int(1);
    assert_eq!(
        peer.accept_synchronization(local_clock_time, system_poll),
        Err(AcceptSynchronizationError::Distance)
    );
}

#[test]
fn multiply_by_phi_exact_value() {
    // one second scaled by 15 ppm: (2^32 * 15) / 1_000_000, truncated
    let one_second = NtpDuration::from_fixed_int(0x1_0000_0000);
    assert_eq!(multiply_by_phi(one_second), NtpDuration::from_fixed_int(64424));
    // the truncation rounds towards zero for negative durations too
    let minus_one_second = NtpDuration::from_fixed_int(-0x1_0000_0000);
    assert_eq!(
        multiply_by_phi(minus_one_second),
        NtpDuration::from_fixed_int(-64424)
    );
}

fn poll_response(peer: &mut Peer, t: NtpTimestamp) -> NtpHeader {
    let poll = peer.generate_poll_message(t);
    let mut response = NtpHeader::new();
    response.mode = NtpAssociationMode::Server;
    response.origin_timestamp = poll.transmit_timestamp;
    response.stratum = 2;
    response.leap = NtpLeapIndicator::NoWarning;
    response
}

#[test]
fn handle_incoming_rejections() {
    let t0 = NtpTimestamp::from_fixed_int(10_0000_0000);
    let mut peer = Peer::new(
        ReferenceId::from_int(42),
        ReferenceId::from_int(7),
        t0,
    );

    // a client-mode packet is not a valid response
    let mut wrong_mode = NtpHeader::new();
    wrong_mode.mode = NtpAssociationMode::Client;
    assert!(matches!(
        peer.handle_incoming(wrong_mode, t0),
        Err(IgnoreReason::InvalidMode)
    ));

    // a server packet that answers a poll we never sent is rejected
    let mut unexpected = NtpHeader::new();
    unexpected.mode = NtpAssociationMode::Server;
    unexpected.origin_timestamp = NtpTimestamp::from_fixed_int(1234);
    assert!(matches!(
        peer.handle_incoming(unexpected, t0),
        Err(IgnoreReason::InvalidPacketTime)
    ));

    // a kiss-of-death rate packet ratchets the poll floor and is dropped
    let t1 = NtpTimestamp::from_fixed_int(11_0000_0000);
    let mut kiss = poll_response(&mut peer, t1);
    kiss.stratum = 0;
    kiss.reference_id = ReferenceId::kiss_rate();
    let floor_before = peer.remote_min_poll_interval;
    assert!(matches!(
        peer.handle_incoming(kiss, t1),
        Err(IgnoreReason::Kiss)
    ));
    assert!(peer.remote_min_poll_interval > floor_before);

    // any other kiss packet is dropped silently, leaving the peer as it
    // was: the outstanding poll is not consumed
    let t2 = NtpTimestamp::from_fixed_int(12_0000_0000);
    let mut other_kiss = poll_response(&mut peer, t2);
    other_kiss.stratum = 0;
    let stats_before = peer.statistics;
    assert!(matches!(
        peer.handle_incoming(other_kiss, t2),
        Err(IgnoreReason::Kiss)
    ));
    assert_eq!(peer.statistics, stats_before);

    // a genuine response to that same poll is therefore still accepted
    let mut real = NtpHeader::new();
    real.mode = NtpAssociationMode::Server;
    real.origin_timestamp = other_kiss.origin_timestamp;
    real.stratum = 2;
    real.transmit_timestamp = NtpTimestamp::from_fixed_int(12_2000_0000);
    assert!(peer
        .handle_incoming(real, NtpTimestamp::from_fixed_int(12_5000_0000))
        .is_ok());

    // a response older than the peer's filter time is too old
    let t3 = NtpTimestamp::from_fixed_int(13_0000_0000);
    let stale = poll_response(&mut peer, t3);
    let before = NtpTimestamp::from_fixed_int(9_0000_0000);
    assert!(matches!(
        peer.handle_incoming(stale, before),
        Err(IgnoreReason::TooOld)
    ));
}

#[test]
fn handle_incoming_accepts_fresh_response() {
    let t0 = NtpTimestamp::from_fixed_int(10_0000_0000);
    let mut peer = Peer::new(
        ReferenceId::from_int(42),
        ReferenceId::from_int(7),
        t0,
    );

    let t1 = NtpTimestamp::from_fixed_int(11_0000_0000);
    let mut response = poll_response(&mut peer, t1);
    response.transmit_timestamp = NtpTimestamp::from_fixed_int(11_5000_0000);

    let recv = NtpTimestamp::from_fixed_int(12_0000_0000);
    let snapshot = peer.handle_incoming(response, recv).unwrap();

    assert!(peer.reach.is_reachable());
    assert_eq!(snapshot.stratum, 2);
    assert_eq!(snapshot.time, recv);
    // offset is the remote clock read against the receive time
    assert_eq!(
        snapshot.statistics.offset,
        NtpDuration::from_fixed_int(11_5000_0000 - 12_0000_0000)
    );
}

#[test]
fn get_interval_next_poll_backs_off() {
    let mut peer = Peer::test_peer();
    // max(system = 4, remote_min = 2, backoff = 3) is 4
    assert_eq!(peer.get_interval_next_poll(4), 4);
    // an unanswered poll raised the backoff to 5
    assert_eq!(peer.get_interval_next_poll(4), 5);
    assert_eq!(peer.get_interval_next_poll(4), 6);
}

#[test]
fn accepted_response_consumes_origin() {
    let t0 = NtpTimestamp::from_fixed_int(10_0000_0000);
    let mut peer = Peer::new(ReferenceId::from_int(42), ReferenceId::from_int(7), t0);

    let t1 = NtpTimestamp::from_fixed_int(11_0000_0000);
    let mut response = poll_response(&mut peer, t1);
    response.transmit_timestamp = NtpTimestamp::from_fixed_int(11_5000_0000);

    let recv = NtpTimestamp::from_fixed_int(12_0000_0000);
    assert!(peer.handle_incoming(response, recv).is_ok());

    // the poll is answered: replaying the same response is rejected
    let replay_recv = NtpTimestamp::from_fixed_int(13_0000_0000);
    assert!(matches!(
        peer.handle_incoming(response, replay_recv),
        Err(IgnoreReason::InvalidPacketTime)
    ));
}
