//! Per-peer NTP state: the reachability register, poll-interval bookkeeping,
//! incoming-packet handling, and the predicates that decide whether a peer is
//! acceptable as a synchronization source.

use vstd::prelude::*;
use vstd::arithmetic::div_mod::{
    lemma_div_is_ordered, lemma_div_plus_one, lemma_div_pos_is_pos, lemma_fundamental_div_mod,
};
use crate::packet::{NtpAssociationMode, NtpHeader, NtpLeapIndicator, ReferenceId};
use crate::time::{trunc_div, NtpDuration, NtpTimestamp};

verus! {

/// A peer whose stratum reaches this value has no synchronized reference.
pub const MAX_STRATUM: u8 = 16;

/// Raw fixed-point value of the lower bound for the root-distance
/// delay term (about five milliseconds).
pub const MIN_DISPERSION_RAW: i64 = 21474836;

/// Bound on the raw value of every duration that enters a root-distance
/// computation; it keeps all the sums inside `i64`.
pub const DISTANCE_BOUND: i64 = 0x4_0000_0000_0000;

/// The distance threshold: one second.
pub fn max_distance() -> (r: NtpDuration)
    ensures
        r.raw == 0x1_0000_0000,
{
    NtpDuration::one()
}

/// `d` scaled by the frequency tolerance of 15 parts per million.
pub open spec fn spec_phi(d: int) -> int {
    trunc_div(d * 15, 1_000_000)
}

/// Multiplying by the frequency tolerance (15 ppm) converts a time span
/// into the drift error it can have accumulated.
pub fn multiply_by_phi(duration: NtpDuration) -> (r: NtpDuration)
    requires
        -0x8000_0000_0000_0000 <= duration.raw * 15 <= i64::MAX,
    ensures
        r.raw == spec_phi(duration.raw as int),
{
    duration.times(15).divide(1_000_000)
}

/// Reachability shift register over the last eight polls.
///
/// The register is shifted left by one bit when a poll is sent and the
/// rightmost bit is set when a valid response arrives. The peer counts as
/// reachable while any bit is set.
#[derive(Clone, Copy, Debug, PartialEq, Eq, Structural)]
pub struct Reach(pub u8);

impl Reach {
    /// A peer is reachable while some of the last eight polls were answered.
    pub fn is_reachable(&self) -> (r: bool)
        ensures
            r == (self.0 != 0),
    {
        self.0 != 0
    }

    /// We have just received a packet, so the peer is definitely reachable.
    pub fn received_packet(&mut self)
        ensures
            final(self).0 == old(self).0 | 1,
    {
        self.0 |= 1;
    }

    /// A poll went out: responses received earlier count for one poll less.
    pub fn poll(&mut self)
        ensures
            final(self).0 == old(self).0 << 1,
    {
        self.0 <<= 1;
    }
}

impl Default for Reach {
    /// A new register: no poll answered yet, hence not reachable.
    fn default() -> (r: Reach)
        ensures
            r.0 == 0,
    {
        Reach(0)
    }
}

/// The register value after `k` further polls without an answer.
pub open spec fn reach_after_polls(r: u8, k: nat) -> u8
    decreases k,
{
    if k == 0 {
        r
    } else {
        reach_after_polls(r, (k - 1) as nat) << 1
    }
}

/// Eight unanswered polls in a row always clear the register: a peer from
/// which nothing was heard for the last eight polls is unreachable.
pub proof fn lemma_reach_eight_polls_unreachable(r: u8)
    ensures
        reach_after_polls(r, 8) == 0,
{
    reveal_with_fuel(reach_after_polls, 9);
    assert(((((((((r << 1) << 1) << 1) << 1) << 1) << 1) << 1) << 1) == 0) by (bit_vector);
}

/// A response accepted within the last eight polls keeps the peer
/// reachable: after `received_packet`, up to seven further polls leave the
/// register nonzero.
pub proof fn lemma_reach_recent_packet_reachable(r: u8, k: nat)
    requires
        k <= 7,
    ensures
        reach_after_polls(r | 1, k) != 0,
{
    reveal_with_fuel(reach_after_polls, 9);
    if k == 0 {
        assert((r | 1) != 0) by (bit_vector);
    } else if k == 1 {
        assert(((r | 1) << 1) != 0) by (bit_vector);
    } else if k == 2 {
        assert((((r | 1) << 1) << 1) != 0) by (bit_vector);
    } else if k == 3 {
        assert(((((r | 1) << 1) << 1) << 1) != 0) by (bit_vector);
    } else if k == 4 {
        assert((((((r | 1) << 1) << 1) << 1) << 1) != 0) by (bit_vector);
    } else if k == 5 {
        assert((((((((r | 1) << 1) << 1) << 1) << 1) << 1)) != 0) by (bit_vector);
    } else if k == 6 {
        assert((((((((r | 1) << 1) << 1) << 1) << 1) << 1) << 1) != 0) by (bit_vector);
    } else {
        assert(((((((((r | 1) << 1) << 1) << 1) << 1) << 1) << 1) << 1) != 0) by (bit_vector);
    }
}

/// Reasons to ignore a packet that arrived from a peer.
#[derive(Clone, Copy, Debug, PartialEq, Eq, Structural)]
pub enum IgnoreReason {
    /// The association mode is not one that this peer supports.
    InvalidMode,
    /// The send time on the received packet is not the time we sent it at.
    InvalidPacketTime,
    /// Received a kiss-of-death packet.
    Kiss,
    /// The best packet is older than the peer's current time.
    TooOld,
}

/// Reasons a peer is not acceptable as a synchronization source.
#[derive(Clone, Copy, Debug, PartialEq, Eq, Structural)]
pub enum AcceptSynchronizationError {
    ServerUnreachable,
    Loop,
    Distance,
    Stratum,
}

/// Smoothed statistics of the measurements accepted from one peer.
#[derive(Clone, Copy, Debug, PartialEq, Eq, Structural)]
pub struct PeerStatistics {
    pub offset: NtpDuration,
    pub delay: NtpDuration,
    pub dispersion: NtpDuration,
    pub jitter: NtpDuration,
}

impl Default for PeerStatistics {
    /// All-zero statistics.
    fn default() -> (r: PeerStatistics)
        ensures
            r == PeerStatistics::zeroed(),
    {
        PeerStatistics {
            offset: NtpDuration { raw: 0 },
            delay: NtpDuration { raw: 0 },
            dispersion: NtpDuration { raw: 0 },
            jitter: NtpDuration { raw: 0 },
        }
    }
}

impl PeerStatistics {
    /// The statistics `default` returns.
    pub open spec fn zeroed() -> PeerStatistics {
        PeerStatistics {
            offset: NtpDuration { raw: 0 },
            delay: NtpDuration { raw: 0 },
            dispersion: NtpDuration { raw: 0 },
            jitter: NtpDuration { raw: 0 },
        }
    }

    /// All durations small enough for root-distance arithmetic.
    pub open spec fn bounded(self) -> bool {
        &&& -DISTANCE_BOUND <= self.delay.raw <= DISTANCE_BOUND
        &&& -DISTANCE_BOUND <= self.dispersion.raw <= DISTANCE_BOUND
        &&& -DISTANCE_BOUND <= self.jitter.raw <= DISTANCE_BOUND
    }
}

/// The header fields that enter a root-distance computation are small
/// enough for its arithmetic. On the wire both fields are 32-bit values,
/// so every decoded packet satisfies this.
pub open spec fn header_bounded(h: NtpHeader) -> bool {
    &&& -DISTANCE_BOUND <= h.root_delay.raw <= DISTANCE_BOUND
    &&& -DISTANCE_BOUND <= h.root_dispersion.raw <= DISTANCE_BOUND
}

/// The root synchronization distance, except for the term that grows with
/// the local clock: half the total delay (at least the minimum dispersion),
/// plus both dispersions, plus jitter.
pub open spec fn spec_root_distance_without_time(
    root_delay: int,
    delay: int,
    root_dispersion: int,
    dispersion: int,
    jitter: int,
) -> int {
    trunc_div(
        if root_delay + delay >= MIN_DISPERSION_RAW {
            root_delay + delay
        } else {
            MIN_DISPERSION_RAW as int
        },
        2,
    ) + root_dispersion + dispersion + jitter
}

/// The root synchronization distance at local time `local`, for a peer whose
/// statistics were last updated at `time`.
pub open spec fn spec_root_distance(
    root_delay: int,
    delay: int,
    root_dispersion: int,
    dispersion: int,
    jitter: int,
    time: int,
    local: int,
) -> int {
    spec_root_distance_without_time(root_delay, delay, root_dispersion, dispersion, jitter)
        + spec_phi(local - time)
}

/// The root distance of peer `p` seen at local time `local`.
pub open spec fn spec_peer_root_distance(p: Peer, local: int) -> int {
    spec_root_distance(
        p.last_packet.root_delay.raw as int,
        p.statistics.delay.raw as int,
        p.last_packet.root_dispersion.raw as int,
        p.statistics.dispersion.raw as int,
        p.statistics.jitter.raw as int,
        p.time.raw as int,
        local,
    )
}

/// One measurement ready for the per-peer filter: the observed offset and
/// delay, and the local receive time they belong to.
#[derive(Clone, Copy, Debug, PartialEq, Eq, Structural)]
pub struct FilterTuple {
    pub offset: NtpDuration,
    pub delay: NtpDuration,
    pub time: NtpTimestamp,
}

impl FilterTuple {
    /// The measurement a server reply yields: the server clock read against
    /// our receive time, with no delay estimate.
    pub fn from_packet_default(message: &NtpHeader, recv_time: NtpTimestamp) -> (r: FilterTuple)
        requires
            i64::MIN <= message.transmit_timestamp.raw - recv_time.raw <= i64::MAX,
        ensures
            r == FilterTuple::spec_from_packet_default(*message, recv_time),
    {
        FilterTuple {
            offset: message.transmit_timestamp.minus(recv_time),
            delay: NtpDuration { raw: 0 },
            time: recv_time,
        }
    }

    /// What `from_packet_default` builds.
    pub open spec fn spec_from_packet_default(
        message: NtpHeader,
        recv_time: NtpTimestamp,
    ) -> FilterTuple {
        FilterTuple {
            offset: NtpDuration {
                raw: (message.transmit_timestamp.raw - recv_time.raw) as i64,
            },
            delay: NtpDuration { raw: 0 },
            time: recv_time,
        }
    }
}

/// Immutable projection of one peer for the selection stage.
#[derive(Clone, Copy, Debug)]
pub struct PeerSnapshot {
    pub time: NtpTimestamp,
    pub root_distance_without_time: NtpDuration,
    pub stratum: u8,
    pub statistics: PeerStatistics,
}

impl PeerSnapshot {
    /// The snapshot's root distance grown to local time `local_clock_time`.
    pub fn root_distance(&self, local_clock_time: NtpTimestamp) -> (r: NtpDuration)
        requires
            -3 * DISTANCE_BOUND <= self.root_distance_without_time.raw <= 4 * DISTANCE_BOUND,
            i64::MIN <= local_clock_time.raw - self.time.raw <= i64::MAX,
            -0x8000_0000_0000_0000 <= (local_clock_time.raw - self.time.raw) * 15 <= i64::MAX,
        ensures
            r.raw == self.root_distance_without_time.raw + spec_phi(
                local_clock_time.raw - self.time.raw,
            ),
    {
        let d = local_clock_time.minus(self.time);
        proof {
            lemma_phi_small(d.raw as int);
        }
        self.root_distance_without_time.plus(multiply_by_phi(d))
    }

    /// Only the time-dependent distance check: every other acceptance check
    /// was already made when this snapshot was produced.
    pub fn accept_synchronization(
        &self,
        local_clock_time: NtpTimestamp,
        system_poll: NtpDuration,
    ) -> (r: Result<(), AcceptSynchronizationError>)
        requires
            -3 * DISTANCE_BOUND <= self.root_distance_without_time.raw <= 4 * DISTANCE_BOUND,
            i64::MIN <= local_clock_time.raw - self.time.raw <= i64::MAX,
            -0x8000_0000_0000_0000 <= (local_clock_time.raw - self.time.raw) * 15 <= i64::MAX,
            -0x8000_0000_0000_0000 <= system_poll.raw * 15 <= i64::MAX,
        ensures
            r === if self.root_distance_without_time.raw + spec_phi(
                local_clock_time.raw - self.time.raw,
            ) > 0x1_0000_0000 + spec_phi(system_poll.raw as int) {
                Err(AcceptSynchronizationError::Distance)
            } else {
                Ok(())
            },
    {
        let distance = self.root_distance(local_clock_time);
        proof {
            lemma_phi_small(system_poll.raw as int);
        }
        if distance.raw > max_distance().plus(multiply_by_phi(system_poll)).raw {
            return Err(AcceptSynchronizationError::Distance);
        }
        Ok(())
    }
}

/// One remote peer: reachability, poll bookkeeping, the last accepted
/// packet, and the smoothed measurement statistics.
#[derive(Clone, Debug)]
pub struct Peer {
    pub last_poll_interval: i8,
    pub next_poll_interval: i8,
    pub remote_min_poll_interval: i8,

    pub next_expected_origin: Option<NtpTimestamp>,

    pub statistics: PeerStatistics,
    pub last_packet: NtpHeader,
    pub time: NtpTimestamp,
    pub peer_id: ReferenceId,
    pub our_id: ReferenceId,
    pub reach: Reach,
}

/// The acceptance decision for a peer, checked in the order the
/// implementation performs the checks: stratum, then distance, then loop
/// detection, then reachability.
pub open spec fn spec_accept_synchronization(
    p: Peer,
    local: int,
    system_poll: int,
) -> Result<(), AcceptSynchronizationError> {
    if p.last_packet.leap == NtpLeapIndicator::Unknown || p.last_packet.stratum >= MAX_STRATUM {
        Err(AcceptSynchronizationError::Stratum)
    } else if spec_peer_root_distance(p, local) > 0x1_0000_0000 + spec_phi(system_poll) {
        Err(AcceptSynchronizationError::Distance)
    } else if p.last_packet.stratum != 1 && p.last_packet.reference_id == p.our_id {
        Err(AcceptSynchronizationError::Loop)
    } else if p.reach.0 == 0 {
        Err(AcceptSynchronizationError::ServerUnreachable)
    } else {
        Ok(())
    }
}

/// The peer `Peer::new` builds.
pub open spec fn spec_new_peer(
    our_id: ReferenceId,
    peer_id: ReferenceId,
    current_system_time: NtpTimestamp,
) -> Peer {
    Peer {
        last_poll_interval: 2,
        next_poll_interval: 2,
        remote_min_poll_interval: 2,
        next_expected_origin: None,
        statistics: PeerStatistics::zeroed(),
        last_packet: NtpHeader::zeroed(),
        time: current_system_time,
        our_id: our_id,
        peer_id: peer_id,
        reach: Reach(0),
    }
}

/// State and result of `get_interval_next_poll`: the poll interval to use
/// is the largest of the system's wish, the remote minimum and the backoff
/// reached so far, and the backoff grows by one step.
pub open spec fn spec_get_interval_next_poll(p: Peer, system_poll_interval: i8) -> (Peer, i8) {
    let interval = max_i8(
        max_i8(system_poll_interval as int, p.remote_min_poll_interval as int),
        p.next_poll_interval as int,
    );
    (
        Peer {
            last_poll_interval: interval as i8,
            next_poll_interval: clamp_i8_add_one(interval) as i8,
            ..p
        },
        interval as i8,
    )
}

/// State and result of `generate_poll_message`: the reachability register
/// shifts, the transmit time is remembered as the expected origin, and a
/// client-mode poll packet is built.
pub open spec fn spec_generate_poll_message(p: Peer, t: NtpTimestamp) -> (Peer, NtpHeader) {
    (
        Peer { reach: Reach(p.reach.0 << 1), next_expected_origin: Some(t), ..p },
        NtpHeader {
            poll: p.last_poll_interval,
            transmit_timestamp: t,
            mode: NtpAssociationMode::Client,
            ..NtpHeader::zeroed()
        },
    )
}

/// State and result of `message_for_system`: a measurement not newer than
/// the peer's time is too old; a newer one is accepted: it replaces the
/// offset and delay statistics, advances the peer's time, consumes the
/// expected origin (the poll is answered, so the same origin cannot be
/// replayed), and yields a snapshot.
pub open spec fn spec_message_for_system(p: Peer, new_tuple: FilterTuple) -> (
    Peer,
    Result<PeerSnapshot, IgnoreReason>,
) {
    if new_tuple.time.raw <= p.time.raw {
        (p, Err(IgnoreReason::TooOld))
    } else {
        let stats = PeerStatistics {
            offset: new_tuple.offset,
            delay: new_tuple.delay,
            ..p.statistics
        };
        (
            Peer {
                statistics: stats,
                time: new_tuple.time,
                next_expected_origin: None,
                ..p
            },
            Ok(
                PeerSnapshot {
                    time: new_tuple.time,
                    root_distance_without_time: NtpDuration {
                        raw: spec_root_distance_without_time(
                            p.last_packet.root_delay.raw as int,
                            new_tuple.delay.raw as int,
                            p.last_packet.root_dispersion.raw as int,
                            p.statistics.dispersion.raw as int,
                            p.statistics.jitter.raw as int,
                        ) as i64,
                    },
                    stratum: p.last_packet.stratum,
                    statistics: stats,
                },
            ),
        )
    }
}

/// State and result of `handle_incoming`: wrong modes and unexpected
/// origins are ignored, and kiss-of-death packets are dropped (a rate
/// kiss also raises the remote poll floor, any other kiss changes
/// nothing); anything else marks the peer reachable, stores the packet
/// and hands the measurement to `message_for_system`, which consumes the
/// expected origin if it accepts the sample.
pub open spec fn spec_handle_incoming(p: Peer, message: NtpHeader, recv_time: NtpTimestamp) -> (
    Peer,
    Result<PeerSnapshot, IgnoreReason>,
) {
    if message.mode != NtpAssociationMode::Server {
        (p, Err(IgnoreReason::InvalidMode))
    } else if p.next_expected_origin != Some(message.origin_timestamp) {
        (p, Err(IgnoreReason::InvalidPacketTime))
    } else if message.stratum == 0 && message.reference_id.raw == 0x5241_5445 {
        (
            Peer {
                remote_min_poll_interval: max_i8(
                    clamp_i8_add_one(p.remote_min_poll_interval as int),
                    p.last_poll_interval as int,
                ) as i8,
                ..p
            },
            Err(IgnoreReason::Kiss),
        )
    } else if message.stratum == 0 {
        (p, Err(IgnoreReason::Kiss))
    } else {
        let answered = Peer {
            reach: Reach(p.reach.0 | 1),
            next_poll_interval: p.last_poll_interval,
            last_packet: message,
            ..p
        };
        spec_message_for_system(
            answered,
            FilterTuple::spec_from_packet_default(message, recv_time),
        )
    }
}

impl Peer {
    /// A fresh peer association: default poll intervals, nothing expected,
    /// nothing measured, not reachable.
    pub fn new(
        our_id: ReferenceId,
        peer_id: ReferenceId,
        current_system_time: NtpTimestamp,
    ) -> (r: Peer)
        ensures
            r == spec_new_peer(our_id, peer_id, current_system_time),
    {
        Peer {
            last_poll_interval: 2,
            next_poll_interval: 2,
            remote_min_poll_interval: 2,

            next_expected_origin: None,

            statistics: PeerStatistics {
                offset: NtpDuration { raw: 0 },
                delay: NtpDuration { raw: 0 },
                dispersion: NtpDuration { raw: 0 },
                jitter: NtpDuration { raw: 0 },
            },
            last_packet: NtpHeader::new(),
            time: current_system_time,
            our_id,
            peer_id,
            reach: Reach(0),
        }
    }

    /// A peer in the configuration the unit tests use: both identifiers
    /// zero, a grown backoff, everything else fresh.
    pub fn test_peer() -> (r: Peer)
        ensures
            r == (Peer {
                next_poll_interval: 3,
                ..spec_new_peer(
                    ReferenceId { raw: 0 },
                    ReferenceId { raw: 0 },
                    NtpTimestamp { raw: 0 },
                )
            }),
    {
        Peer {
            last_poll_interval: 2,
            next_poll_interval: 3,
            remote_min_poll_interval: 2,

            next_expected_origin: None,

            statistics: PeerStatistics {
                offset: NtpDuration { raw: 0 },
                delay: NtpDuration { raw: 0 },
                dispersion: NtpDuration { raw: 0 },
                jitter: NtpDuration { raw: 0 },
            },
            last_packet: NtpHeader::new(),
            time: NtpTimestamp { raw: 0 },
            peer_id: ReferenceId { raw: 0 },
            our_id: ReferenceId { raw: 0 },
            reach: Reach(0),
        }
    }

    /// The poll interval to use next; each unanswered poll backs off by one
    /// more step.
    pub fn get_interval_next_poll(&mut self, system_poll_interval: i8) -> (r: i8)
        ensures
            ((*final(self), r) === spec_get_interval_next_poll(*old(self), system_poll_interval)),
    {
        let mut interval = system_poll_interval;
        if self.remote_min_poll_interval > interval {
            interval = self.remote_min_poll_interval;
        }
        if self.next_poll_interval > interval {
            interval = self.next_poll_interval;
        }
        self.last_poll_interval = interval;
        self.next_poll_interval = if interval < 127 {
            interval + 1
        } else {
            127
        };
        interval
    }

    /// Shift the reachability register, remember the transmit time, and
    /// build the outgoing client poll packet.
    pub fn generate_poll_message(&mut self, current_system_time: NtpTimestamp) -> (r: NtpHeader)
        ensures
            ((*final(self), r) === spec_generate_poll_message(*old(self), current_system_time)),
    {
        self.reach.poll();

        self.next_expected_origin = Some(current_system_time);

        let mut packet = NtpHeader::new();
        packet.poll = self.last_poll_interval;
        packet.transmit_timestamp = current_system_time;
        packet.mode = NtpAssociationMode::Client;

        packet
    }

    /// Handle a packet that arrived from the peer: reject wrong modes,
    /// replies to polls we did not send, and kiss-of-death packets; accept
    /// the rest as a measurement if it is newer than what we have.
    pub fn handle_incoming(&mut self, message: NtpHeader, recv_time: NtpTimestamp) -> (r: Result<
        PeerSnapshot,
        IgnoreReason,
    >)
        requires
            i64::MIN <= message.transmit_timestamp.raw - recv_time.raw <= i64::MAX,
            header_bounded(message),
            old(self).statistics.bounded(),
        ensures
            ((*final(self), r) === spec_handle_incoming(*old(self), message, recv_time)),
    {
        if !matches!(message.mode, NtpAssociationMode::Server) {
            // we currently only support a client <-> server association
            Err(IgnoreReason::InvalidMode)
        } else if !origin_matches(&self.next_expected_origin, message.origin_timestamp) {
            // the message we got back says that it was sent at a different time than we sent it
            Err(IgnoreReason::InvalidPacketTime)
        } else if message.is_kiss_rate() {
            let bumped = if self.remote_min_poll_interval < 127 {
                self.remote_min_poll_interval + 1
            } else {
                127
            };
            self.remote_min_poll_interval = if bumped >= self.last_poll_interval {
                bumped
            } else {
                self.last_poll_interval
            };
            Err(IgnoreReason::Kiss)
        } else if message.is_kiss() {
            // Ignore unrecognized control messages
            Err(IgnoreReason::Kiss)
        } else {
            // For reachability, mark that we have had a response
            self.reach.received_packet();

            // Received answer, so no need for backoff
            self.next_poll_interval = self.last_poll_interval;

            self.last_packet = message;

            let filter_input = FilterTuple::from_packet_default(&message, recv_time);

            self.message_for_system(filter_input)
        }
    }

    /// Absorb one measurement: reject it if it is not newer than the peer's
    /// current time, otherwise accept it — take its offset and delay as
    /// the new statistics, consume the expected origin, and report a
    /// snapshot for the combination stage.
    fn message_for_system(&mut self, new_tuple: FilterTuple) -> (r: Result<
        PeerSnapshot,
        IgnoreReason,
    >)
        requires
            header_bounded(old(self).last_packet),
            old(self).statistics.bounded(),
            -DISTANCE_BOUND <= new_tuple.delay.raw <= DISTANCE_BOUND,
        ensures
            ((*final(self), r) === spec_message_for_system(*old(self), new_tuple)),
    {
        if new_tuple.time.raw <= self.time.raw {
            return Err(IgnoreReason::TooOld);
        }
        self.statistics = PeerStatistics {
            offset: new_tuple.offset,
            delay: new_tuple.delay,
            ..self.statistics
        };
        self.time = new_tuple.time;
        // the outstanding poll is answered: its origin may not be replayed
        self.next_expected_origin = None;

        let snapshot = PeerSnapshot {
            time: self.time,
            root_distance_without_time: self.root_distance_without_time(),
            stratum: self.last_packet.stratum,
            statistics: self.statistics,
        };

        Ok(snapshot)
    }

    /// The root synchronization distance of this peer at the given local
    /// time: the maximum error due to all causes relative to the primary
    /// server.
    pub fn root_distance(&self, local_clock_time: NtpTimestamp) -> (r: NtpDuration)
        requires
            header_bounded(self.last_packet),
            self.statistics.bounded(),
            i64::MIN <= local_clock_time.raw - self.time.raw <= i64::MAX,
            -0x8000_0000_0000_0000 <= (local_clock_time.raw - self.time.raw) * 15 <= i64::MAX,
        ensures
            r.raw == spec_peer_root_distance(*self, local_clock_time.raw as int),
    {
        let d = local_clock_time.minus(self.time);
        proof {
            lemma_phi_small(d.raw as int);
        }
        self.root_distance_without_time().plus(multiply_by_phi(d))
    }

    /// Root distance without the term that grows with the local clock.
    fn root_distance_without_time(&self) -> (r: NtpDuration)
        requires
            header_bounded(self.last_packet),
            self.statistics.bounded(),
        ensures
            r.raw == spec_root_distance_without_time(
                self.last_packet.root_delay.raw as int,
                self.statistics.delay.raw as int,
                self.last_packet.root_dispersion.raw as int,
                self.statistics.dispersion.raw as int,
                self.statistics.jitter.raw as int,
            ),
            -3 * DISTANCE_BOUND <= r.raw <= 4 * DISTANCE_BOUND,
    {
        let sum = self.last_packet.root_delay.plus(self.statistics.delay);
        let base = NtpDuration::from_fixed_int(MIN_DISPERSION_RAW).max_of(sum);
        proof {
            lemma_div_is_ordered(MIN_DISPERSION_RAW as int, base.raw as int, 2);
            lemma_div_is_ordered(base.raw as int, 2 * DISTANCE_BOUND, 2);
        }
        base.divide(2).plus(self.last_packet.root_dispersion).plus(self.statistics.dispersion).plus(
            self.statistics.jitter,
        )
    }

    /// Test if this peer is acceptable for synchronization, with the checks
    /// in the implementation's order: stratum, then distance, then loop
    /// detection, then reachability.
    pub fn accept_synchronization(
        &self,
        local_clock_time: NtpTimestamp,
        system_poll: NtpDuration,
    ) -> (r: Result<(), AcceptSynchronizationError>)
        requires
            header_bounded(self.last_packet),
            self.statistics.bounded(),
            i64::MIN <= local_clock_time.raw - self.time.raw <= i64::MAX,
            -0x8000_0000_0000_0000 <= (local_clock_time.raw - self.time.raw) * 15 <= i64::MAX,
            -0x8000_0000_0000_0000 <= system_poll.raw * 15 <= i64::MAX,
        ensures
            r == spec_accept_synchronization(
                *self,
                local_clock_time.raw as int,
                system_poll.raw as int,
            ),
    {
        // A stratum error occurs if the server has never been synchronized
        // or its stratum is invalid.
        if !self.last_packet.leap.is_synchronized() || self.last_packet.stratum >= MAX_STRATUM {
            return Err(AcceptSynchronizationError::Stratum);
        }

        // A distance error occurs if the root distance exceeds the distance
        // threshold plus an increment equal to one poll interval.
        let distance = self.root_distance(local_clock_time);
        proof {
            lemma_phi_small(system_poll.raw as int);
        }
        if distance.raw > max_distance().plus(multiply_by_phi(system_poll)).raw {
            return Err(AcceptSynchronizationError::Distance);
        }

        // Synchronizing to a server that takes us as its own reference would
        // close a timing loop; hardware references (stratum 1) are exempt.
        if self.last_packet.stratum != 1 && self.last_packet.reference_id.raw == self.our_id.raw {
            return Err(AcceptSynchronizationError::Loop);
        }

        // An unreachable error occurs if the server is unreachable.
        if !self.reach.is_reachable() {
            return Err(AcceptSynchronizationError::ServerUnreachable);
        }

        Ok(())
    }
}

/// The larger of two values.
pub open spec fn max_i8(a: int, b: int) -> int {
    if a >= b {
        a
    } else {
        b
    }
}

/// `v + 1` held inside the `i8` range.
pub open spec fn clamp_i8_add_one(v: int) -> int {
    if v < 127 {
        v + 1
    } else {
        127
    }
}

/// Whether the expected origin is present and equals `t`.
fn origin_matches(expected: &Option<NtpTimestamp>, t: NtpTimestamp) -> (r: bool)
    ensures
        r == (*expected == Some(t)),
{
    match expected {
        Some(e) => e.raw == t.raw,
        None => false,
    }
}

/// The drift term is tiny compared with the spans it is computed from:
/// 15 parts per million of a bounded duration stays well bounded.
pub proof fn lemma_phi_small(d: int)
    requires
        -0x8000_0000_0000_0000 <= d * 15 <= i64::MAX,
    ensures
        -DISTANCE_BOUND <= spec_phi(d) <= DISTANCE_BOUND,
        d >= 0 ==> spec_phi(d) >= 0,
        d >= 0 ==> spec_phi(d) <= d,
{
    let x = d * 15;
    if x >= 0 {
        let q = x / 1_000_000;
        lemma_div_pos_is_pos(x, 1_000_000);
        lemma_fundamental_div_mod(x, 1_000_000);
        assert(1_000_000 * q <= x);
        if d >= 0 {
            assert(q <= 1_000_000 * q);
        }
    } else {
        let n = -x;
        let q = n / 1_000_000;
        lemma_div_pos_is_pos(n, 1_000_000);
        lemma_fundamental_div_mod(n, 1_000_000);
        assert(1_000_000 * q <= n);
    }
}

/// Root distance is monotonic in every component: a larger root delay, a
/// larger smoothed delay, a larger dispersion, a larger jitter, or a larger
/// age `local - time` never shrinks it.
pub proof fn lemma_root_distance_monotonic(
    root_delay1: int,
    delay1: int,
    root_dispersion1: int,
    dispersion1: int,
    jitter1: int,
    age1: int,
    root_delay2: int,
    delay2: int,
    root_dispersion2: int,
    dispersion2: int,
    jitter2: int,
    age2: int,
)
    requires
        root_delay1 <= root_delay2,
        delay1 <= delay2,
        root_dispersion1 <= root_dispersion2,
        dispersion1 <= dispersion2,
        jitter1 <= jitter2,
        0 <= age1 <= age2,
    ensures
        spec_root_distance_without_time(root_delay1, delay1, root_dispersion1, dispersion1, jitter1)
            + spec_phi(age1) <= spec_root_distance_without_time(
            root_delay2,
            delay2,
            root_dispersion2,
            dispersion2,
            jitter2,
        ) + spec_phi(age2),
{
    let m1 = if root_delay1 + delay1 >= MIN_DISPERSION_RAW {
        root_delay1 + delay1
    } else {
        MIN_DISPERSION_RAW as int
    };
    let m2 = if root_delay2 + delay2 >= MIN_DISPERSION_RAW {
        root_delay2 + delay2
    } else {
        MIN_DISPERSION_RAW as int
    };
    assert(m1 <= m2);
    lemma_div_is_ordered(m1, m2, 2);
    lemma_div_is_ordered(age1 * 15, age2 * 15, 1_000_000);
}

/// Root distance grows strictly with each component once the increase
/// clears the fixed-point rounding: by two raw units in the delay terms
/// (they are halved), by any amount in the dispersion and jitter terms, and
/// by enough that the 15 ppm drift term gains a raw unit in the age term.
pub proof fn lemma_root_distance_strictly_monotonic(
    root_delay: int,
    delay: int,
    root_dispersion: int,
    dispersion: int,
    jitter: int,
    age: int,
    bump_root_delay: int,
    bump_delay: int,
    bump_root_dispersion: int,
    bump_dispersion: int,
    bump_jitter: int,
    bump_age: int,
)
    requires
        age >= 0,
        bump_root_delay == 0 || (bump_root_delay >= 2 && root_delay + delay >= MIN_DISPERSION_RAW),
        bump_delay == 0 || (bump_delay >= 2 && root_delay + delay >= MIN_DISPERSION_RAW),
        bump_root_dispersion >= 0,
        bump_dispersion >= 0,
        bump_jitter >= 0,
        bump_age == 0 || bump_age * 15 >= 1_000_000,
        bump_age >= 0,
        bump_root_delay + bump_delay + bump_root_dispersion + bump_dispersion + bump_jitter
            + bump_age > 0,
    ensures
        spec_root_distance_without_time(root_delay, delay, root_dispersion, dispersion, jitter)
            + spec_phi(age) < spec_root_distance_without_time(
            root_delay + bump_root_delay,
            delay + bump_delay,
            root_dispersion + bump_root_dispersion,
            dispersion + bump_dispersion,
            jitter + bump_jitter,
        ) + spec_phi(age + bump_age),
{
    let m1 = if root_delay + delay >= MIN_DISPERSION_RAW {
        root_delay + delay
    } else {
        MIN_DISPERSION_RAW as int
    };
    let sum2 = root_delay + bump_root_delay + delay + bump_delay;
    let m2 = if sum2 >= MIN_DISPERSION_RAW {
        sum2
    } else {
        MIN_DISPERSION_RAW as int
    };
    lemma_div_is_ordered(m1, m2, 2);
    if bump_root_delay + bump_delay >= 2 {
        assert(m2 >= m1 + 2);
        lemma_div_plus_one(m1, 2);
        lemma_div_is_ordered(m1 + 2, m2, 2);
        assert(m1 / 2 + 1 == (m1 + 2) / 2);
    }
    lemma_div_is_ordered(age * 15, (age + bump_age) * 15, 1_000_000);
    if bump_age > 0 {
        assert((age + bump_age) * 15 == age * 15 + bump_age * 15) by (nonlinear_arith);
        assert(age * 15 + 1_000_000 <= (age + bump_age) * 15);
        lemma_div_plus_one(age * 15, 1_000_000);
        lemma_div_is_ordered(age * 15 + 1_000_000, (age + bump_age) * 15, 1_000_000);
        assert(spec_phi(age) + 1 <= spec_phi(age + bump_age));
    }
}

/// A peer that reports the maximum stratum is never accepted for
/// synchronization.
pub proof fn lemma_stratum_sixteen_never_selected(p: Peer, local: int, system_poll: int)
    requires
        p.last_packet.stratum >= MAX_STRATUM,
    ensures
        (spec_accept_synchronization(p, local, system_poll) matches Err(e) && e
            == AcceptSynchronizationError::Stratum),
{
}

/// A peer that lists us as its reference while not being a stratum-1
/// server forms a timing loop and is rejected with `Loop`, whenever the
/// stratum and distance checks pass.
pub proof fn lemma_reference_loop_rejected(p: Peer, local: int, system_poll: int)
    requires
        p.last_packet.leap != NtpLeapIndicator::Unknown,
        p.last_packet.stratum < MAX_STRATUM,
        p.last_packet.stratum != 1,
        p.last_packet.reference_id == p.our_id,
        spec_peer_root_distance(p, local) <= 0x1_0000_0000 + spec_phi(system_poll),
    ensures
        (spec_accept_synchronization(p, local, system_poll) matches Err(e) && e
            == AcceptSynchronizationError::Loop),
{
}

/// The distance check is sharp: exactly at the threshold
/// `MAX_DISTANCE + phi * system_poll` the peer passes it, and any greater
/// distance is rejected with `Distance`.
pub proof fn lemma_distance_boundary(p: Peer, local: int, system_poll: int)
    requires
        p.last_packet.leap != NtpLeapIndicator::Unknown,
        p.last_packet.stratum < MAX_STRATUM,
    ensures
        spec_peer_root_distance(p, local) == 0x1_0000_0000 + spec_phi(system_poll)
            ==> spec_accept_synchronization(p, local, system_poll) != Err::<
            (),
            AcceptSynchronizationError,
        >(AcceptSynchronizationError::Distance),
        spec_peer_root_distance(p, local) > 0x1_0000_0000 + spec_phi(system_poll)
            ==> spec_accept_synchronization(p, local, system_poll) == Err::<
            (),
            AcceptSynchronizationError,
        >(AcceptSynchronizationError::Distance),
{
}

} // verus!
