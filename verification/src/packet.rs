//! The fields of an NTP packet header that the synchronization core reads,
//! and the small value types they use.

use vstd::prelude::*;
use crate::time::{NtpDuration, NtpTimestamp};

verus! {

/// The two-bit leap-second announcement of a packet header.
#[derive(Clone, Copy, Debug, PartialEq, Eq, Hash, Structural)]
pub enum NtpLeapIndicator {
    NoWarning,
    Leap61,
    Leap59,
    Unknown,
}

impl NtpLeapIndicator {
    /// A peer that reports an unknown leap status has never been
    /// synchronized itself.
    pub fn is_synchronized(self) -> (r: bool)
        ensures
            r == (self != NtpLeapIndicator::Unknown),
    {
        !matches!(self, NtpLeapIndicator::Unknown)
    }
}

/// The association mode of a packet. The core supports only the
/// client/server exchange.
#[derive(Clone, Copy, Debug, PartialEq, Eq, Hash, Structural)]
pub enum NtpAssociationMode {
    Client,
    Server,
    Other,
}

/// A 32-bit reference identifier, used both for loop detection and as the
/// code word of kiss-of-death packets.
#[derive(Clone, Copy, Debug, PartialEq, Eq, Hash, Structural)]
pub struct ReferenceId {
    pub raw: u32,
}

impl ReferenceId {
    /// The identifier with the given 32-bit value.
    pub fn from_int(raw: u32) -> (r: ReferenceId)
        ensures
            r.raw == raw,
    {
        ReferenceId { raw }
    }

    /// The code word of a rate-limiting kiss-of-death packet,
    /// the bytes of "RATE".
    pub fn kiss_rate() -> (r: ReferenceId)
        ensures
            r.raw == 0x5241_5445,
    {
        ReferenceId { raw: 0x5241_5445 }
    }
}

/// The packet-header fields the synchronization core consumes.
#[derive(Clone, Copy, Debug, PartialEq, Eq, Hash, Structural)]
pub struct NtpHeader {
    pub leap: NtpLeapIndicator,
    pub mode: NtpAssociationMode,
    pub stratum: u8,
    pub poll: i8,
    pub reference_id: ReferenceId,
    pub root_delay: NtpDuration,
    pub root_dispersion: NtpDuration,
    pub origin_timestamp: NtpTimestamp,
    pub transmit_timestamp: NtpTimestamp,
}

impl NtpHeader {
    /// A header with all fields at their neutral values.
    pub fn new() -> (r: NtpHeader)
        ensures
            r == NtpHeader::zeroed(),
    {
        NtpHeader {
            leap: NtpLeapIndicator::NoWarning,
            mode: NtpAssociationMode::Client,
            stratum: 0,
            poll: 0,
            reference_id: ReferenceId { raw: 0 },
            root_delay: NtpDuration { raw: 0 },
            root_dispersion: NtpDuration { raw: 0 },
            origin_timestamp: NtpTimestamp { raw: 0 },
            transmit_timestamp: NtpTimestamp { raw: 0 },
        }
    }

    /// The header `new` returns.
    pub open spec fn zeroed() -> NtpHeader {
        NtpHeader {
            leap: NtpLeapIndicator::NoWarning,
            mode: NtpAssociationMode::Client,
            stratum: 0,
            poll: 0,
            reference_id: ReferenceId { raw: 0 },
            root_delay: NtpDuration { raw: 0 },
            root_dispersion: NtpDuration { raw: 0 },
            origin_timestamp: NtpTimestamp { raw: 0 },
            transmit_timestamp: NtpTimestamp { raw: 0 },
        }
    }

    /// A kiss-of-death packet announces itself with stratum zero.
    pub fn is_kiss(&self) -> (r: bool)
        ensures
            r == (self.stratum == 0),
    {
        self.stratum == 0
    }

    /// A kiss-of-death packet asking the client to reduce its polling rate.
    pub fn is_kiss_rate(&self) -> (r: bool)
        ensures
            r == (self.stratum == 0 && self.reference_id.raw == 0x5241_5445),
    {
        self.stratum == 0 && self.reference_id.raw == 0x5241_5445
    }
}

impl Default for NtpHeader {
    /// Same header as `new`.
    fn default() -> (r: NtpHeader)
        ensures
            r == NtpHeader::zeroed(),
    {
        NtpHeader::new()
    }
}

} // verus!
