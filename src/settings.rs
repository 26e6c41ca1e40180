use vstd::prelude::*;

use crate::peer::PeerAddr;

verus! {

/// Ceilings on concurrent sessions.
#[derive(Debug, Clone, Copy, PartialEq, Eq, Structural)]
pub struct SessionQuota {
    /// Sessions across all addresses.
    pub max_total: usize,
    /// Sessions of one address.
    pub max_per_address: usize,
}

impl Default for SessionQuota {
    fn default() -> (r: Self)
        ensures
            r == (SessionQuota { max_total: 50, max_per_address: 2 }),
    {
        SessionQuota { max_total: 50, max_per_address: 2 }
    }
}

/// Connection-attempt throttling; all durations in milliseconds.
#[derive(Debug, Clone, Copy, PartialEq, Eq, Structural)]
pub struct ThrottlePolicy {
    /// Attempts allowed within the window before the address is blocked.
    pub max_attempts: usize,
    /// How long an attempt counts towards the ceiling.
    pub interval_window: u64,
    /// An attempt this soon after the previous one is too fast.
    pub fast_attempt_threshold: u64,
    /// The base length of a block.
    pub block_duration: u64,
    /// The base extension of a block per attempt made while blocked.
    pub penalty_backoff: u64,
}

impl Default for ThrottlePolicy {
    fn default() -> (r: Self)
        ensures
            r == (ThrottlePolicy {
                max_attempts: 5,
                interval_window: 5000,
                fast_attempt_threshold: 500,
                block_duration: 3000,
                penalty_backoff: 250,
            }),
    {
        ThrottlePolicy {
            max_attempts: 5,
            interval_window: 5000,
            fast_attempt_threshold: 500,
            block_duration: 3000,
            penalty_backoff: 250,
        }
    }
}

/// What happens to a client that breaks the incoming packet policy.
#[derive(Debug, Clone, Copy, PartialEq, Eq, Structural)]
pub enum PacketPolicyPenalty {
    Disconnect,
    Ignore,
}

/// Limits on what clients send; durations in milliseconds.
#[derive(Debug, Clone, Copy, PartialEq, Eq, Structural)]
pub struct IncomingPacketPolicy {
    /// Ceiling on the wait for each frame.
    pub timeout: u64,
    /// Byte ceiling of the server-name frame's payload.
    pub server_name_max_length: usize,
    /// Byte ceiling of the login frame.
    pub login_max_length: usize,
    /// Byte ceiling of each subsequent frame.
    pub subsequent_max_length: usize,
    /// Subsequent frames allowed per address and enforcement window.
    pub subsequent_max_per_address: usize,
    /// The window over which the per-address rate is enforced.
    pub enforcement_window: u64,
    /// Frames tolerated above the rate.
    pub tolerance_overflow: usize,
    /// What happens beyond the tolerance.
    pub overflow_penalty: PacketPolicyPenalty,
}

impl Default for IncomingPacketPolicy {
    fn default() -> (r: Self)
        ensures
            r == (IncomingPacketPolicy {
                timeout: 30000,
                server_name_max_length: 256,
                login_max_length: 5120,
                subsequent_max_length: 20480,
                subsequent_max_per_address: 0xFFFF_FFFF,
                enforcement_window: 1000,
                tolerance_overflow: 20,
                overflow_penalty: PacketPolicyPenalty::Disconnect,
            }),
    {
        IncomingPacketPolicy {
            timeout: 30000,
            server_name_max_length: 256,
            login_max_length: 5120,
            subsequent_max_length: 20480,
            subsequent_max_per_address: 0xFFFF_FFFF,
            enforcement_window: 1000,
            tolerance_overflow: 20,
            overflow_penalty: PacketPolicyPenalty::Disconnect,
        }
    }
}

/// Limits on what the server sends; the timeout in milliseconds.
#[derive(Debug, Clone, Copy, PartialEq, Eq, Structural)]
pub struct OutgoingPacketPolicy {
    /// Ceiling on each write and flush.
    pub timeout: u64,
    /// Byte ceiling of a coalesced batch.
    pub max_length: usize,
}

impl Default for OutgoingPacketPolicy {
    fn default() -> (r: Self)
        ensures
            r == (OutgoingPacketPolicy { timeout: 30000, max_length: 24576 }),
    {
        OutgoingPacketPolicy { timeout: 30000, max_length: 24576 }
    }
}

/// The packet limits of both directions.
#[derive(Debug, Clone, Copy, PartialEq, Eq, Structural)]
pub struct PacketPolicy {
    pub incoming: IncomingPacketPolicy,
    pub outgoing: OutgoingPacketPolicy,
}

impl Default for PacketPolicy {
    fn default() -> (r: Self)
        ensures
            r.incoming.timeout == 30000,
            r.incoming.server_name_max_length == 256,
            r.incoming.login_max_length == 5120,
            r.incoming.subsequent_max_length == 20480,
            r.outgoing.max_length == 24576,
            r.outgoing.timeout == 30000,
    {
        PacketPolicy { incoming: IncomingPacketPolicy::default(), outgoing: OutgoingPacketPolicy::default() }
    }
}

/// The network server's settings.
#[derive(Debug, Clone, Copy, PartialEq, Eq, Structural)]
pub struct Settings {
    /// Where the listener binds.
    pub address: PeerAddr,
    /// Whether Nagle's algorithm stays on for accepted sockets.
    pub use_nagle_algorithm: bool,
    pub session_quota: SessionQuota,
    pub throttle_policy: ThrottlePolicy,
    pub packet_policy: PacketPolicy,
}

impl Default for Settings {
    fn default() -> (r: Self)
        ensures
            r.address == (PeerAddr::V4 { ip: 0x7F00_0001, port: 7172 }),
            !r.use_nagle_algorithm,
            r.session_quota == (SessionQuota { max_total: 50, max_per_address: 2 }),
            r.throttle_policy == (ThrottlePolicy {
                max_attempts: 5,
                interval_window: 5000,
                fast_attempt_threshold: 500,
                block_duration: 3000,
                penalty_backoff: 250,
            }),
            r.packet_policy.outgoing.max_length == 24576,
    {
        Settings {
            address: PeerAddr::V4 { ip: 0x7F00_0001, port: 7172 },
            use_nagle_algorithm: false,
            session_quota: SessionQuota::default(),
            throttle_policy: ThrottlePolicy::default(),
            packet_policy: PacketPolicy::default(),
        }
    }
}

} // verus!
