//! Internet addresses and the ECN codepoint of a datagram.

use crate::connection::LocalId;
use vstd::prelude::*;

verus! {

/// An IP address.
#[derive(Clone, Copy, Debug, PartialEq, Eq)]
pub enum IpAddress {
    Ipv4([u8; 4]),
    Ipv6([u8; 16]),
}

/// An IP address and a port.
#[derive(Clone, Copy, Debug, PartialEq, Eq)]
pub struct SocketAddress {
    pub ip: IpAddress,
    pub port: u16,
}

/// The Explicit Congestion Notification codepoint of a datagram.
#[derive(Clone, Copy, Debug, PartialEq, Eq, Structural)]
pub enum ExplicitCongestionNotification {
    /// Not ECN-capable transport.
    NotEct,
    /// ECN-capable transport, codepoint 1.
    Ect1,
    /// ECN-capable transport, codepoint 0.
    Ect0,
    /// Congestion experienced.
    Ce,
}

impl Default for ExplicitCongestionNotification {
    fn default() -> (r: Self)
        ensures
            r == ExplicitCongestionNotification::NotEct,
    {
        ExplicitCongestionNotification::NotEct
    }
}

/// What is known of a received datagram.
#[derive(Clone, Copy, Debug)]
pub struct DatagramInfo {
    /// When it was received, in microseconds on the endpoint's clock.
    pub timestamp: u64,
    pub payload_len: usize,
    pub ecn: ExplicitCongestionNotification,
    pub destination_connection_id: LocalId,
}

} // verus!
