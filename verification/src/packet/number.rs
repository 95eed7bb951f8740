//! Packet numbers and the spaces they are counted in.

use vstd::prelude::*;

verus! {

/// The largest packet number (a variable-length integer).
pub const MAX_PACKET_NUMBER: u64 = 0x3fff_ffff_ffff_ffff;

/// The space a packet number is counted in.
#[derive(Clone, Copy, Debug, PartialEq, Eq, Structural)]
pub enum PacketNumberSpace {
    Initial,
    Handshake,
    ApplicationData,
}

/// A packet number in its space.
#[derive(Clone, Copy, Debug, PartialEq, Eq, Structural)]
pub struct PacketNumber {
    space: PacketNumberSpace,
    value: u64,
}

impl PacketNumber {
    /// The space of the number.
    pub closed spec fn space_spec(&self) -> PacketNumberSpace {
        self.space
    }

    /// The value of the number.
    pub closed spec fn value_spec(&self) -> u64 {
        self.value
    }

    /// The space of the number.
    pub fn space(&self) -> (r: PacketNumberSpace)
        ensures
            r == self.space_spec(),
    {
        self.space
    }

    /// The value of the number.
    pub fn as_u64(&self) -> (r: u64)
        ensures
            r == self.value_spec(),
    {
        self.value
    }
}

impl PacketNumberSpace {
    /// The packet number `value` in this space.
    pub fn new_packet_number(self, value: u64) -> (r: PacketNumber)
        requires
            value <= MAX_PACKET_NUMBER,
        ensures
            r.space_spec() == self,
            r.value_spec() == value,
    {
        PacketNumber { space: self, value }
    }
}

} // verus!
