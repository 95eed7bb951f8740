//! Inbound datagrams: the components of a received datagram, and how each
//! QUIC packet coalesced in its payload is routed.

use crate::connection::{Entity, LocalId, LOCAL_ID_MIN_LEN, MAX_LEN};
use crate::inet::{ExplicitCongestionNotification, SocketAddress};
use crate::t2::buffer::{dealloc_spec, split_to_spec, HeapBump, Range, RangeView};
use crate::t2::connection::{Connection, LocalIdMap};
use vstd::prelude::*;

verus! {

/// The datagram that a packet arrived in.
#[derive(Clone, Copy, Debug, PartialEq, Eq, Structural)]
pub struct Datagram(pub Entity);

/// The bytes of a datagram that are not parsed yet.
#[derive(Debug)]
pub struct Payload(pub Range);

/// The local address a datagram arrived on.
#[derive(Clone, Copy, Debug, PartialEq, Eq)]
pub struct Local(pub SocketAddress);

/// The address a datagram came from.
#[derive(Debug, PartialEq, Eq)]
pub struct Remote(pub SocketAddress);

/// The ECN codepoint a datagram arrived with.
#[derive(Clone, Copy, Debug, PartialEq, Eq, Structural)]
pub struct Ecn(pub ExplicitCongestionNotification);

impl Default for Ecn {
    fn default() -> (r: Self)
        ensures
            r == Ecn(ExplicitCongestionNotification::NotEct),
    {
        Ecn(ExplicitCongestionNotification::default())
    }
}

/// The label of the receive stage.
#[derive(Clone, Copy, Debug, PartialEq, Eq, Structural)]
pub struct RecvLabel;

/// The label of the parse stage.
#[derive(Clone, Copy, Debug, PartialEq, Eq, Structural)]
pub struct ParseLabel;

/// What receiving a datagram into a range of the heap gave.
#[derive(Clone, Copy, Debug, PartialEq, Eq, Structural)]
pub enum RecvResult {
    /// A datagram of this many bytes arrived.
    Received(usize),
    /// No datagram is waiting.
    WouldBlock,
    /// The socket failed.
    Failed,
}

/// What the receive loop does after a receive.
#[derive(Debug)]
pub enum RecvStep {
    /// A datagram arrived: its payload.
    Datagram(Payload),
    /// Nothing usable arrived: receive again into a new range.
    Again,
    /// Stop receiving until the next pass.
    Stop,
}

/// Handles what receiving into `range` (just allocated from `heap`) gave: a
/// datagram keeps the bytes it filled and the rest of the range goes back to
/// the heap; an empty datagram, or one longer than the range, is skipped;
/// a socket with nothing more, or failing, stops the loop.
pub fn on_recv(heap: &mut HeapBump, range: Range, result: RecvResult) -> (r: RecvStep)
    requires
        range@.2 == old(heap).unassigned().2,
    ensures
        match result {
            RecvResult::Received(len) => if len == 0 || split_to_spec(range@, len as nat) is None {
                r is Again && final(heap).unassigned() == old(heap).unassigned()
            } else {
                let (rest, taken) = split_to_spec(range@, len as nat)->Some_0;
                &&& r matches RecvStep::Datagram(p) && p.0@ == taken
                &&& final(heap).unassigned() == dealloc_spec(old(heap).unassigned(), rest)
            },
            _ => r is Stop && final(heap).unassigned() == old(heap).unassigned(),
        },
{
    let mut range = range;
    match result {
        RecvResult::Received(len) => {
            if len == 0 {
                return RecvStep::Again;
            }
            match range.split_to(len) {
                Some(payload) => {
                    // return what we didn't use
                    heap.dealloc(range);
                    RecvStep::Datagram(Payload(payload))
                },
                None => RecvStep::Again,
            }
        },
        RecvResult::WouldBlock | RecvResult::Failed => RecvStep::Stop,
    }
}

/// The type of a decoded QUIC packet.
#[derive(Clone, Copy, Debug, PartialEq, Eq, Structural)]
pub enum PacketKind {
    Initial,
    Handshake,
    ZeroRtt,
    Retry,
    VersionNegotiation,
    Short,
}

/// What decoding the packet at the front of a payload found: its type, its
/// destination connection id, the length of its header and its whole length.
#[derive(Debug)]
pub struct DecodedPacket {
    pub kind: PacketKind,
    pub destination_connection_id: Vec<u8>,
    pub header_len: usize,
    pub len: usize,
}

/// The bytes of one packet, and the length of its header.
#[derive(Debug)]
pub struct PayloadRange {
    pub header_len: usize,
    pub payload: Range,
}

/// Where a packet goes.
#[derive(Debug)]
pub enum Routed {
    /// The payload could not be decoded; the rest of it is dropped.
    Undecodable,
    /// The destination id is not one this endpoint could have issued.
    InvalidDestinationConnectionId,
    /// An Initial packet, for a new or existing connection.
    Initial(PayloadRange),
    /// A Handshake packet for a known connection.
    Handshake(PayloadRange, Connection),
    /// A Handshake packet for an id that no connection has.
    UnknownConnection,
    /// A packet of another type; the rest of the payload is dropped.
    Unsupported,
}

/// The payload range left after routing, given the decode result.
pub open spec fn payload_after(payload: RangeView, decoded_len: Option<nat>, kind: PacketKind, dcid_ok: bool) -> RangeView {
    match decoded_len {
        None => (payload.1, payload.1, payload.2),
        Some(len) => {
            let rest = split_to_spec(payload, len)->Some_0.0;
            if dcid_ok && kind != PacketKind::Initial && kind != PacketKind::Handshake {
                (rest.1, rest.1, rest.2)
            } else {
                rest
            }
        },
    }
}

/// Routes the packet at the front of `payload`, given what decoding it found
/// (`None` when it could not be decoded), and advances `payload` past it.
///
/// A decoded packet takes at least one byte and fits in the payload.
pub fn parse_packet(
    decoded: Option<DecodedPacket>,
    local_ids: &LocalIdMap,
    payload: &mut Range,
) -> (r: Routed)
    requires
        local_ids.wf(),
        decoded matches Some(d) ==> 0 < d.len <= old(payload)@.1 - old(payload)@.0,
    ensures
        match decoded {
            None => r is Undecodable && final(payload)@ == payload_after(
                old(payload)@,
                None,
                PacketKind::Short,
                false,
            ),
            Some(d) => {
                let dcid = d.destination_connection_id@;
                let dcid_ok = LOCAL_ID_MIN_LEN <= dcid.len() <= MAX_LEN;
                let taken = split_to_spec(old(payload)@, d.len as nat)->Some_0.1;
                &&& final(payload)@ == payload_after(old(payload)@, Some(d.len as nat), d.kind, dcid_ok)
                &&& !dcid_ok ==> r is InvalidDestinationConnectionId
                &&& dcid_ok && d.kind == PacketKind::Initial ==> (r matches Routed::Initial(p)
                    && p.payload@ == taken && p.header_len == d.header_len)
                &&& dcid_ok && d.kind == PacketKind::Handshake && local_ids@.contains_key(dcid)
                    ==> (r matches Routed::Handshake(p, c) && p.payload@ == taken && p.header_len
                    == d.header_len && c == local_ids@[dcid])
                &&& dcid_ok && d.kind == PacketKind::Handshake && !local_ids@.contains_key(dcid)
                    ==> r is UnknownConnection
                &&& dcid_ok && d.kind != PacketKind::Initial && d.kind != PacketKind::Handshake
                    ==> r is Unsupported
            },
        },
{
    let packet = match decoded {
        Some(packet) => packet,
        None => {
            // the rest of the datagram cannot be parsed
            payload.clear();
            return Routed::Undecodable;
        },
    };

    let dcid = LocalId::try_from_bytes(packet.destination_connection_id.as_slice());

    // the packet's bytes come off the front of the payload
    let range = match payload.split_to(packet.len) {
        Some(range) => range,
        None => {
            return Routed::Undecodable;
        },
    };
    let packet_payload = PayloadRange { header_len: packet.header_len, payload: range };

    let dcid = match dcid {
        Some(dcid) => dcid,
        None => {
            return Routed::InvalidDestinationConnectionId;
        },
    };

    match packet.kind {
        PacketKind::Initial => Routed::Initial(packet_payload),
        PacketKind::Handshake => {
            match local_ids.get(&dcid) {
                Some(connection) => Routed::Handshake(packet_payload, connection),
                None => Routed::UnknownConnection,
            }
        },
        _ => {
            payload.clear();
            Routed::Unsupported
        },
    }
}

} // verus!
