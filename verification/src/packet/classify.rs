//! Classifies the QUIC packets coalesced in a datagram: where each lies, and
//! whether it is addressed to a connection id of this endpoint.
//!
//! Decoding a packet is the caller's: it hands in, for each packet at the
//! front of the rest of a segment, the packet's length and destination id,
//! or the failure to decode.

use crate::connection::{LocalId, LOCAL_ID_MIN_LEN, MAX_LEN};
use vstd::prelude::*;

verus! {

/// The position of a QUIC packet in a datagram.
#[derive(Clone, Copy, Debug, PartialEq, Eq, PartialOrd, Ord, Structural)]
pub struct Cursor {
    /// The segment index into the payload
    pub segment: u32,
    /// The byte offset into the whole payload where the packet starts
    pub offset: u32,
    /// The index of the QUIC packet in the current segment
    pub index: u32,
    /// The total length of the QUIC packet, including the header
    pub len: u32,
}

/// What happened to a packet.
#[derive(Clone, Copy, Debug, PartialEq, Eq, Structural)]
pub enum EventKind {
    /// A packet for the datagram's destination id.
    Packet,
    /// The first packet's destination id is not one this endpoint issues.
    InvalidDestinationConnectionId,
    /// A later packet's destination id differs from the first packet's.
    MismatchedDestinationConnectionId,
    /// The rest of the segment could not be decoded and is discarded.
    UnparseablePacket,
}

/// An event, at the position of its packet.
#[derive(Clone, Copy, Debug, PartialEq, Eq, Structural)]
pub struct Event {
    pub kind: EventKind,
    pub cursor: Cursor,
}

/// What decoding the packet at the front of the rest of a segment found.
#[derive(Debug)]
pub enum Decoded {
    /// A packet of `len` bytes for `destination_connection_id`.
    Packet { len: u32, destination_connection_id: Vec<u8> },
    /// No packet could be decoded.
    Error,
}

/// A segment of a datagram, with what decoding found in it.
#[derive(Debug)]
pub struct Segment {
    pub len: u32,
    pub decoded: Vec<Decoded>,
}

/// The destination id that a packet is checked against, and the event it
/// gives: the first valid id of a datagram is expected of every later packet.
pub open spec fn classify_dcid(expected: Option<Seq<u8>>, actual: Seq<u8>) -> (
    EventKind,
    Option<Seq<u8>>,
) {
    match expected {
        Some(e) => if e == actual {
            (EventKind::Packet, expected)
        } else {
            (EventKind::MismatchedDestinationConnectionId, expected)
        },
        None => if LOCAL_ID_MIN_LEN <= actual.len() <= MAX_LEN {
            (EventKind::Packet, Some(actual))
        } else {
            (EventKind::InvalidDestinationConnectionId, None)
        },
    }
}

/// The bytes of an optional id.
pub open spec fn id_view(id: Option<LocalId>) -> Option<Seq<u8>> {
    match id {
        Some(i) => Some(i@),
        None => None,
    }
}

/// An optional id that is well formed.
pub open spec fn id_wf(id: Option<LocalId>) -> bool {
    id matches Some(i) ==> i.wf()
}

/// Classifies one packet at `cursor` by its destination id `actual`.
pub fn quic_packet(cursor: Cursor, dcid: &mut Option<LocalId>, actual: &[u8]) -> (r: Event)
    requires
        id_wf(*old(dcid)),
    ensures
        id_wf(*final(dcid)),
        r.cursor == cursor,
        (r.kind, id_view(*final(dcid))) == classify_dcid(id_view(*old(dcid)), actual@),
        (*old(dcid)) is Some ==> id_view(*final(dcid)) == id_view(*old(dcid)),
        (*old(dcid)) is Some ==> (r.kind == EventKind::Packet) == (id_view(*old(dcid))->0 == actual@),
        (*old(dcid)) is Some && r.kind != EventKind::Packet ==> r.kind
            == EventKind::MismatchedDestinationConnectionId,
{
    match dcid {
        Some(expected) => {
            //= https://www.rfc-editor.org/rfc/rfc9000#section-12.2
            //# Senders MUST NOT coalesce QUIC packets
            //# with different connection IDs into a single UDP datagram.  Receivers
            //# SHOULD ignore any subsequent packets with a different Destination
            //# Connection ID than the first packet in the datagram.
            if !expected.matches(actual) {
                return Event { kind: EventKind::MismatchedDestinationConnectionId, cursor };
            }
            Event { kind: EventKind::Packet, cursor }
        },
        None => {
            match LocalId::try_from_bytes(actual) {
                Some(cid) => {
                    *dcid = Some(cid);
                    Event { kind: EventKind::Packet, cursor }
                },
                None => Event { kind: EventKind::InvalidDestinationConnectionId, cursor },
            }
        },
    }
}

/// Once a packet of a segment set the expected destination id, it stays: a
/// later packet with that id is accepted, any other is a mismatch, and the
/// expected id is the same after it, whatever the packet carried.
pub proof fn law_first_id_sticks(expected: Seq<u8>, actual: Seq<u8>)
    ensures
        classify_dcid(Some(expected), actual).1 == Some(expected),
        (classify_dcid(Some(expected), actual).0 == EventKind::Packet) == (actual == expected),
        actual != expected ==> classify_dcid(Some(expected), actual).0
            == EventKind::MismatchedDestinationConnectionId,
{
}

/// Before any valid id, a packet whose id this endpoint could have issued is
/// accepted and sets the expected id; any other is reported invalid and sets
/// nothing.
pub proof fn law_first_valid_id_sets(actual: Seq<u8>)
    ensures
        LOCAL_ID_MIN_LEN <= actual.len() <= MAX_LEN ==> classify_dcid(None, actual) == (
            EventKind::Packet,
            Some(actual),
        ),
        !(LOCAL_ID_MIN_LEN <= actual.len() <= MAX_LEN) ==> classify_dcid(None, actual) == (
            EventKind::InvalidDestinationConnectionId,
            None::<Seq<u8>>,
        ),
{
}

/// Over the rest of a segment whose expected id is set, event `i` stands for
/// the `i`-th decoded packet: one with the expected id is accepted, one with
/// any other id is a mismatch, and an undecodable one ends the segment.
pub proof fn law_segment_after_first_id(
    cursor: Cursor,
    expected: Seq<u8>,
    remaining: nat,
    decoded: Seq<Decoded>,
)
    ensures
        segment_events(cursor, Some(expected), remaining, decoded).len() <= decoded.len(),
        forall|i: int|
            0 <= i < segment_events(cursor, Some(expected), remaining, decoded).len() ==> (
            match decoded[i] {
                Decoded::Packet { destination_connection_id, .. } => (#[trigger] segment_events(
                    cursor,
                    Some(expected),
                    remaining,
                    decoded,
                )[i]).kind == (if destination_connection_id@ == expected {
                    EventKind::Packet
                } else {
                    EventKind::MismatchedDestinationConnectionId
                }),
                Decoded::Error => segment_events(cursor, Some(expected), remaining, decoded)[i].kind
                    == EventKind::UnparseablePacket,
            }),
    decreases decoded.len(),
{
    let ev = segment_events(cursor, Some(expected), remaining, decoded);
    if remaining == 0 || decoded.len() == 0 {
    } else {
        match decoded[0] {
            Decoded::Error => {},
            Decoded::Packet { len, destination_connection_id } => {
                let c = Cursor { len, ..cursor };
                let after = Cursor {
                    index: (cursor.index + 1) as u32,
                    offset: (cursor.offset + len) as u32,
                    ..c
                };
                let rem = (remaining - len) as nat;
                let rest = decoded.drop_first();
                law_first_id_sticks(expected, destination_connection_id@);
                law_segment_after_first_id(after, expected, rem, rest);
                let tail = segment_events(after, Some(expected), rem, rest);
                assert(ev == seq![Event { kind: classify_dcid(Some(expected), destination_connection_id@).0, cursor: c }] + tail);
                assert forall|i: int| 0 < i < ev.len() implies (match decoded[i] {
                    Decoded::Packet { destination_connection_id, .. } => (#[trigger] ev[i]).kind
                        == (if destination_connection_id@ == expected {
                        EventKind::Packet
                    } else {
                        EventKind::MismatchedDestinationConnectionId
                    }),
                    Decoded::Error => ev[i].kind == EventKind::UnparseablePacket,
                }) by {
                    assert(ev[i] == tail[i - 1]);
                    assert(decoded[i] == rest[i - 1]);
                }
            },
        }
    }
}

/// Every decoded packet takes at least one byte and fits in what is left.
pub open spec fn lens_fit(decoded: Seq<Decoded>, remaining: nat) -> bool
    decreases decoded.len(),
{
    if decoded.len() == 0 {
        true
    } else {
        match decoded[0] {
            Decoded::Packet { len, .. } => 0 < len <= remaining && lens_fit(
                decoded.drop_first(),
                (remaining - len) as nat,
            ),
            Decoded::Error => true,
        }
    }
}

/// The events of a segment: packets are classified in turn, each one past
/// the previous, until the segment is consumed or a packet fails to decode.
pub open spec fn segment_events(
    cursor: Cursor,
    expected: Option<Seq<u8>>,
    remaining: nat,
    decoded: Seq<Decoded>,
) -> Seq<Event>
    decreases decoded.len(),
{
    if remaining == 0 || decoded.len() == 0 {
        Seq::empty()
    } else {
        match decoded[0] {
            Decoded::Error => seq![Event { kind: EventKind::UnparseablePacket, cursor }],
            Decoded::Packet { len, destination_connection_id } => {
                let c = Cursor { len, ..cursor };
                let (kind, next) = classify_dcid(expected, destination_connection_id@);
                let after = Cursor {
                    index: (cursor.index + 1) as u32,
                    offset: (cursor.offset + len) as u32,
                    ..c
                };
                seq![Event { kind, cursor: c }] + segment_events(
                    after,
                    next,
                    (remaining - len) as nat,
                    decoded.drop_first(),
                )
            },
        }
    }
}

/// Classifies the packets of a segment of `payload_len` bytes that starts at
/// `cursor`.
///
/// The offsets and indices must stay within `u32`, the width of a cursor's
/// fields.
pub fn datagram_segment(cursor: Cursor, payload_len: u32, decoded: &Vec<Decoded>) -> (r: Vec<
    Event,
>)
    requires
        lens_fit(decoded@, payload_len as nat),
        cursor.offset + payload_len <= u32::MAX,
        cursor.index + decoded@.len() <= u32::MAX,
    ensures
        r@ == segment_events(cursor, None, payload_len as nat, decoded@),
{
    // keep track of the quic packet index
    let mut destination_connection_id: Option<LocalId> = None;
    let mut cur = cursor;
    let mut remaining = payload_len;
    let mut events: Vec<Event> = Vec::new();
    let mut i: usize = 0;
    proof {
        assert(decoded@.skip(0) =~= decoded@);
        assert(events@ + segment_events(cur, None, payload_len as nat, decoded@) =~= segment_events(
            cur,
            None,
            payload_len as nat,
            decoded@,
        ));
    }

    while remaining > 0 && i < decoded.len()
        invariant
            i <= decoded@.len(),
            id_wf(destination_connection_id),
            lens_fit(decoded@.skip(i as int), remaining as nat),
            cur.offset + remaining <= u32::MAX,
            cur.index + (decoded@.len() - i) <= u32::MAX,
            cur.segment == cursor.segment,
            events@ + segment_events(
                cur,
                id_view(destination_connection_id),
                remaining as nat,
                decoded@.skip(i as int),
            ) == segment_events(cursor, None, payload_len as nat, decoded@),
        ensures
            events@ == segment_events(cursor, None, payload_len as nat, decoded@),
        decreases decoded@.len() - i,
    {
        let ghost rest = decoded@.skip(i as int);
        proof {
            assert(rest[0] == decoded@[i as int]);
            assert(rest.drop_first() =~= decoded@.skip(i + 1));
        }
        match &decoded[i] {
            Decoded::Error => {
                // We choose to discard the rest of the datagram on parsing errors since it
                // would be difficult to recover from an invalid packet.
                let ghost before = events@;
                events.push(Event { kind: EventKind::UnparseablePacket, cursor: cur });
                proof {
                    assert(rest.len() > 0);
                    assert(rest[0] is Error);
                    assert(segment_events(cur, id_view(destination_connection_id), remaining as nat, rest)
                        == seq![Event { kind: EventKind::UnparseablePacket, cursor: cur }]);
                    assert(events@ =~= before + segment_events(
                        cur,
                        id_view(destination_connection_id),
                        remaining as nat,
                        rest,
                    ));
                }
                return events;
            },
            Decoded::Packet { len, destination_connection_id: dcid } => {
                let packet_len = *len;
                cur.len = packet_len;
                let ghost before = events@;
                let ghost expected = id_view(destination_connection_id);
                let event = quic_packet(cur, &mut destination_connection_id, dcid.as_slice());
                events.push(event);
                cur.index = cur.index + 1;
                cur.offset = cur.offset + packet_len;
                remaining = remaining - packet_len;
                i = i + 1;
                proof {
                    assert(events@ =~= before + seq![event]);
                }
            },
        }
    }
    proof {
        assert(segment_events(
            cur,
            id_view(destination_connection_id),
            remaining as nat,
            decoded@.skip(i as int),
        ) =~= Seq::<Event>::empty());
        assert(events@ =~= events@ + Seq::<Event>::empty());
    }
    events
}

/// The events of a datagram's segments, each segment starting where the
/// previous one ended.
pub open spec fn datagram_events(cursor: Cursor, segments: Seq<Segment>) -> Seq<Event>
    decreases segments.len(),
{
    if segments.len() == 0 {
        Seq::empty()
    } else {
        let s = segments[0];
        let next = Cursor {
            segment: (cursor.segment + 1) as u32,
            offset: (cursor.offset + s.len) as u32,
            ..cursor
        };
        segment_events(cursor, None, s.len as nat, s.decoded@) + datagram_events(
            next,
            segments.drop_first(),
        )
    }
}

/// Every segment's packets fit in it, and the offsets and counters stay
/// within `u32`.
pub open spec fn segments_fit(segments: Seq<Segment>, offset: nat, segment: nat) -> bool
    decreases segments.len(),
{
    if segments.len() == 0 {
        true
    } else {
        let s = segments[0];
        &&& lens_fit(s.decoded@, s.len as nat)
        &&& s.decoded@.len() <= u32::MAX
        &&& offset + s.len <= u32::MAX
        &&& segment + 1 <= u32::MAX
        &&& segments_fit(segments.drop_first(), (offset + s.len) as nat, segment + 1)
    }
}

/// Classifies the packets of every segment of a datagram, in order.
pub fn datagram(segments: &Vec<Segment>) -> (r: Vec<Event>)
    requires
        segments_fit(segments@, 0, 0),
    ensures
        r@ == datagram_events(Cursor { segment: 0, offset: 0, index: 0, len: 0 }, segments@),
{
    let mut cursor = Cursor { segment: 0, offset: 0, index: 0, len: 0 };
    let ghost start = cursor;
    let mut events: Vec<Event> = Vec::new();
    let mut k: usize = 0;
    proof {
        assert(segments@.skip(0) =~= segments@);
        assert(events@ + datagram_events(cursor, segments@) =~= datagram_events(cursor, segments@));
    }
    while k < segments.len()
        invariant
            k <= segments@.len(),
            start == (Cursor { segment: 0, offset: 0, index: 0, len: 0 }),
            cursor.index == 0 && cursor.len == 0,
            segments_fit(segments@.skip(k as int), cursor.offset as nat, cursor.segment as nat),
            events@ + datagram_events(cursor, segments@.skip(k as int)) == datagram_events(
                start,
                segments@,
            ),
        decreases segments@.len() - k,
    {
        let ghost rest = segments@.skip(k as int);
        proof {
            assert(rest[0] == segments@[k as int]);
            assert(rest.drop_first() =~= segments@.skip(k + 1));
        }
        let segment = &segments[k];
        let ghost c0 = cursor;
        let seg_events = datagram_segment(cursor, segment.len, &segment.decoded);
        let ghost before = events@;
        let mut e = seg_events;
        events.append(&mut e);
        cursor.segment = cursor.segment + 1;
        cursor.offset = cursor.offset + segment.len;
        k = k + 1;
        proof {
            assert(events@ =~= before + segment_events(c0, None, segment.len as nat, segment.decoded@));
            assert(cursor == Cursor {
                segment: (c0.segment + 1) as u32,
                offset: (c0.offset + segment.len) as u32,
                ..c0
            });
            assert(before + datagram_events(c0, rest) == datagram_events(start, segments@));
            assert(events@ + datagram_events(cursor, segments@.skip(k as int)) =~= before
                + datagram_events(c0, rest));
        }
    }
    proof {
        assert(segments@.skip(k as int) =~= Seq::<Segment>::empty());
        assert(events@ + Seq::<Event>::empty() =~= events@);
    }
    events
}

/// The length reported when a packet of `len` bytes is dropped: `len`,
/// saturated to `u16::MAX`.
pub fn dropped_len(len: u64) -> (r: u16)
    ensures
        r == (if len > u16::MAX as u64 {
            u16::MAX as u64
        } else {
            len
        }),
{
    if len > u16::MAX as u64 {
        u16::MAX
    } else {
        len as u16
    }
}

/// The length reported for the drop an event stands for, if it stands for
/// one: the packet's length for a bad destination id, the segment's for an
/// undecodable rest; saturated to `u16::MAX`.
pub fn event_dropped_len(event: &Event, segment_len: u64) -> (r: Option<u16>)
    ensures
        event.kind == EventKind::Packet ==> r is None,
        (event.kind == EventKind::InvalidDestinationConnectionId || event.kind
            == EventKind::MismatchedDestinationConnectionId) ==> r == Some(
            (if event.cursor.len > u16::MAX as u32 {
                u16::MAX
            } else {
                event.cursor.len as u16
            }),
        ),
        event.kind == EventKind::UnparseablePacket ==> r == Some(
            (if segment_len > u16::MAX as u64 {
                u16::MAX
            } else {
                segment_len as u16
            }),
        ),
{
    match event.kind {
        EventKind::Packet => None,
        EventKind::InvalidDestinationConnectionId | EventKind::MismatchedDestinationConnectionId => {
            Some(dropped_len(event.cursor.len as u64))
        },
        EventKind::UnparseablePacket => Some(dropped_len(segment_len)),
    }
}

} // verus!
