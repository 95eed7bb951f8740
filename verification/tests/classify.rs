use s2n_quic_sync::connection::LocalId;
use s2n_quic_sync::packet::classify::{
    datagram, datagram_segment, dropped_len, event_dropped_len, quic_packet, Cursor, Decoded,
    Event, EventKind, Segment,
};

fn packet(len: u32, dcid: &[u8]) -> Decoded {
    Decoded::Packet {
        len,
        destination_connection_id: dcid.to_vec(),
    }
}

fn at(segment: u32, offset: u32, index: u32, len: u32) -> Cursor {
    Cursor {
        segment,
        offset,
        index,
        len,
    }
}

#[test]
fn coalesced_packets_must_share_the_first_id() {
    let segments = vec![
        Segment {
            len: 100,
            decoded: vec![packet(40, b"abcd"), packet(30, b"abcd"), packet(30, b"wxyz")],
        },
        Segment {
            len: 50,
            decoded: vec![packet(20, b"wxyz"), Decoded::Error],
        },
    ];
    let events = datagram(&segments);
    assert_eq!(
        events,
        vec![
            Event { kind: EventKind::Packet, cursor: at(0, 0, 0, 40) },
            Event { kind: EventKind::Packet, cursor: at(0, 40, 1, 30) },
            Event { kind: EventKind::MismatchedDestinationConnectionId, cursor: at(0, 70, 2, 30) },
            // every segment starts over with its own first id
            Event { kind: EventKind::Packet, cursor: at(1, 100, 0, 20) },
            // the rest of the segment cannot be decoded: it is discarded
            Event { kind: EventKind::UnparseablePacket, cursor: at(1, 120, 1, 20) },
        ]
    );
}

#[test]
fn an_invalid_first_id_leaves_the_next_packet_to_set_it() {
    let decoded = vec![packet(10, b"ab"), packet(10, b"abcdef"), packet(10, b"abcdef")];
    let events = datagram_segment(at(3, 500, 0, 0), 30, &decoded);
    let kinds: Vec<EventKind> = events.iter().map(|e| e.kind).collect();
    assert_eq!(
        kinds,
        vec![
            EventKind::InvalidDestinationConnectionId,
            EventKind::Packet,
            EventKind::Packet
        ]
    );
    assert_eq!(events[2].cursor, at(3, 520, 2, 10));
}

#[test]
fn segment_stops_when_consumed() {
    // decoding is not consulted past the end of the segment
    let decoded = vec![packet(10, b"abcd"), packet(10, b"abcd")];
    let events = datagram_segment(at(0, 0, 0, 0), 10, &decoded);
    assert_eq!(events.len(), 1);
    // an empty segment gives no event
    assert!(datagram_segment(at(0, 0, 0, 0), 0, &decoded).is_empty());
    assert!(datagram(&Vec::new()).is_empty());
}

#[test]
fn quic_packet_remembers_the_first_valid_id() {
    let mut dcid: Option<LocalId> = None;
    let c = at(0, 0, 0, 5);
    let e = quic_packet(c, &mut dcid, b"xyz");
    assert_eq!(e.kind, EventKind::InvalidDestinationConnectionId);
    assert!(dcid.is_none());
    let e = quic_packet(c, &mut dcid, b"wxyz");
    assert_eq!(e, Event { kind: EventKind::Packet, cursor: c });
    assert!(dcid.as_ref().unwrap().matches(b"wxyz"));
    assert_eq!(quic_packet(c, &mut dcid, b"wxyz").kind, EventKind::Packet);
    assert_eq!(
        quic_packet(c, &mut dcid, b"wxyza").kind,
        EventKind::MismatchedDestinationConnectionId
    );
}

#[test]
fn dropped_lengths_saturate() {
    assert_eq!(dropped_len(0), 0);
    assert_eq!(dropped_len(1500), 1500);
    assert_eq!(dropped_len(65535), 65535);
    assert_eq!(dropped_len(70000), u16::MAX);
    let ev = |kind, len| Event { kind, cursor: at(0, 0, 0, len) };
    assert_eq!(event_dropped_len(&ev(EventKind::Packet, 10), 99), None);
    assert_eq!(event_dropped_len(&ev(EventKind::InvalidDestinationConnectionId, 10), 99), Some(10));
    assert_eq!(
        event_dropped_len(&ev(EventKind::MismatchedDestinationConnectionId, 100_000), 99),
        Some(u16::MAX)
    );
    assert_eq!(event_dropped_len(&ev(EventKind::UnparseablePacket, 10), 99), Some(99));
    assert_eq!(event_dropped_len(&ev(EventKind::UnparseablePacket, 10), 1 << 20), Some(u16::MAX));
}
