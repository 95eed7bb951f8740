use s2n_quic_sync::connection::LocalId;
use s2n_quic_sync::t2::buffer::{Bump, Range};
use s2n_quic_sync::t2::connection::{Connection, LocalIdMap};
use s2n_quic_sync::t2::inbound::{
    on_recv, parse_packet, DecodedPacket, Ecn, PacketKind, RecvResult, RecvStep, Routed,
};
use s2n_quic_sync::inet::ExplicitCongestionNotification;

fn payload(len: usize) -> (Bump, Range) {
    let mut bump = Bump::new(len as u32);
    let mut heap = bump.allocate(len).unwrap();
    let range = heap.aquire(&bump).allocate(len).unwrap();
    (bump, range)
}

fn decoded(kind: PacketKind, dcid: &[u8], header_len: usize, len: usize) -> Option<DecodedPacket> {
    Some(DecodedPacket {
        kind,
        destination_connection_id: dcid.to_vec(),
        header_len,
        len,
    })
}

#[test]
fn packets_are_routed_by_type_and_id() {
    let mut ids = LocalIdMap::new();
    ids.try_insert(LocalId::try_from_bytes(b"known-id").unwrap(), Connection(5))
        .unwrap();
    let (mut bump, mut rest) = payload(100);
    bump.get(&rest).copy_from_slice(&[7u8; 100]);

    match parse_packet(decoded(PacketKind::Initial, b"abcdefgh", 12, 30), &ids, &mut rest) {
        Routed::Initial(p) => {
            assert_eq!(p.header_len, 12);
            assert_eq!(p.payload.len(), 30);
        }
        other => panic!("unexpected {other:?}"),
    }
    assert_eq!(rest.len(), 70);

    match parse_packet(decoded(PacketKind::Handshake, b"known-id", 9, 20), &ids, &mut rest) {
        Routed::Handshake(p, c) => {
            assert_eq!(c, Connection(5));
            assert_eq!(p.payload.len(), 20);
            assert_eq!(bump.get(&p.payload), &[7u8; 20]);
        }
        other => panic!("unexpected {other:?}"),
    }
    assert_eq!(rest.len(), 50);

    assert!(matches!(
        parse_packet(decoded(PacketKind::Handshake, b"other-id", 9, 10), &ids, &mut rest),
        Routed::UnknownConnection
    ));
    assert_eq!(rest.len(), 40);

    // an id too short to be one of ours: the packet is skipped
    assert!(matches!(
        parse_packet(decoded(PacketKind::Initial, b"ab", 5, 10), &ids, &mut rest),
        Routed::InvalidDestinationConnectionId
    ));
    assert_eq!(rest.len(), 30);

    // other packet types drop the rest of the payload
    assert!(matches!(
        parse_packet(decoded(PacketKind::Short, b"known-id", 5, 10), &ids, &mut rest),
        Routed::Unsupported
    ));
    assert!(rest.is_empty());
}

#[test]
fn undecodable_payload_is_dropped() {
    let ids = LocalIdMap::new();
    let (_bump, mut rest) = payload(40);
    assert!(matches!(parse_packet(None, &ids, &mut rest), Routed::Undecodable));
    assert!(rest.is_empty());
}

#[test]
fn ecn_defaults_to_not_ect() {
    assert_eq!(Ecn::default(), Ecn(ExplicitCongestionNotification::NotEct));
}

#[test]
fn received_datagrams_keep_only_their_bytes() {
    let mut bump = Bump::new(3000);
    let mut heap = bump.allocate(3000).unwrap();
    let mut hb = heap.aquire(&bump);

    let range = hb.allocate(1500).unwrap();
    bump.get(&range)[..5].copy_from_slice(b"hello");
    let payload = match on_recv(&mut hb, range, RecvResult::Received(5)) {
        RecvStep::Datagram(p) => p,
        other => panic!("unexpected {other:?}"),
    };
    assert_eq!(bump.get(&payload.0), b"hello");
    // the unused part went back: 2995 bytes are left
    let next = hb.allocate(2995).unwrap();
    assert!(hb.allocate(1).is_none());

    // an empty datagram is skipped
    assert!(matches!(on_recv(&mut hb, next, RecvResult::Received(0)), RecvStep::Again));
    // nothing more to receive, or a failure, stops the loop
    let mut bump2 = Bump::new(10);
    let mut heap2 = bump2.allocate(10).unwrap();
    let mut hb2 = heap2.aquire(&bump2);
    let r = hb2.allocate(10).unwrap();
    assert!(matches!(on_recv(&mut hb2, r, RecvResult::WouldBlock), RecvStep::Stop));
    let r = hb2.allocate(0).unwrap();
    assert!(matches!(on_recv(&mut hb2, r, RecvResult::Failed), RecvStep::Stop));
    // a datagram longer than its range is skipped
    let mut bump3 = Bump::new(10);
    let mut heap3 = bump3.allocate(10).unwrap();
    let mut hb3 = heap3.aquire(&bump3);
    let r = hb3.allocate(4).unwrap();
    assert!(matches!(on_recv(&mut hb3, r, RecvResult::Received(5)), RecvStep::Again));
    let _ = bump3.get(&hb3.allocate(6).unwrap());
}
