use s2n_quic_sync::connection::InitialId;
use s2n_quic_sync::system::packet_rx_classify::classify_rx;
use s2n_quic_sync::t2::connection::{Connection, InitialIdMap};

fn id(bytes: &[u8]) -> InitialId {
    InitialId::try_from_bytes(bytes).unwrap()
}

#[test]
fn packets_of_unknown_connections_are_marked() {
    let mut ids = InitialIdMap::new();
    ids.try_insert(id(b"known-01"), Connection(100)).unwrap();
    let packets = vec![
        (1, id(b"known-01")),
        (2, id(b"stranger")),
        (3, id(b"known-01")),
        (4, id(b"other-id")),
    ];
    assert_eq!(classify_rx(&packets, &ids), vec![2, 4]);
    assert!(classify_rx(&Vec::new(), &ids).is_empty());
    assert_eq!(classify_rx(&packets, &InitialIdMap::new()), vec![1, 2, 3, 4]);
}
