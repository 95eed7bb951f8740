use s2n_quic_sync::connection::{InitialId, LocalId, LOCAL_ID_MIN_LEN, MAX_LEN};
use s2n_quic_sync::t2::connection::{Connection, InitialIdMap, LocalIdMap};

fn local(bytes: &[u8]) -> LocalId {
    LocalId::try_from_bytes(bytes).unwrap()
}

fn initial(bytes: &[u8]) -> InitialId {
    InitialId::try_from_bytes(bytes).unwrap()
}

#[test]
fn id_lengths() {
    assert!(LocalId::try_from_bytes(&[1, 2, 3]).is_none());
    assert!(LocalId::try_from_bytes(&[1, 2, 3, 4]).is_some());
    assert!(LocalId::try_from_bytes(&[7u8; MAX_LEN]).is_some());
    assert!(LocalId::try_from_bytes(&[7u8; MAX_LEN + 1]).is_none());
    assert!(InitialId::try_from_bytes(&[1u8; 7]).is_none());
    assert!(InitialId::try_from_bytes(&[1u8; 8]).is_some());
    assert!(InitialId::try_from_bytes(&[1u8; 21]).is_none());

    let id = local(&[9, 8, 7, 6, 5]);
    assert_eq!(id.len(), 5);
    assert!(id.matches(&[9, 8, 7, 6, 5]));
    assert!(!id.matches(&[9, 8, 7, 6]));
    assert!(!id.matches(&[9, 8, 7, 6, 4]));
    assert_eq!(local(&[0u8; LOCAL_ID_MIN_LEN]).len(), LOCAL_ID_MIN_LEN);

    let iid = initial(b"initial!");
    assert!(iid.matches(b"initial!"));
    assert!(!iid.matches(b"initial?"));
}

#[test]
fn local_id_map_insert_get_remove() {
    let mut map = LocalIdMap::new();
    let a = local(b"aaaa");
    let b = local(b"bbbbb");
    assert_eq!(map.get(&a), None);

    assert_eq!(map.try_insert(a, Connection(1)), Ok(()));
    assert_eq!(map.try_insert(b, Connection(2)), Ok(()));
    assert_eq!(map.get(&a), Some(Connection(1)));
    assert_eq!(map.get(&b), Some(Connection(2)));

    // an id that is already mapped is refused and keeps its connection
    assert_eq!(map.try_insert(local(b"aaaa"), Connection(3)), Err(()));
    assert_eq!(map.get(&a), Some(Connection(1)));

    // a longer id with the same prefix is another id
    assert_eq!(map.get(&local(b"aaaaa")), None);

    assert_eq!(map.remove(&a), Some(Connection(1)));
    assert_eq!(map.get(&a), None);
    assert_eq!(map.remove(&a), None);
    assert_eq!(map.get(&b), Some(Connection(2)));

    // once removed, the id can be mapped again
    assert_eq!(map.try_insert(a, Connection(4)), Ok(()));
    assert_eq!(map.get(&a), Some(Connection(4)));
}

#[test]
fn initial_id_map_stays_inverse() {
    let mut map = InitialIdMap::new();
    let x = initial(b"client-x");
    let y = initial(b"client-y");
    assert_eq!(map.try_insert(x, Connection(10)), Ok(()));
    assert_eq!(map.get(&x), Some(Connection(10)));

    // the same id, or the same connection, is refused
    assert_eq!(map.try_insert(initial(b"client-x"), Connection(11)), Err(()));
    assert_eq!(map.try_insert(y, Connection(10)), Err(()));
    assert_eq!(map.get(&y), None);

    assert_eq!(map.try_insert(y, Connection(11)), Ok(()));
    assert_eq!(map.get(&y), Some(Connection(11)));

    // removing by connection takes out both directions
    let removed = map.remove(&Connection(10)).unwrap();
    assert!(removed.matches(b"client-x"));
    assert_eq!(map.get(&x), None);
    assert!(map.remove(&Connection(10)).is_none());
    assert_eq!(map.get(&y), Some(Connection(11)));

    // and frees both for new entries
    assert_eq!(map.try_insert(x, Connection(10)), Ok(()));
    assert_eq!(map.get(&x), Some(Connection(10)));
}
