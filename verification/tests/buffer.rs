use s2n_quic_sync::t2::buffer::{tick, Bump};

#[test]
fn bump_hands_out_heaps_in_order() {
    let mut bump = Bump::new(100);
    let mut first = bump.allocate(40).unwrap();
    let mut second = bump.allocate(60).unwrap();
    // nothing is left
    assert!(bump.allocate(1).is_none());
    // a zero-length heap is still available
    assert!(bump.allocate(0).is_some());

    let mut a = first.aquire(&bump);
    let mut b = second.aquire(&bump);
    let ra = a.allocate(40).unwrap();
    let rb = b.allocate(60).unwrap();
    assert_eq!(ra.len(), 40);
    assert_eq!(rb.len(), 60);
    assert!(a.allocate(1).is_none());

    // the two heaps cover disjoint bytes
    bump.get(&ra).fill(1);
    bump.get(&rb).fill(2);
    assert!(bump.get(&ra).iter().all(|b| *b == 1));
    assert!(bump.get(&rb).iter().all(|b| *b == 2));
}

#[test]
fn heap_ranges_read_what_was_written() {
    let mut bump = Bump::new(16);
    assert!(bump.allocate(17).is_none());
    let mut heap = bump.allocate(16).unwrap();
    let mut hb = heap.aquire(&bump);
    let r1 = hb.allocate(4).unwrap();
    let r2 = hb.allocate(8).unwrap();
    assert!(hb.allocate(5).is_none());
    let r3 = hb.allocate(4).unwrap();
    assert!(hb.allocate(1).is_none());

    heap.get(&mut bump, &r1).copy_from_slice(b"abcd");
    hb.get(&mut bump, &r2).copy_from_slice(b"efghijkl");
    bump.get(&r3).copy_from_slice(b"mnop");
    assert_eq!(bump.get(&r1), b"abcd");
    assert_eq!(bump.get(&r2), b"efghijkl");
    assert_eq!(bump.get(&r3), b"mnop");
    // a new buffer is zeroed
    let mut fresh = Bump::new(4);
    let mut h = fresh.allocate(4).unwrap();
    let r = h.aquire(&fresh).allocate(4).unwrap();
    assert_eq!(fresh.get(&r), &[0u8, 0, 0, 0]);
}

#[test]
fn dealloc_rolls_back_the_last_allocation() {
    let mut bump = Bump::new(32);
    let mut heap = bump.allocate(32).unwrap();
    let mut hb = heap.aquire(&bump);
    let first = hb.allocate(10).unwrap();
    let last = hb.allocate(10).unwrap();
    // giving back the last allocation makes its bytes available again
    hb.dealloc(last);
    let again = hb.allocate(22).unwrap();
    assert_eq!(again.len(), 22);
    assert!(hb.allocate(1).is_none());
    // giving back an earlier one does not: the bytes wait for the next tick
    hb.dealloc(first);
    assert!(hb.allocate(1).is_none());
}

#[test]
fn range_split_to_and_off() {
    let mut bump = Bump::new(10);
    let mut heap = bump.allocate(10).unwrap();
    let mut hb = heap.aquire(&bump);
    let mut r = hb.allocate(10).unwrap();
    bump.get(&r).copy_from_slice(b"0123456789");

    let front = r.split_to(3).unwrap();
    assert_eq!(front.len(), 3);
    assert_eq!(r.len(), 7);
    assert_eq!(bump.get(&front), b"012");
    assert_eq!(bump.get(&r), b"3456789");

    // too long: nothing changes
    assert!(r.split_to(8).is_none());
    assert_eq!(r.len(), 7);

    let back = r.split_off(5).unwrap();
    assert_eq!(bump.get(&r), b"34567");
    assert_eq!(bump.get(&back), b"89");
    assert!(r.split_off(6).is_none());

    assert!(!r.is_empty());
    r.clear();
    assert!(r.is_empty());
    assert_eq!(r.len(), 0);
    assert_eq!(bump.get(&r), b"");
}

#[test]
fn generations_move_on_with_tick() {
    let mut bump = Bump::new(8);
    let mut heap = bump.allocate(8).unwrap();
    let mut hb = heap.aquire(&bump);
    let r = hb.allocate(8).unwrap();
    bump.get(&r).copy_from_slice(b"abcdefgh");

    // the next generation: the heap may be acquired again and starts over
    tick(&mut bump);
    let mut hb2 = heap.aquire(&bump);
    let r2 = hb2.allocate(8).unwrap();
    assert_eq!(bump.get(&r2), b"abcdefgh");

    // ticking the bump's own unassigned range keeps the bytes
    bump.tick();
    assert_eq!(bump.get(&r2), b"abcdefgh");
}

#[test]
fn a_heap_keeps_up_with_the_buffer() {
    let mut bump = Bump::new(8);
    let mut heap = bump.allocate(8).unwrap();
    assert!(heap.try_aquire(&bump).is_some());
    // acquiring again in the same generation passes the check
    assert!(heap.try_aquire(&bump).is_some());
    tick(&mut bump);
    assert!(heap.try_aquire(&bump).is_some());
    // a heap that skipped a generation is behind the buffer
    tick(&mut bump);
    tick(&mut bump);
    assert!(heap.try_aquire(&bump).is_none());
}

#[test]
fn a_stale_heap_is_refused() {
    let mut bump = Bump::new(8);
    let mut heap = bump.allocate(8).unwrap();
    tick(&mut bump);
    // the heap was never acquired and the buffer moved on
    assert!(heap.try_aquire(&bump).is_none());
    // and it stays as it was
    assert!(heap.try_aquire(&bump).is_none());
}
