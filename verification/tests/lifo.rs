use s2n_quic_sync::sync::lifo::{new, ClosedError};
use std::ops::ControlFlow;

#[test]
fn channel_receives_newest_first() {
    let (s, mut r) = new::<u32>(3);
    assert!(s.is_empty(&r));
    assert!(r.is_empty());
    assert_eq!(s.capacity(&r), 3);
    assert_eq!(r.capacity(), 3);
    assert_eq!(s.send(&mut r, 1), Ok(None));
    assert_eq!(s.send(&mut r, 2), Ok(None));
    assert_eq!(s.send(&mut r, 3), Ok(None));
    assert!(s.is_full(&r));
    assert!(r.is_full());
    // a full channel pushes out its oldest message
    assert_eq!(s.send(&mut r, 4), Ok(Some(1)));
    assert_eq!(s.len(&r), 3);
    assert_eq!(r.try_recv(), Ok(Some(4)));
    assert_eq!(r.try_recv(), Ok(Some(3)));
    assert_eq!(r.len(), 1);
    assert_eq!(r.try_recv(), Ok(Some(2)));
    assert_eq!(r.try_recv(), Ok(None));
}

#[test]
fn channel_counts_senders() {
    let (s, mut r) = new::<u8>(2);
    assert_eq!(r.sender_count(), 1);
    assert_eq!(r.receiver_count(), 1);
    assert_eq!(s.receiver_count(&r), 1);
    let s2 = s.clone_for(&mut r);
    assert_eq!(s.sender_count(&r), 2);
    assert_eq!(s2.send(&mut r, 5), Ok(None));
    assert!(!s2.release(&mut r));
    assert_eq!(r.sender_count(), 1);
    // the last sender closes the channel
    assert!(s.release(&mut r));
    assert_eq!(r.sender_count(), 0);
    assert_eq!(r.try_recv(), Ok(Some(5)));
}

#[test]
fn channel_retain_bottom() {
    let (s, mut r) = new::<u32>(4);
    for v in [10, 20, 30, 40] {
        s.send(&mut r, v).unwrap();
    }
    s.retain_bottom(&mut r, |v: &u32| {
        if *v < 30 {
            ControlFlow::Continue(())
        } else {
            ControlFlow::Break(true)
        }
    });
    assert_eq!(r.len(), 2);
    assert_eq!(r.try_recv(), Ok(Some(40)));
    assert_eq!(r.try_recv(), Ok(Some(30)));
}

#[test]
fn closed_error_default() {
    assert_eq!(ClosedError::default(), ClosedError);
}

#[test]
fn empty_closed_channel_is_an_error() {
    let (s, mut r) = new::<u8>(2);
    assert!(!r.is_closed());
    assert_eq!(r.try_recv(), Ok(None));
    s.send(&mut r, 1).unwrap();
    assert!(s.release(&mut r));
    assert!(r.is_closed());
    // what was sent can still be received
    assert_eq!(r.try_recv(), Ok(Some(1)));
    assert_eq!(r.try_recv(), Err(ClosedError));
    assert_eq!(r.len(), 0);
}

#[test]
fn receivers_are_counted() {
    let (s, mut r) = new::<i32>(2);
    assert_eq!(r.receiver_count(), 1);
    r.add_receiver();
    assert_eq!(r.receiver_count(), 2);
    assert_eq!(s.receiver_count(&r), 2);
    assert!(!r.release_receiver());
    assert_eq!(r.receiver_count(), 1);
    assert!(!r.is_closed());
    // the last receiver gone closes the channel
    assert!(r.release_receiver());
    assert!(r.is_closed());
    assert_eq!(r.try_recv(), Err(ClosedError));
}

#[test]
fn channel_of_one() {
    let (s, mut r) = new::<u8>(1);
    assert_eq!(s.send(&mut r, 1), Ok(None));
    assert_eq!(s.send(&mut r, 2), Ok(Some(1)));
    assert_eq!(r.try_recv(), Ok(Some(2)));
    assert_eq!(r.try_recv(), Ok(None));
}

#[test]
fn a_channel_closes_once() {
    let (s, mut r) = new::<u8>(2);
    r.add_receiver();
    // the last sender closes the channel
    assert!(s.release(&mut r));
    assert!(r.is_closed());
    // releasing receivers of a closed channel closes nothing more
    assert!(!r.release_receiver());
    assert!(!r.release_receiver());
    assert_eq!(r.receiver_count(), 0);
}
