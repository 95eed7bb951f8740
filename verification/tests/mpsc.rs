use s2n_quic_sync::sync::mpsc::{Cursors, Desync};
use std::cell::Cell;

#[test]
fn cursors_pop_in_push_order() {
    let mut c = Cursors::new();
    c.init();
    assert!(c.pop().is_none());
    c.push(1);
    c.push(2);
    c.push(3);
    assert_eq!(c.pop(), Some(Ok(1)));
    c.push(4);
    assert_eq!(c.pop_try_sync(4), Some(Ok(2)));
    let stalls = Cell::new(0);
    assert_eq!(c.pop_sync(4, || stalls.set(stalls.get() + 1)), Some(3));
    assert_eq!(stalls.get(), 0);
    assert_eq!(c.pop(), Some(Ok(4)));
    assert_eq!(c.pop_try_sync(1), None);
    assert_eq!(c.pop_sync(1, || {}), None);
}

#[test]
fn cursors_try_without_attempts_is_desynchronized() {
    let mut c = Cursors::new();
    c.init();
    c.push("a");
    assert_eq!(c.pop_try_sync(0), Some(Err(Desync)));
    // nothing was taken
    assert_eq!(c.pop(), Some(Ok("a")));
}

#[test]
fn cursors_clear_drops_everything() {
    let mut c = Cursors::new();
    c.init();
    for v in 0..10 {
        c.push(v);
    }
    c.clear();
    assert_eq!(c.pop(), None);
    c.push(11);
    assert_eq!(c.pop(), Some(Ok(11)));
}
