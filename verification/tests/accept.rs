use s2n_quic_sync::accept::{
    next_acceptor, worker_backlog, Event, Message, ProcessedMessage, Pruner, QueueInner, Strategy,
};

#[test]
fn fifo_serves_in_order_and_drops_new_arrivals_when_full() {
    let mut q = QueueInner::new(Strategy::Fifo, 2);
    assert_eq!(q.send(1, 0, false), None);
    assert_eq!(q.send(2, 1, false), None);
    // full: the new message is handed back
    assert_eq!(q.send(3, 2, false), Some(3));
    assert_eq!(q.len(), 2);
    assert_eq!(q.recv(), Some(1));
    assert_eq!(q.recv(), Some(2));
    assert_eq!(q.recv(), None);
}

#[test]
fn lifo_serves_newest_and_drops_oldest_when_full() {
    let mut q = QueueInner::new(Strategy::Lifo, 2);
    assert_eq!(q.send(1, 0, true), None);
    assert_eq!(q.send(2, 1, true), None);
    // full: the oldest waiting message is dropped
    assert_eq!(q.send(3, 2, true), Some(1));
    assert_eq!(q.len(), 2);
    assert_eq!(q.recv(), Some(3));
    assert_eq!(q.recv(), Some(2));
    assert_eq!(q.recv(), None);
}

#[test]
fn lifo_with_no_backlog_still_holds_the_newest() {
    let mut q = QueueInner::new(Strategy::LifoPrune, 0);
    assert_eq!(q.send(7, 0, false), None);
    assert_eq!(q.len(), 1);
    assert_eq!(q.recv(), Some(7));
}

#[test]
fn random_strategy_follows_the_coin() {
    let mut q = QueueInner::new(Strategy::Random, 1);
    // heads: FIFO, the queue takes the message
    assert_eq!(q.send(1, 0, true), None);
    // heads on a full queue: FIFO drops the new message
    assert_eq!(q.send(2, 0, true), Some(2));
    // tails on a full queue: LIFO drops the oldest
    assert_eq!(q.send(3, 0, false), Some(1));
    assert_eq!(q.recv(), Some(3));
}

#[test]
fn prune_drops_old_back_entries_but_never_the_last() {
    let pruner = Pruner::new();
    let mut q = QueueInner::new(Strategy::LifoPrune, 8);
    q.send("a", 100, false);
    // a single entry is never pruned
    assert_eq!(pruner.prune(&mut q, 10, 1000), None);
    q.send("b", 200, false);
    q.send("c", 300, false);
    // the back entry ("a", from 100) has waited 5 < 10
    assert_eq!(pruner.prune(&mut q, 10, 105), None);
    // it has now waited exactly the threshold
    assert_eq!(pruner.prune(&mut q, 10, 110), Some("a"));
    assert_eq!(q.prune(100, 300), Some("b"));
    assert_eq!(q.prune(0, 10_000), None);
    assert_eq!(q.len(), 1);
    // a clock that runs behind counts as no wait
    q.send("d", 500, false);
    assert_eq!(q.prune(1, 250), None);
    assert_eq!(q.prune(0, 250), Some("c"));
}

#[test]
fn worker_backlog_rounds_up() {
    assert_eq!(worker_backlog(10, 1), 10);
    assert_eq!(worker_backlog(10, 3), 4);
    assert_eq!(worker_backlog(9, 3), 3);
    assert_eq!(worker_backlog(0, 4), 0);
    assert_eq!(worker_backlog(1, 4), 1);
}

#[test]
fn round_robin_wraps() {
    assert_eq!(next_acceptor(0, 3), 1);
    assert_eq!(next_acceptor(1, 3), 2);
    assert_eq!(next_acceptor(2, 3), 0);
    assert_eq!(next_acceptor(0, 1), 0);
}

#[test]
fn processed_messages_know_their_delay() {
    let m = Message::new(3, 1_000);
    assert_eq!(m, Message { time: 1_000, client: 3 });
    let p = m.process(Event::WorkerDrop, 2_500);
    assert_eq!(
        p,
        ProcessedMessage {
            message: m,
            event: Event::WorkerDrop,
            time: 2_500
        }
    );
    assert_eq!(p.elapsed(), 1_500);
    assert_eq!(m.process(Event::App, 1_000).elapsed(), 0);
    // seen processed before it was sent: no time
    assert_eq!(m.process(Event::App, 500).elapsed(), 0);
}

#[test]
fn only_a_full_fifo_queue_turns_messages_away() {
    let mut q = QueueInner::new(Strategy::Fifo, 1);
    assert!(q.accepts(false));
    q.send(1, 0, false);
    assert!(!q.accepts(false));
    assert_eq!(q.send(2, 0, false), Some(2));
    let mut q = QueueInner::new(Strategy::Lifo, 1);
    q.send(1, 0, false);
    assert!(q.accepts(false));
    let mut q = QueueInner::new(Strategy::Random, 1);
    q.send(1, 0, true);
    assert!(!q.accepts(true));
    assert!(q.accepts(false));
}
