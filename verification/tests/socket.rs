use s2n_quic_sync::socket::send::{BatchPoll, SendBatch, SendOutcome, SocketKind};
use s2n_quic_sync::socket::task::{
    flush_round, poll_ready, recycle, AtCapacity, ChannelSlots, FlushPoll, FlushStep, FlushTask,
    ReadyPoll, SendPoll,
    TxQueue, FLUSH_ROUNDS,
};
use s2n_quic_sync::socket::send::SendOutcome::{Failed, Interrupted, Sent, WouldBlock};
use s2n_quic_sync::socket::task::SlicePoll::{Closed, Pending, Ready};
use std::collections::VecDeque;

fn slots(free: usize, occupied_capacity: usize) -> ChannelSlots {
    ChannelSlots {
        free,
        occupied_capacity,
    }
}

#[test]
fn tx_queue_fills_the_usable_channels_in_order() {
    // channel 1 has no free descriptor and channel 3 no room: both are skipped
    let channels = vec![slots(2, 5), slots(0, 4), slots(3, 1), slots(4, 0)];
    let mut q = TxQueue::new(&channels);
    assert_eq!(q.capacity(), 3);
    assert!(!q.is_full());

    assert_eq!(q.reserve(), Ok(0));
    q.commit();
    assert_eq!(q.reserve(), Ok(0));
    q.commit();
    // channel 0 ran out of free descriptors
    assert_eq!(q.reserve(), Ok(2));
    assert_eq!(q.capacity(), 1);
    q.commit();
    assert_eq!(q.capacity(), 0);
    assert!(q.is_full());
    assert_eq!(q.reserve(), Err(AtCapacity));
}

#[test]
fn tx_queue_without_room_is_full() {
    let q = TxQueue::new(&vec![slots(0, 3), slots(3, 0)]);
    assert!(q.is_full());
    assert_eq!(q.reserve(), Err(AtCapacity));
    assert!(TxQueue::new(&Vec::new()).is_full());
}

#[test]
fn poll_ready_needs_one_ready_pair() {
    // a round that did not fill the queue needs no capacity
    assert_eq!(poll_ready(false, &vec![(Ready, Ready)]), ReadyPoll::Pending);
    assert_eq!(poll_ready(true, &vec![(Ready, Pending), (Ready, Ready)]), ReadyPoll::Ready);
    assert_eq!(poll_ready(true, &vec![(Ready, Pending), (Pending, Ready)]), ReadyPoll::Pending);
    assert_eq!(poll_ready(true, &vec![(Ready, Ready), (Pending, Closed)]), ReadyPoll::Closed);
    assert_eq!(poll_ready(true, &Vec::new()), ReadyPoll::Pending);
}

#[test]
fn recycle_moves_sent_descriptors_back() {
    let mut occupied: VecDeque<u32> = (1..=5).collect();
    let mut free: VecDeque<u32> = VecDeque::from(vec![10]);
    recycle(&mut occupied, &mut free, 8, 3);
    assert_eq!(occupied, VecDeque::from(vec![4, 5]));
    assert_eq!(free, VecDeque::from(vec![10, 1, 2, 3]));
    // more than are occupied: all of them move
    recycle(&mut occupied, &mut free, 8, 10);
    assert!(occupied.is_empty());
    assert_eq!(free, VecDeque::from(vec![10, 1, 2, 3, 4, 5]));
    // a full free queue drops what does not fit
    let mut occupied: VecDeque<u32> = (1..=3).collect();
    let mut free: VecDeque<u32> = VecDeque::from(vec![9]);
    recycle(&mut occupied, &mut free, 2, 3);
    assert!(occupied.is_empty());
    assert_eq!(free, VecDeque::from(vec![9, 1]));
}

#[test]
fn flush_rounds_follow_the_socket() {
    assert_eq!(FLUSH_ROUNDS, 10);
    let mut occupied: VecDeque<u8> = VecDeque::from(vec![1, 2]);
    let mut free: VecDeque<u8> = VecDeque::new();
    assert_eq!(flush_round(&mut occupied, &mut free, 4, SendPoll::Sent(1)), FlushStep::Again);
    assert_eq!(occupied, VecDeque::from(vec![2]));
    assert_eq!(free, VecDeque::from(vec![1]));
    assert_eq!(flush_round(&mut occupied, &mut free, 4, SendPoll::Pending), FlushStep::Wait);
    assert_eq!(flush_round(&mut occupied, &mut free, 4, SendPoll::Failed), FlushStep::Done);
    assert_eq!(occupied.len(), 1);
    assert_eq!(free.len(), 1);
}

fn run(kind: SocketKind, outcomes: &[SendOutcome]) -> (BatchPoll, bool, usize) {
    let mut batch = SendBatch::new(kind);
    let mut used = 0;
    for o in outcomes {
        used += 1;
        if !batch.on_outcome(*o) {
            break;
        }
    }
    (batch.finish(), batch.needs_wake(), used)
}

#[test]
fn send_batches_count_what_left() {
    // errors give the packet up and count
    assert_eq!(run(SocketKind::Direct, &[Sent, Failed, Interrupted]), (BatchPoll::Ready(3), false, 3));
    // a full direct socket stops the batch and asks for a wakeup
    assert_eq!(run(SocketKind::Direct, &[Sent, WouldBlock, Sent]), (BatchPoll::Ready(1), true, 2));
    assert_eq!(run(SocketKind::Direct, &[WouldBlock]), (BatchPoll::Pending, true, 1));
    // a polled socket that is not ready stops without a wakeup
    assert_eq!(run(SocketKind::Polled, &[Sent, Sent, WouldBlock]), (BatchPoll::Ready(2), false, 3));
    // behind a readiness guard a full socket gives up the count
    assert_eq!(run(SocketKind::Guarded, &[Sent, Sent, WouldBlock]), (BatchPoll::Pending, false, 3));
    // and an interrupted call stops with a wakeup, keeping the count
    assert_eq!(run(SocketKind::Guarded, &[Sent, Interrupted, Sent]), (BatchPoll::Ready(1), true, 2));
    // an empty batch is pending
    assert_eq!(run(SocketKind::Polled, &[]), (BatchPoll::Pending, false, 0));
}

#[test]
fn flush_task_yields_after_its_rounds() {
    let mut task = FlushTask::new();
    let mut occupied: VecDeque<u32> = (0..100).collect();
    let mut free: VecDeque<u32> = VecDeque::new();
    let mut rounds = 0;
    loop {
        if let Some(poll) = task.before_round(if occupied.is_empty() { Pending } else { Ready }, Ready) {
            // ten rounds made: yield, asking to be polled again
            assert_eq!(poll, FlushPoll::Pending { wake: true });
            break;
        }
        rounds += 1;
        assert_eq!(task.after_round(&mut occupied, &mut free, 1000, SendPoll::Sent(3)), None);
    }
    assert_eq!(rounds, FLUSH_ROUNDS);
    assert_eq!(occupied.len(), 70);
    assert_eq!(free.len(), 30);
    assert_eq!(free[0], 0);

    // nothing occupied: wait for descriptors
    let task = FlushTask::new();
    assert_eq!(task.before_round(Pending, Ready), Some(FlushPoll::Pending { wake: false }));
    // no room to give descriptors back: wait
    assert_eq!(task.before_round(Ready, Pending), Some(FlushPoll::Pending { wake: false }));
    // a closed queue ends the task, the occupied one looked at first
    assert_eq!(task.before_round(Closed, Pending), Some(FlushPoll::Ready));
    assert_eq!(task.before_round(Pending, Closed), Some(FlushPoll::Pending { wake: false }));
    assert_eq!(task.before_round(Ready, Closed), Some(FlushPoll::Ready));
    // a failed socket ends the task, a socket not ready makes it wait
    let mut task = FlushTask::new();
    assert_eq!(task.before_round(Ready, Ready), None);
    assert_eq!(task.after_round(&mut occupied, &mut free, 1000, SendPoll::Failed), Some(FlushPoll::Ready));
    let mut task = FlushTask::new();
    assert_eq!(
        task.after_round(&mut occupied, &mut free, 1000, SendPoll::Pending),
        Some(FlushPoll::Pending { wake: false })
    );
    assert_eq!(occupied.len(), 70);
}
