//! The decisions of the transmit side of a socket task.
//!
//! Packets travel between the endpoint and the socket through pairs of
//! queues: a queue of free descriptors and a queue of occupied ones. The
//! endpoint fills free descriptors and moves them to the occupied queue; the
//! socket sends occupied descriptors and gives them back to the free queue.
//! The queues themselves and the polling of them are the caller's; this
//! module holds what is decided from their lengths and from what the socket
//! reports.

use std::collections::VecDeque;
use vstd::prelude::*;

verus! {

/// What the transmit logic reads of one pair of queues: the free descriptors
/// ready to be filled, and the room left in the occupied queue.
#[derive(Clone, Copy, Debug, PartialEq, Eq, Structural)]
pub struct ChannelSlots {
    pub free: usize,
    pub occupied_capacity: usize,
}

/// Returned when a packet is queued with no room left.
#[derive(Clone, Copy, Debug, PartialEq, Eq, Structural)]
pub struct AtCapacity;

/// A pair of queues can take a packet: a free descriptor and room to push it.
pub open spec fn usable(s: ChannelSlots) -> bool {
    s.free > 0 && s.occupied_capacity > 0
}

/// The packets a pair of queues can take: the smaller of its two counts.
pub open spec fn room(s: ChannelSlots) -> nat {
    if s.free <= s.occupied_capacity {
        s.free as nat
    } else {
        s.occupied_capacity as nat
    }
}

/// The pairs among the first `n` that can take a packet, with their positions.
pub open spec fn selected(cs: Seq<ChannelSlots>, n: int) -> Seq<(usize, ChannelSlots)>
    decreases n,
{
    if n <= 0 {
        Seq::empty()
    } else {
        let r = selected(cs, n - 1);
        if usable(cs[n - 1]) {
            r.push(((n - 1) as usize, cs[n - 1]))
        } else {
            r
        }
    }
}

/// The packets that a list of pairs can take.
pub open spec fn total_room(s: Seq<(usize, ChannelSlots)>) -> nat
    decreases s.len(),
{
    if s.len() == 0 {
        0
    } else {
        room(s[0].1) + total_room(s.drop_first())
    }
}

/// The packets that the first `n` pairs can take.
pub open spec fn prefix_room(cs: Seq<ChannelSlots>, n: int) -> nat
    decreases n,
{
    if n <= 0 {
        0
    } else {
        prefix_room(cs, n - 1) + room(cs[n - 1])
    }
}

/// Every pair of the list can take a packet.
pub open spec fn all_usable(s: Seq<(usize, ChannelSlots)>) -> bool {
    forall|i: int| 0 <= i < s.len() ==> #[trigger] usable(s[i].1)
}

/// The total room of a list extended at the back.
proof fn lemma_total_room_push(s: Seq<(usize, ChannelSlots)>, x: (usize, ChannelSlots))
    ensures
        total_room(s.push(x)) == total_room(s) + room(x.1),
    decreases s.len(),
{
    assert(s.push(x)[0] == (if s.len() == 0 { x } else { s[0] }));
    if s.len() == 0 {
        assert(s.push(x).drop_first() =~= s);
    } else {
        assert(s.push(x).drop_first() =~= s.drop_first().push(x));
        lemma_total_room_push(s.drop_first(), x);
    }
}

/// The pairs that are kept, and the room they have, over a prefix.
proof fn lemma_selected_step(cs: Seq<ChannelSlots>, n: int)
    requires
        0 <= n,
        all_usable(selected(cs, n)),
        total_room(selected(cs, n)) == prefix_room(cs, n),
        n < cs.len(),
    ensures
        all_usable(selected(cs, n + 1)),
        total_room(selected(cs, n + 1)) == prefix_room(cs, n + 1),
{
    let r = selected(cs, n);
    if usable(cs[n]) {
        lemma_total_room_push(r, (n as usize, cs[n]));
        assert forall|i: int| 0 <= i < selected(cs, n + 1).len() implies #[trigger] usable(
            selected(cs, n + 1)[i].1,
        ) by {
            if i < r.len() {
                assert(selected(cs, n + 1)[i] == r[i]);
            }
        }
    } else {
        assert(room(cs[n]) == 0);
    }
}

/// With every pair usable, no room is left exactly when no pair is left.
pub proof fn lemma_room_zero_iff_empty(s: Seq<(usize, ChannelSlots)>)
    requires
        all_usable(s),
    ensures
        (total_room(s) == 0) <==> (s.len() == 0),
{
    if s.len() > 0 {
        assert(usable(s[0].1));
    }
}

/// The queue of one round of transmissions: the pairs that can take a
/// packet, in order, the one being filled, and the room left.
pub struct TxQueue {
    slices: Vec<(usize, ChannelSlots)>,
    slice_index: usize,
    capacity: usize,
}

impl TxQueue {
    /// The pairs not exhausted yet, the one being filled first.
    pub closed spec fn remaining(&self) -> Seq<(usize, ChannelSlots)> {
        self.slices@.skip(self.slice_index as int)
    }

    /// The packets the queue can still take.
    pub closed spec fn room_left(&self) -> nat {
        self.capacity as nat
    }

    /// Every pair left can take a packet, and the room left is theirs.
    pub closed spec fn wf(&self) -> bool {
        &&& self.slice_index <= self.slices@.len()
        &&& all_usable(self.remaining())
        &&& self.capacity == total_room(self.remaining())
    }

    /// Starts a round over the pairs `channels`: the pairs that can take a
    /// packet are selected, in order, and the room is theirs.
    ///
    /// The total room must fit in a `usize`.
    pub fn new(channels: &Vec<ChannelSlots>) -> (q: TxQueue)
        requires
            prefix_room(channels@, channels@.len() as int) <= usize::MAX,
        ensures
            q.wf(),
            q.remaining() == selected(channels@, channels@.len() as int),
            q.room_left() == prefix_room(channels@, channels@.len() as int),
    {
        let mut slices: Vec<(usize, ChannelSlots)> = Vec::new();
        let mut capacity: usize = 0;
        let mut i: usize = 0;
        while i < channels.len()
            invariant
                i <= channels@.len(),
                prefix_room(channels@, channels@.len() as int) <= usize::MAX,
                slices@ == selected(channels@, i as int),
                all_usable(slices@),
                capacity == prefix_room(channels@, i as int),
                capacity == total_room(slices@),
            decreases channels@.len() - i,
        {
            let c = channels[i];
            proof {
                lemma_selected_step(channels@, i as int);
                lemma_prefix_room_mono(channels@, i as int + 1, channels@.len() as int);
            }
            if c.free > 0 && c.occupied_capacity > 0 {
                let r = if c.free <= c.occupied_capacity {
                    c.free
                } else {
                    c.occupied_capacity
                };
                capacity = capacity + r;
                slices.push((i, c));
            }
            i = i + 1;
        }
        let q = TxQueue { slices, slice_index: 0, capacity };
        proof {
            assert(q.remaining() =~= slices@);
        }
        q
    }

    /// The packets the queue can still take.
    #[inline]
    pub fn capacity(&self) -> (r: usize)
        ensures
            r == self.room_left(),
    {
        self.capacity
    }

    /// Returns `true` when the queue can take no more packet, which is when
    /// no pair is left.
    #[inline]
    pub fn is_full(&self) -> (r: bool)
        requires
            self.wf(),
        ensures
            r == (self.room_left() == 0),
            r == (self.remaining().len() == 0),
    {
        proof {
            lemma_room_zero_iff_empty(self.remaining());
        }
        self.capacity == 0
    }

    /// The position of the pair that the next packet goes to; `AtCapacity`
    /// when the queue can take no more.
    pub fn reserve(&self) -> (r: Result<usize, AtCapacity>)
        requires
            self.wf(),
        ensures
            self.room_left() == 0 ==> r == Err::<usize, AtCapacity>(AtCapacity),
            self.room_left() > 0 ==> r == Ok::<usize, AtCapacity>(self.remaining()[0].0),
    {
        // if we're at capacity, then return an error
        if self.capacity == 0 {
            return Err(AtCapacity);
        }
        proof {
            lemma_room_zero_iff_empty(self.remaining());
            assert(self.remaining()[0] == self.slices@[self.slice_index as int]);
        }
        Ok(self.slices[self.slice_index].0)
    }

    /// Records that a packet was written into a free descriptor of the
    /// reserved pair and moved to its occupied queue. A pair that can take
    /// no more is left behind.
    pub fn commit(&mut self)
        requires
            old(self).wf(),
            old(self).room_left() > 0,
        ensures
            final(self).wf(),
            final(self).room_left() == old(self).room_left() - 1,
            ({
                let (at, s) = old(self).remaining()[0];
                let next = ChannelSlots {
                    free: (s.free - 1) as usize,
                    occupied_capacity: (s.occupied_capacity - 1) as usize,
                };
                if usable(next) {
                    final(self).remaining() == old(self).remaining().update(0, (at, next))
                } else {
                    final(self).remaining() == old(self).remaining().drop_first()
                }
            }),
    {
        let ghost before = self.remaining();
        proof {
            lemma_room_zero_iff_empty(before);
            assert(before[0] == self.slices@[self.slice_index as int]);
            assert(usable(before[0].1));
            assert(self.slice_index < self.slices@.len());
        }
        let n = self.slices.len();
        let idx = self.slice_index;
        let (at, s) = self.slices[idx];
        let next = ChannelSlots { free: s.free - 1, occupied_capacity: s.occupied_capacity - 1 };
        self.slices.set(idx, (at, next));
        proof {
            assert(room(next) + 1 == room(s));
            assert(self.remaining() =~= before.update(0, (at, next)));
            assert(self.remaining().drop_first() =~= before.drop_first());
        }
        // if this pair is exhausted then move on to the next one
        if next.free == 0 || next.occupied_capacity == 0 {
            self.slice_index = idx + 1;
            proof {
                assert(self.remaining() =~= before.drop_first());
                assert forall|i: int| 0 <= i < self.remaining().len() implies #[trigger] usable(
                    self.remaining()[i].1,
                ) by {
                    assert(self.remaining()[i] == before[i + 1]);
                }
            }
        } else {
            proof {
                assert forall|i: int| 0 <= i < self.remaining().len() implies #[trigger] usable(
                    self.remaining()[i].1,
                ) by {
                    if i > 0 {
                        assert(self.remaining()[i] == before[i]);
                    }
                }
            }
        }
        self.capacity = self.capacity - 1;
    }
}

/// The room of a prefix grows with the prefix.
proof fn lemma_prefix_room_mono(cs: Seq<ChannelSlots>, a: int, b: int)
    requires
        0 <= a <= b,
    ensures
        prefix_room(cs, a) <= prefix_room(cs, b),
    decreases b - a,
{
    if a < b {
        lemma_prefix_room_mono(cs, a, b - 1);
    }
}

/// What polling one queue of a pair gives.
#[derive(Clone, Copy, Debug, PartialEq, Eq, Structural)]
pub enum SlicePoll {
    Ready,
    Pending,
    Closed,
}

/// Whether the transmit side can make progress.
#[derive(Clone, Copy, Debug, PartialEq, Eq, Structural)]
pub enum ReadyPoll {
    Ready,
    Pending,
    /// A queue was closed: the endpoint shuts down, or a task panicked.
    Closed,
}

/// Some queue of the polled pairs is closed.
pub open spec fn any_closed(polls: Seq<(SlicePoll, SlicePoll)>) -> bool {
    exists|i: int| #![trigger polls[i]] 0 <= i < polls.len() && (polls[i].0 == SlicePoll::Closed || polls[i].1 == SlicePoll::Closed)
}

/// Some polled pair has both queues ready.
pub open spec fn any_ready(polls: Seq<(SlicePoll, SlicePoll)>) -> bool {
    exists|i: int| #![trigger polls[i]] 0 <= i < polls.len() && (polls[i].0 == SlicePoll::Ready && polls[i].1 == SlicePoll::Ready)
}

/// Whether the transmit side is ready, given whether the last round filled
/// the queue and what polling each pair's occupied and free queues gave.
///
/// A round that did not fill the queue needs no capacity: pending. Otherwise
/// a closed queue is an error, and one pair with both queues ready is enough.
pub fn poll_ready(is_full: bool, polls: &Vec<(SlicePoll, SlicePoll)>) -> (r: ReadyPoll)
    ensures
        r == (if !is_full {
            ReadyPoll::Pending
        } else if any_closed(polls@) {
            ReadyPoll::Closed
        } else if any_ready(polls@) {
            ReadyPoll::Ready
        } else {
            ReadyPoll::Pending
        }),
{
    // If we didn't fill up the queue then we don't need to poll for capacity
    if !is_full {
        return ReadyPoll::Pending;
    }

    // look at both queues of every pair to make sure we can make progress in both
    let mut is_any_ready = false;
    let mut i: usize = 0;
    while i < polls.len()
        invariant
            is_full,
            i <= polls@.len(),
            forall|j: int| #![trigger polls@[j]] 0 <= j < i ==> !(polls@[j].0 == SlicePoll::Closed || polls@[j].1 == SlicePoll::Closed),
            is_any_ready == exists|j: int| #![trigger polls@[j]] 0 <= j < i && (polls@[j].0 == SlicePoll::Ready && polls@[j].1 == SlicePoll::Ready),
        decreases polls@.len() - i,
    {
        let (occupied, free) = polls[i];
        proof {
            assert(polls@[i as int] == (occupied, free));
        }
        if occupied == SlicePoll::Closed || free == SlicePoll::Closed {
            return ReadyPoll::Closed;
        }
        if occupied == SlicePoll::Ready && free == SlicePoll::Ready {
            is_any_ready = true;
        }
        i = i + 1;
    }
    if is_any_ready {
        ReadyPoll::Ready
    } else {
        ReadyPoll::Pending
    }
}

/// The packets that can move: `count`, or fewer when fewer are occupied.
pub open spec fn moved_count(count: nat, occupied: nat) -> nat {
    if count <= occupied {
        count
    } else {
        occupied
    }
}

/// The free descriptors that fit: all moved ones, or as many as there is room for.
pub open spec fn kept_count(moved: nat, free_len: nat, free_capacity: nat) -> nat {
    if free_len >= free_capacity {
        0
    } else if moved <= free_capacity - free_len {
        moved
    } else {
        (free_capacity - free_len) as nat
    }
}

/// Gives the `count` sent packets back: they leave the front of the occupied
/// queue and join the free queue, as far as it has room (`free_capacity`);
/// a descriptor that finds no room is dropped.
pub fn recycle<P>(occupied: &mut VecDeque<P>, free: &mut VecDeque<P>, free_capacity: usize, count: usize)
    ensures
        ({
            let k = moved_count(count as nat, old(occupied)@.len());
            let kept = kept_count(k, old(free)@.len(), free_capacity as nat);
            &&& final(occupied)@ == old(occupied)@.skip(k as int)
            &&& final(free)@ == old(free)@ + old(occupied)@.take(kept as int)
        }),
{
    let ghost occ0 = occupied@;
    let ghost free0 = free@;
    let ghost c0 = count as int;
    let mut count = count;
    let ghost mut moved: int = 0;
    while count > 0 && occupied.len() > 0
        invariant
            0 <= moved <= occ0.len(),
            moved + count == c0,
            occupied@ == occ0.skip(moved),
            free@ == free0 + occ0.take(kept_count(moved as nat, free0.len(), free_capacity as nat) as int),
        decreases count,
    {
        let packet = occupied.pop_front().unwrap();
        proof {
            assert(packet == occ0[moved]);
        }
        let ghost before = free@;
        if free.len() < free_capacity {
            free.push_back(packet);
        }
        proof {
            moved = moved + 1;
            assert(occupied@ =~= occ0.skip(moved));
            let kb = kept_count((moved - 1) as nat, free0.len(), free_capacity as nat);
            let ka = kept_count(moved as nat, free0.len(), free_capacity as nat);
            if before.len() < free_capacity {
                assert(ka == kb + 1);
                assert(occ0.take(ka as int) =~= occ0.take(kb as int).push(occ0[moved - 1]));
                assert(free@ =~= free0 + occ0.take(ka as int));
            } else {
                assert(ka == kb);
            }
        }
        count = count - 1;
    }
}

/// What the socket reported for a batch of occupied descriptors.
#[derive(Clone, Copy, Debug, PartialEq, Eq, Structural)]
pub enum SendPoll {
    /// This many were sent.
    Sent(usize),
    /// The socket failed.
    Failed,
    /// The socket is not ready.
    Pending,
}

/// What the flush task does after a round.
#[derive(Clone, Copy, Debug, PartialEq, Eq, Structural)]
pub enum FlushStep {
    /// Go on with another round.
    Again,
    /// Stop for good.
    Done,
    /// Wait to be woken.
    Wait,
}

/// The rounds a flush task makes before it yields to other tasks.
pub const FLUSH_ROUNDS: usize = 10;

/// One round of the flush task, given what the socket reported: sent
/// descriptors go back to the free queue and another round follows; a
/// failure ends the task; a socket that is not ready makes it wait.
pub fn flush_round<P>(
    occupied: &mut VecDeque<P>,
    free: &mut VecDeque<P>,
    free_capacity: usize,
    sent: SendPoll,
) -> (r: FlushStep)
    ensures
        match sent {
            SendPoll::Sent(count) => {
                let k = moved_count(count as nat, old(occupied)@.len());
                let kept = kept_count(k, old(free)@.len(), free_capacity as nat);
                &&& r == FlushStep::Again
                &&& final(occupied)@ == old(occupied)@.skip(k as int)
                &&& final(free)@ == old(free)@ + old(occupied)@.take(kept as int)
            },
            SendPoll::Failed => r == FlushStep::Done && final(occupied)@ == old(occupied)@
                && final(free)@ == old(free)@,
            SendPoll::Pending => r == FlushStep::Wait && final(occupied)@ == old(occupied)@
                && final(free)@ == old(free)@,
        },
{
    match sent {
        SendPoll::Sent(count) => {
            recycle(occupied, free, free_capacity, count);
            FlushStep::Again
        },
        SendPoll::Failed => FlushStep::Done,
        SendPoll::Pending => FlushStep::Wait,
    }
}

/// What one poll of the flush task gives.
#[derive(Clone, Copy, Debug, PartialEq, Eq, Structural)]
pub enum FlushPoll {
    /// The task is over: a queue closed or the socket failed.
    Ready,
    /// The task waits; `wake` asks to be polled again right away, after it
    /// used up its rounds.
    Pending { wake: bool },
}

/// The rounds that one poll of the flush task has made.
pub struct FlushTask {
    rounds: usize,
}

impl FlushTask {
    /// The rounds made so far in this poll.
    pub closed spec fn rounds(&self) -> nat {
        self.rounds as nat
    }

    /// A poll that made no round yet.
    pub fn new() -> (t: Self)
        ensures
            t.rounds() == 0,
    {
        FlushTask { rounds: 0 }
    }

    /// Before a round, given what polling the occupied queue and the free
    /// queue gave: `None` to hand the occupied descriptors to the socket;
    /// otherwise what the poll gives. Once `FLUSH_ROUNDS` rounds are made the
    /// task yields to other tasks, asking to be polled again. A closed queue
    /// ends the task (the occupied queue is looked at first); a queue that is
    /// not ready, with no descriptor occupied or no room to give them back,
    /// makes it wait.
    pub fn before_round(&self, occupied: SlicePoll, free: SlicePoll) -> (r: Option<FlushPoll>)
        ensures
            r == (if self.rounds() >= FLUSH_ROUNDS {
                Some(FlushPoll::Pending { wake: true })
            } else if occupied == SlicePoll::Closed {
                Some(FlushPoll::Ready)
            } else if occupied == SlicePoll::Pending {
                Some(FlushPoll::Pending { wake: false })
            } else if free == SlicePoll::Closed {
                Some(FlushPoll::Ready)
            } else if free == SlicePoll::Pending {
                Some(FlushPoll::Pending { wake: false })
            } else {
                None
            }),
    {
        if self.rounds >= FLUSH_ROUNDS {
            return Some(FlushPoll::Pending { wake: true });
        }
        match occupied {
            SlicePoll::Closed => {
                return Some(FlushPoll::Ready);
            },
            SlicePoll::Pending => {
                return Some(FlushPoll::Pending { wake: false });
            },
            SlicePoll::Ready => {},
        }
        match free {
            SlicePoll::Closed => Some(FlushPoll::Ready),
            SlicePoll::Pending => Some(FlushPoll::Pending { wake: false }),
            SlicePoll::Ready => None,
        }
    }

    /// After the socket reported on a round: the sent descriptors go back to
    /// the free queue (see `flush_round`); `None` to go on with the next
    /// round, otherwise what the poll gives.
    pub fn after_round<P>(
        &mut self,
        occupied: &mut VecDeque<P>,
        free: &mut VecDeque<P>,
        free_capacity: usize,
        sent: SendPoll,
    ) -> (r: Option<FlushPoll>)
        requires
            old(self).rounds() < FLUSH_ROUNDS,
        ensures
            final(self).rounds() == old(self).rounds() + 1,
            match sent {
                SendPoll::Sent(count) => {
                    let k = moved_count(count as nat, old(occupied)@.len());
                    let kept = kept_count(k, old(free)@.len(), free_capacity as nat);
                    &&& r is None
                    &&& final(occupied)@ == old(occupied)@.skip(k as int)
                    &&& final(free)@ == old(free)@ + old(occupied)@.take(kept as int)
                },
                SendPoll::Failed => {
                    &&& r == Some(FlushPoll::Ready)
                    &&& final(occupied)@ == old(occupied)@
                    &&& final(free)@ == old(free)@
                },
                SendPoll::Pending => {
                    &&& r == Some(FlushPoll::Pending { wake: false })
                    &&& final(occupied)@ == old(occupied)@
                    &&& final(free)@ == old(free)@
                },
            },
    {
        self.rounds = self.rounds + 1;
        match flush_round(occupied, free, free_capacity, sent) {
            FlushStep::Again => None,
            FlushStep::Done => Some(FlushPoll::Ready),
            FlushStep::Wait => Some(FlushPoll::Pending { wake: false }),
        }
    }
}

} // verus!
