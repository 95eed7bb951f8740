//! The accept queue between a network and a slow application: a bounded
//! backlog that, when full, either drops the new arrival (FIFO) or drops the
//! oldest waiting one and serves the newest first (LIFO), and a pruner that
//! drops entries that waited too long.
//!
//! Times are nanoseconds on the caller's clock.

use std::collections::VecDeque;
use core::marker::PhantomData;
use vstd::prelude::*;

verus! {

/// How the queue behaves when its backlog is full.
#[derive(Clone, Copy, Debug, PartialEq, Eq, Structural)]
pub enum Strategy {
    /// Serve in arrival order; a full queue drops the new arrival.
    Fifo,
    /// Serve the newest first; a full queue drops its oldest entry.
    Lifo,
    /// As `Lifo`, with a pruner dropping entries that waited too long.
    LifoPrune,
    /// Chooses between `Fifo` and `Lifo` by a coin flip on every send.
    Random,
}

/// The strategy that applies to one send, given the coin flipped for it.
pub open spec fn effective_strategy(strategy: Strategy, coin: bool) -> Strategy {
    if strategy == Strategy::Random {
        if coin {
            Strategy::Fifo
        } else {
            Strategy::Lifo
        }
    } else {
        strategy
    }
}

/// A value waiting in the queue, with the time it arrived.
pub struct Item<T> {
    value: T,
    enqueued: u64,
}

impl<T> Item<T> {
    /// The value and its arrival time.
    pub closed spec fn pair(&self) -> (T, u64) {
        (self.value, self.enqueued)
    }

    fn new(value: T, now: u64) -> (r: Self)
        ensures
            r.pair() == (value, now),
    {
        Self { value, enqueued: now }
    }

    /// How long the value has waited at time `now` (zero if `now` is earlier).
    fn age(&self, now: u64) -> (r: u64)
        ensures
            r == (if now >= self.enqueued {
                (now - self.enqueued) as u64
            } else {
                0
            }),
    {
        now.saturating_sub(self.enqueued)
    }

    fn unwrap(self) -> (r: T)
        ensures
            r == self.pair().0,
    {
        self.value
    }
}

/// The entries (value and arrival time, front first) after a send, and what
/// the send drops.
pub open spec fn send_spec<T>(
    items: Seq<(T, u64)>,
    strategy: Strategy,
    backlog: nat,
    msg: T,
    now: u64,
    coin: bool,
) -> (Seq<(T, u64)>, Option<T>) {
    let strat = effective_strategy(strategy, coin);
    if strat == Strategy::Fifo {
        if items.len() == backlog {
            (items, Some(msg))
        } else {
            (items.push((msg, now)), None)
        }
    } else {
        if items.len() == backlog {
            if items.len() == 0 {
                (seq![(msg, now)], None)
            } else {
                (seq![(msg, now)] + items.drop_last(), Some(items.last().0))
            }
        } else {
            (seq![(msg, now)] + items, None)
        }
    }
}

/// The entries after a prune at `now` with `threshold`, and what it drops:
/// the back entry goes when at least two wait and it waited `threshold` or more.
pub open spec fn prune_spec<T>(items: Seq<(T, u64)>, threshold: u64, now: u64) -> (
    Seq<(T, u64)>,
    Option<T>,
) {
    if items.len() <= 1 {
        (items, None)
    } else if (if now >= items.last().1 {
        now - items.last().1
    } else {
        0
    }) < threshold {
        (items, None)
    } else {
        (items.drop_last(), Some(items.last().0))
    }
}

/// The state of an accept queue: its entries, strategy and backlog.
pub struct QueueInner<T> {
    items: VecDeque<Item<T>>,
    strategy: Strategy,
    backlog: usize,
}

impl<T> QueueInner<T> {
    /// The entries, front first, as values and arrival times.
    pub closed spec fn entries(&self) -> Seq<(T, u64)> {
        self.items@.map_values(|item: Item<T>| item.pair())
    }

    /// The strategy.
    pub closed spec fn strategy(&self) -> Strategy {
        self.strategy
    }

    /// The backlog: how many entries may wait.
    pub closed spec fn backlog(&self) -> nat {
        self.backlog as nat
    }

    /// An empty queue.
    pub fn new(strategy: Strategy, backlog: usize) -> (q: Self)
        ensures
            q.entries() == Seq::<(T, u64)>::empty(),
            q.strategy() == strategy,
            q.backlog() == backlog,
    {
        let q = QueueInner { items: VecDeque::new(), strategy, backlog };
        proof {
            assert(q.entries() =~= Seq::<(T, u64)>::empty());
        }
        q
    }

    /// The number of waiting entries.
    pub fn len(&self) -> (r: usize)
        ensures
            r == self.entries().len(),
    {
        self.items.len()
    }

    /// Enqueues `msg` at time `now` and returns what the queue dropped.
    ///
    /// `coin` is the coin flipped for this send, used by `Strategy::Random`
    /// only (`true` picks FIFO).
    pub fn send(&mut self, msg: T, now: u64, coin: bool) -> (r: Option<T>)
        ensures
            (final(self).entries(), r) == send_spec(
                old(self).entries(),
                old(self).strategy(),
                old(self).backlog(),
                msg,
                now,
                coin,
            ),
            final(self).strategy() == old(self).strategy(),
            final(self).backlog() == old(self).backlog(),
    {
        let ghost old_entries = self.entries();
        let strat = match self.strategy {
            Strategy::Random => if coin {
                Strategy::Fifo
            } else {
                Strategy::Lifo
            },
            s => s,
        };
        let is_fifo = match strat {
            Strategy::Fifo => true,
            _ => false,
        };

        let dropped = if self.items.len() == self.backlog {
            if is_fifo {
                // drop this message
                return Some(msg);
            }
            match self.items.pop_back() {
                Some(item) => Some(item.unwrap()),
                None => None,
            }
        } else {
            None
        };

        let ghost mid = self.items@;
        if is_fifo {
            self.items.push_back(Item::new(msg, now));
            proof {
                assert(self.entries() =~= old_entries.push((msg, now)));
            }
        } else {
            self.items.push_front(Item::new(msg, now));
            proof {
                if old_entries.len() == self.backlog && old_entries.len() > 0 {
                    assert(mid.map_values(|item: Item<T>| item.pair()) =~= old_entries.drop_last());
                    assert(self.entries() =~= seq![(msg, now)] + old_entries.drop_last());
                } else if old_entries.len() == self.backlog {
                    assert(self.entries() =~= seq![(msg, now)]);
                } else {
                    assert(self.entries() =~= seq![(msg, now)] + old_entries);
                }
            }
        }
        dropped
    }

    /// Whether a send with this coin would take the message in: only a full
    /// queue serving in arrival order turns it away.
    pub fn accepts(&self, coin: bool) -> (r: bool)
        ensures
            r == !(effective_strategy(self.strategy(), coin) == Strategy::Fifo
                && self.entries().len() == self.backlog()),
    {
        let fifo = match self.strategy {
            Strategy::Fifo => true,
            Strategy::Random => coin,
            _ => false,
        };
        !(fifo && self.items.len() == self.backlog)
    }

    /// Takes the entry at the front; `None` when the queue is empty.
    pub fn recv(&mut self) -> (r: Option<T>)
        ensures
            old(self).entries().len() == 0 ==> r is None && final(self).entries() == old(self).entries(),
            old(self).entries().len() > 0 ==> r == Some(old(self).entries()[0].0) && final(self).entries() == old(self).entries().drop_first(),
            final(self).strategy() == old(self).strategy(),
            final(self).backlog() == old(self).backlog(),
    {
        let ghost old_entries = self.entries();
        match self.items.pop_front() {
            Some(item) => {
                proof {
                    assert(self.entries() =~= old_entries.drop_first());
                }
                Some(item.unwrap())
            },
            None => None,
        }
    }

    /// Drops the entry at the back if it waited `threshold` or more at time
    /// `now` and is not the only one, and returns it.
    pub fn prune(&mut self, threshold: u64, now: u64) -> (r: Option<T>)
        ensures
            (final(self).entries(), r) == prune_spec(old(self).entries(), threshold, now),
            final(self).strategy() == old(self).strategy(),
            final(self).backlog() == old(self).backlog(),
    {
        let ghost old_entries = self.entries();
        let len = self.items.len();
        if len <= 1 {
            return None;
        }
        if self.items[len - 1].age(now) < threshold {
            return None;
        }
        match self.items.pop_back() {
            Some(item) => {
                proof {
                    assert(self.entries() =~= old_entries.drop_last());
                }
                Some(item.unwrap())
            },
            None => None,
        }
    }
}

/// The handle that prunes a queue.
pub struct Pruner<T> {
    _marker: PhantomData<T>,
}

impl<T> Pruner<T> {
    /// A pruner.
    pub fn new() -> Self {
        Pruner { _marker: PhantomData }
    }

    /// Drops the back entry of the queue if it waited `threshold` or more at
    /// time `now` and is not the only one, and returns it.
    pub fn prune(&self, queue: &mut QueueInner<T>, threshold: u64, now: u64) -> (r: Option<T>)
        ensures
            (final(queue).entries(), r) == prune_spec(old(queue).entries(), threshold, now),
            final(queue).strategy() == old(queue).strategy(),
            final(queue).backlog() == old(queue).backlog(),
    {
        queue.prune(threshold, now)
    }
}

/// Why a message of the simulation was counted.
#[derive(Clone, Copy, Debug, PartialEq, Eq, Structural)]
pub enum Event {
    /// The network's queue toward an acceptor was full.
    NetworkDrop,
    /// The accept queue dropped it.
    WorkerDrop,
    /// The pruner dropped it.
    PruneDrop,
    /// The application took it.
    App,
}

/// A message sent by a client at `time`.
#[derive(Clone, Copy, Debug, PartialEq, Eq, Structural)]
pub struct Message {
    pub time: u64,
    pub client: usize,
}

/// A message and what became of it at `time`.
#[derive(Clone, Copy, Debug, PartialEq, Eq, Structural)]
pub struct ProcessedMessage {
    pub message: Message,
    pub event: Event,
    pub time: u64,
}

impl Message {
    /// A message of `client` sent at `now`.
    pub fn new(client: usize, now: u64) -> (m: Self)
        ensures
            m == (Message { time: now, client }),
    {
        Message { time: now, client }
    }

    /// What became of the message, at `now`.
    pub fn process(self, event: Event, now: u64) -> (p: ProcessedMessage)
        ensures
            p == (ProcessedMessage { message: self, event, time: now }),
    {
        ProcessedMessage { message: self, event, time: now }
    }
}

impl ProcessedMessage {
    /// How long the message took, from its sending to what became of it.
    ///
    /// A message seen processed before it was sent took no time.
    pub fn elapsed(&self) -> (r: u64)
        ensures
            r == (if self.time >= self.message.time {
                (self.time - self.message.time) as u64
            } else {
                0
            }),
    {
        self.time.saturating_sub(self.message.time)
    }
}

/// The backlog of each of `workers` acceptors sharing `backlog`: the share
/// rounded up.
pub fn worker_backlog(backlog: usize, workers: usize) -> (r: usize)
    requires
        workers > 0,
        backlog + workers <= usize::MAX,
    ensures
        r == (backlog + workers - 1) / (workers as int),
        r * workers >= backlog,
        r * workers < backlog + workers,
{
    let r = (backlog + workers - 1) / workers;
    proof {
        let n = backlog + workers - 1;
        assert(r * workers <= n && n < r * workers + workers) by (nonlinear_arith)
            requires
                workers > 0,
                r == n / (workers as int),
        ;
    }
    r
}

/// The acceptor after `idx` in a round robin over `len` acceptors.
pub fn next_acceptor(idx: usize, len: usize) -> (r: usize)
    requires
        idx < len,
    ensures
        r == (if idx + 1 == len {
            0
        } else {
            idx + 1
        }),
        r < len,
{
    let next = idx + 1;
    if next == len {
        0
    } else {
        next
    }
}

/// With a backlog of at least one, a send never leaves more entries than the
/// backlog.
pub proof fn law_send_bounded<T>(
    items: Seq<(T, u64)>,
    strategy: Strategy,
    backlog: nat,
    msg: T,
    now: u64,
    coin: bool,
)
    requires
        items.len() <= backlog,
        backlog >= 1,
    ensures
        send_spec(items, strategy, backlog, msg, now, coin).0.len() <= backlog,
{
}

/// A FIFO queue serves in arrival order: a message sent to a queue with room
/// is received after everything already waiting.
pub proof fn law_fifo_order<T>(items: Seq<(T, u64)>, backlog: nat, msg: T, now: u64, coin: bool)
    requires
        items.len() < backlog,
    ensures
        send_spec(items, Strategy::Fifo, backlog, msg, now, coin).0 == items.push((msg, now)),
        send_spec(items, Strategy::Fifo, backlog, msg, now, coin).1 is None,
{
}

/// A LIFO queue serves the newest first: the message just sent is at the
/// front, and a full queue drops its oldest entry.
pub proof fn law_lifo_newest_first<T>(items: Seq<(T, u64)>, backlog: nat, msg: T, now: u64, coin: bool)
    requires
        items.len() <= backlog,
        backlog >= 1,
    ensures
        send_spec(items, Strategy::Lifo, backlog, msg, now, coin).0[0] == (msg, now),
        items.len() == backlog ==> send_spec(items, Strategy::Lifo, backlog, msg, now, coin).1
            == Some(items.last().0),
{
}

/// A send that does not serve in arrival order (LIFO, LIFO with pruning, or
/// the random strategy on tails) always takes the new message in, at the
/// front. On a full, nonempty queue it hands back the oldest entry, the
/// last one, and keeps the others in order behind the new message; on a
/// queue with room it drops nothing and keeps every entry.
pub proof fn law_non_fifo_send<T>(
    items: Seq<(T, u64)>,
    strategy: Strategy,
    backlog: nat,
    msg: T,
    now: u64,
    coin: bool,
)
    requires
        effective_strategy(strategy, coin) != Strategy::Fifo,
    ensures
        send_spec(items, strategy, backlog, msg, now, coin).0.len() >= 1,
        send_spec(items, strategy, backlog, msg, now, coin).0[0] == (msg, now),
        items.len() == backlog && items.len() > 0 ==> send_spec(
            items,
            strategy,
            backlog,
            msg,
            now,
            coin,
        ).1 == Some(items[items.len() - 1].0) && send_spec(
            items,
            strategy,
            backlog,
            msg,
            now,
            coin,
        ).0.drop_first() == items.take(items.len() - 1),
        items.len() != backlog ==> send_spec(items, strategy, backlog, msg, now, coin).1 is None
            && send_spec(items, strategy, backlog, msg, now, coin).0.drop_first() == items,
{
    let (after, _) = send_spec(items, strategy, backlog, msg, now, coin);
    if items.len() == backlog && items.len() > 0 {
        assert(after.drop_first() =~= items.take(items.len() - 1));
    } else if items.len() != backlog {
        assert(after.drop_first() =~= items);
    }
}

/// The strategies agree where they should: pruning does not change how a
/// LIFO queue takes messages, and the random strategy sends as FIFO on
/// heads and as LIFO on tails.
pub proof fn law_strategies_agree<T>(items: Seq<(T, u64)>, backlog: nat, msg: T, now: u64, coin: bool)
    ensures
        send_spec(items, Strategy::LifoPrune, backlog, msg, now, coin) == send_spec(
            items,
            Strategy::Lifo,
            backlog,
            msg,
            now,
            coin,
        ),
        send_spec(items, Strategy::Random, backlog, msg, now, true) == send_spec(
            items,
            Strategy::Fifo,
            backlog,
            msg,
            now,
            coin,
        ),
        send_spec(items, Strategy::Random, backlog, msg, now, false) == send_spec(
            items,
            Strategy::Lifo,
            backlog,
            msg,
            now,
            coin,
        ),
{
}

/// Pruning never empties the queue and never grows it.
pub proof fn law_prune_keeps_one<T>(items: Seq<(T, u64)>, threshold: u64, now: u64)
    ensures
        prune_spec(items, threshold, now).0.len() <= items.len(),
        items.len() >= 1 ==> prune_spec(items, threshold, now).0.len() >= 1,
{
}

} // verus!
