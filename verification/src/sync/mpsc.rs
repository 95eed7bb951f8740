//! A multi-producer, single-consumer queue of entries, in the order they
//! were pushed.
//!
//! The queue is owned by one party at a time, so a pop is never caught
//! between a producer's two steps; `Desync` is only reported by a try that
//! was given no attempt at all.

use std::collections::VecDeque;
use vstd::prelude::*;

verus! {

/// Returned when a `push` is desynchronized and `pop` should be called again
#[derive(Clone, Copy, Debug, PartialEq, Eq, Structural)]
pub struct Desync;

/// The entries of the queue, and whether it was initialized.
pub struct Cursors<T> {
    entries: VecDeque<T>,
    initialized: bool,
}

impl<T> View for Cursors<T> {
    type V = Seq<T>;

    /// The entries, the oldest first.
    closed spec fn view(&self) -> Seq<T> {
        self.entries@
    }
}

impl<T> Cursors<T> {
    /// The queue was initialized and may be used.
    pub closed spec fn wf(&self) -> bool {
        self.initialized
    }

    /// A queue that must be initialized before use.
    pub fn new() -> (c: Self)
        ensures
            !c.wf(),
            c@ == Seq::<T>::empty(),
    {
        Cursors { entries: VecDeque::new(), initialized: false }
    }

    /// Makes the queue ready for use.
    pub fn init(&mut self)
        ensures
            final(self).wf(),
            final(self)@ == old(self)@,
    {
        self.initialized = true;
    }

    /// Pushes an entry at the back.
    #[inline]
    pub fn push(&mut self, entry: T)
        requires
            old(self).wf(),
        ensures
            final(self).wf(),
            final(self)@ == old(self)@.push(entry),
    {
        self.entries.push_back(entry);
    }

    /// Pops the oldest entry; `None` when the queue is empty.
    #[inline]
    pub fn pop(&mut self) -> (r: Option<Result<T, Desync>>)
        requires
            old(self).wf(),
        ensures
            final(self).wf(),
            old(self)@.len() == 0 ==> r is None && final(self)@ == old(self)@,
            old(self)@.len() > 0 ==> r == Some(Ok::<T, Desync>(old(self)@[0])) && final(self)@
                == old(self)@.drop_first(),
    {
        match self.entries.pop_front() {
            Some(entry) => Some(Ok(entry)),
            None => None,
        }
    }

    /// Tries to pop up to `spin_count` times; `Desync` when no try was made.
    #[inline]
    pub fn pop_try_sync(&mut self, spin_count: usize) -> (r: Option<Result<T, Desync>>)
        requires
            old(self).wf(),
        ensures
            final(self).wf(),
            spin_count == 0 ==> r == Some(Err::<T, Desync>(Desync)) && final(self)@ == old(
                self,
            )@,
            spin_count > 0 && old(self)@.len() == 0 ==> r is None && final(self)@ == old(self)@,
            spin_count > 0 && old(self)@.len() > 0 ==> r == Some(Ok::<T, Desync>(old(self)@[0]))
                && final(self)@ == old(self)@.drop_first(),
    {
        let mut i: usize = 0;
        while i < spin_count
            invariant
                self.wf(),
                self@ == old(self)@,
                i <= spin_count,
                // a pop either returns or gives an entry: no round repeats
                i == 0,
            decreases spin_count - i,
        {
            match self.pop() {
                None => {
                    return None;
                },
                Some(Ok(v)) => {
                    return Some(Ok(v));
                },
                Some(Err(_)) => {},
            }
            i = i + 1;
        }
        Some(Err(Desync))
    }

    /// Pops the oldest entry, trying again (after `on_stall`) while pops are
    /// desynchronized; `None` when the queue is empty.
    ///
    /// `spin_count` must be positive: with no try the loop never ends.
    #[inline]
    pub fn pop_sync<F: Fn()>(&mut self, spin_count: usize, on_stall: F) -> (r: Option<T>)
        requires
            old(self).wf(),
            spin_count > 0,
        ensures
            final(self).wf(),
            old(self)@.len() == 0 ==> r is None && final(self)@ == old(self)@,
            old(self)@.len() > 0 ==> r == Some(old(self)@[0]) && final(self)@ == old(
                self,
            )@.drop_first(),
    {
        loop
            invariant
                self.wf(),
                self@ == old(self)@,
                spin_count > 0,
            decreases 0nat,
        {
            match self.pop_try_sync(spin_count) {
                None => {
                    return None;
                },
                Some(Ok(v)) => {
                    return Some(v);
                },
                Some(Err(_)) => {
                    on_stall();
                },
            }
        }
    }

    /// Drops every entry.
    #[inline]
    pub fn clear(&mut self)
        requires
            old(self).wf(),
        ensures
            final(self).wf(),
            final(self)@ == Seq::<T>::empty(),
    {
        while self.entries.len() > 0
            invariant
                self.wf(),
            decreases self.entries@.len(),
        {
            let _ = self.pop_sync(32, || {});
        }
    }
}

/// First in, first out: an entry pushed onto the queue comes out after every
/// entry already in it, and the ones behind it keep their order.
pub proof fn law_fifo<T>(queued: Seq<T>, entry: T)
    ensures
        queued.len() > 0 ==> queued.push(entry)[0] == queued[0] && queued.push(entry).drop_first()
            == queued.drop_first().push(entry),
        queued.len() == 0 ==> queued.push(entry)[0] == entry && queued.push(entry).drop_first()
            == Seq::<T>::empty(),
{
    if queued.len() > 0 {
        assert(queued.push(entry).drop_first() =~= queued.drop_first().push(entry));
    } else {
        assert(queued.push(entry).drop_first() =~= Seq::<T>::empty());
    }
}

/// The queue after pushing `entries` onto `queued`, one by one.
pub open spec fn pushed<T>(queued: Seq<T>, entries: Seq<T>) -> Seq<T>
    decreases entries.len(),
{
    if entries.len() == 0 {
        queued
    } else {
        pushed(queued.push(entries[0]), entries.drop_first())
    }
}

/// What `n` pops from `queued` give, in order; fewer when the queue runs out.
pub open spec fn popped<T>(queued: Seq<T>, n: nat) -> Seq<T>
    decreases n,
{
    if n == 0 || queued.len() == 0 {
        Seq::empty()
    } else {
        seq![queued[0]] + popped(queued.drop_first(), (n - 1) as nat)
    }
}

/// Pushing entries one by one appends them in order.
pub proof fn lemma_pushed<T>(queued: Seq<T>, entries: Seq<T>)
    ensures
        pushed(queued, entries) == queued + entries,
    decreases entries.len(),
{
    if entries.len() > 0 {
        lemma_pushed(queued.push(entries[0]), entries.drop_first());
        assert(queued.push(entries[0]) + entries.drop_first() =~= queued + entries);
    } else {
        assert(queued + entries =~= queued);
    }
}

/// Popping `n` times gives the first `n` entries, or all of them.
pub proof fn lemma_popped<T>(queued: Seq<T>, n: nat)
    ensures
        popped(queued, n) == queued.take(if n <= queued.len() { n as int } else { queued.len() as int }),
    decreases n,
{
    if n == 0 || queued.len() == 0 {
        assert(queued.take(0) =~= Seq::<T>::empty());
    } else {
        lemma_popped(queued.drop_first(), (n - 1) as nat);
        let k = if n <= queued.len() { n as int } else { queued.len() as int };
        assert(seq![queued[0]] + queued.drop_first().take(k - 1) =~= queued.take(k));
    }
}

/// First in, first out over any number of entries: after pushing entries
/// onto an empty queue, as many pops give them back in push order, and one
/// more pop finds the queue empty.
pub proof fn law_fifo_all<T>(entries: Seq<T>)
    ensures
        pushed(Seq::<T>::empty(), entries) == entries,
        popped(pushed(Seq::<T>::empty(), entries), entries.len()) == entries,
        popped(pushed(Seq::<T>::empty(), entries), entries.len() + 1) == entries,
{
    lemma_pushed(Seq::<T>::empty(), entries);
    assert(Seq::<T>::empty() + entries =~= entries);
    lemma_popped(entries, entries.len());
    lemma_popped(entries, entries.len() + 1);
    assert(entries.take(entries.len() as int) =~= entries);
}

} // verus!
