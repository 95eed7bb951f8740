//! A LIFO channel on a bounded stack: sending onto a full channel pushes the
//! oldest message out, and receiving takes the newest message.
//!
//! The channel's state is held by its `Receiver`; a `Sender` is the handle
//! that pushes into the receiver it is handed. Wakeups of blocked receivers
//! are left to the caller.

use crate::sync::stack::{push_spec, pop_spec, retained_bottom, Stack};
use core::marker::PhantomData;
use core::ops::ControlFlow;
use vstd::prelude::*;

verus! {

/// Returned by an operation on a closed channel.
#[derive(Clone, Copy, Debug, PartialEq, Eq, Structural)]
pub struct ClosedError;

impl Default for ClosedError {
    fn default() -> (r: Self)
        ensures
            r == ClosedError,
    {
        ClosedError
    }
}

/// Creates a channel of capacity `cap`, with one sender and one receiver.
///
/// The capacity must not be zero.
pub fn new<T>(cap: usize) -> (r: (Sender<T>, Receiver<T>))
    requires
        cap >= 1,
        cap < 0x8000_0000_0000_0000,
    ensures
        r.1.wf(),
        r.1@ == Seq::<T>::empty(),
        r.1.cap() == cap,
        r.1.senders() == 1,
        r.1.receivers() == 1,
{
    let s = Sender { _marker: PhantomData };
    let r = Receiver { stack: Stack::new(cap), sender_count: 1, receiver_count: 1 };
    (s, r)
}

/// The sending side of a channel.
pub struct Sender<T> {
    _marker: PhantomData<T>,
}

/// The receiving side of a channel, which holds the messages.
pub struct Receiver<T> {
    stack: Stack<T>,
    sender_count: usize,
    receiver_count: usize,
}

impl<T> View for Receiver<T> {
    type V = Seq<T>;

    /// The messages in the channel, oldest first.
    closed spec fn view(&self) -> Seq<T> {
        self.stack@
    }
}

impl<T> Receiver<T> {
    /// The well-formedness of the channel's stack.
    pub closed spec fn wf(&self) -> bool {
        self.stack.wf()
    }

    /// The capacity of the channel.
    pub closed spec fn cap(&self) -> nat {
        self.stack.cap()
    }

    /// The number of live senders.
    pub closed spec fn senders(&self) -> nat {
        self.sender_count as nat
    }

    /// The number of live receivers.
    pub closed spec fn receivers(&self) -> nat {
        self.receiver_count as nat
    }

    /// The channel is closed: every sender, or every receiver, is gone.
    pub open spec fn closed(&self) -> bool {
        self.senders() == 0 || self.receivers() == 0
    }

    /// Attempts to receive the newest message; `Ok(None)` when the channel is
    /// empty, and `ClosedError` when it is empty and closed.
    #[inline]
    pub fn try_recv(&mut self) -> (r: Result<Option<T>, ClosedError>)
        requires
            old(self).wf(),
        ensures
            final(self).wf(),
            final(self).cap() == old(self).cap(),
            final(self).senders() == old(self).senders(),
            final(self).receivers() == old(self).receivers(),
            old(self)@.len() == 0 && old(self).closed() ==> r == Err::<Option<T>, ClosedError>(
                ClosedError,
            ) && final(self)@ == old(self)@,
            !(old(self)@.len() == 0 && old(self).closed()) ==> r is Ok && (final(self)@, r->Ok_0)
                == pop_spec(old(self)@),
    {
        let res = self.stack.pop();
        match res {
            Some(msg) => Ok(Some(msg)),
            None => {
                if self.sender_count == 0 || self.receiver_count == 0 {
                    Err(ClosedError)
                } else {
                    Ok(None)
                }
            },
        }
    }

    /// Returns `true` if the channel is closed.
    #[inline]
    pub fn is_closed(&self) -> (r: bool)
        ensures
            r == self.closed(),
    {
        self.sender_count == 0 || self.receiver_count == 0
    }

    /// Counts another receiver of the channel.
    ///
    /// The count of receivers must stay below `usize::MAX / 2`, so that it
    /// never overflows, even if lots of receivers are leaked.
    pub fn add_receiver(&mut self)
        requires
            old(self).receivers() < usize::MAX / 2,
        ensures
            final(self).receivers() == old(self).receivers() + 1,
            final(self).senders() == old(self).senders(),
            final(self)@ == old(self)@,
            final(self).wf() == old(self).wf(),
            final(self).cap() == old(self).cap(),
    {
        self.receiver_count = self.receiver_count + 1;
    }

    /// Gives up one receiver; returns `true` when this closes the channel:
    /// it was the last receiver and the channel was not closed already.
    pub fn release_receiver(&mut self) -> (closed: bool)
        requires
            old(self).receivers() > 0,
        ensures
            final(self).receivers() == old(self).receivers() - 1,
            final(self).senders() == old(self).senders(),
            final(self)@ == old(self)@,
            final(self).wf() == old(self).wf(),
            final(self).cap() == old(self).cap(),
            closed == (old(self).receivers() == 1 && old(self).senders() > 0),
    {
        let prev = self.receiver_count;
        self.receiver_count = prev - 1;
        prev == 1 && self.sender_count > 0
    }

    /// A channel never holds more messages than its capacity.
    pub proof fn lemma_len_bounded(&self)
        requires
            self.wf(),
        ensures
            self@.len() <= self.cap(),
    {
        self.stack.lemma_len_bounded();
    }

    /// Returns `true` if the channel is empty.
    #[inline]
    pub fn is_empty(&self) -> (r: bool)
        requires
            self.wf(),
        ensures
            r == (self@.len() == 0),
    {
        self.stack.is_empty()
    }

    /// Returns `true` if the channel is full.
    #[inline]
    pub fn is_full(&self) -> (r: bool)
        requires
            self.wf(),
        ensures
            r == (self@.len() == self.cap()),
    {
        self.stack.is_full()
    }

    /// Returns the number of messages in the channel.
    #[inline]
    pub fn len(&self) -> (r: usize)
        requires
            self.wf(),
        ensures
            r == self@.len(),
    {
        self.stack.len()
    }

    /// Returns the channel capacity.
    #[inline]
    pub fn capacity(&self) -> (r: usize)
        ensures
            r == self.cap(),
    {
        self.stack.capacity()
    }

    /// Returns the number of receivers for the channel.
    #[inline]
    pub fn receiver_count(&self) -> (r: usize)
        ensures
            r == self.receivers(),
    {
        self.receiver_count
    }

    /// Returns the number of senders for the channel.
    #[inline]
    pub fn sender_count(&self) -> (r: usize)
        ensures
            r == self.senders(),
    {
        self.sender_count
    }
}

impl<T> Sender<T> {
    /// Sends a message; when the channel is full the oldest message is pushed
    /// out and returned.
    #[inline]
    pub fn send(&self, receiver: &mut Receiver<T>, msg: T) -> (r: Result<Option<T>, ClosedError>)
        requires
            old(receiver).wf(),
        ensures
            final(receiver).wf(),
            final(receiver).cap() == old(receiver).cap(),
            final(receiver).senders() == old(receiver).senders(),
            final(receiver).receivers() == old(receiver).receivers(),
            r is Ok,
            (final(receiver)@, r->Ok_0) == push_spec(old(receiver)@, old(receiver).cap(), msg),
    {
        let res = receiver.stack.push(msg);
        Ok(res)
    }

    /// Returns `true` if the channel is empty.
    #[inline]
    pub fn is_empty(&self, receiver: &Receiver<T>) -> (r: bool)
        requires
            receiver.wf(),
        ensures
            r == (receiver@.len() == 0),
    {
        receiver.is_empty()
    }

    /// Returns `true` if the channel is full.
    #[inline]
    pub fn is_full(&self, receiver: &Receiver<T>) -> (r: bool)
        requires
            receiver.wf(),
        ensures
            r == (receiver@.len() == receiver.cap()),
    {
        receiver.is_full()
    }

    /// Returns the number of messages in the channel.
    #[inline]
    pub fn len(&self, receiver: &Receiver<T>) -> (r: usize)
        requires
            receiver.wf(),
        ensures
            r == receiver@.len(),
    {
        receiver.len()
    }

    /// Returns the channel capacity.
    #[inline]
    pub fn capacity(&self, receiver: &Receiver<T>) -> (r: usize)
        ensures
            r == receiver.cap(),
    {
        receiver.capacity()
    }

    /// Returns the number of receivers for the channel.
    #[inline]
    pub fn receiver_count(&self, receiver: &Receiver<T>) -> (r: usize)
        ensures
            r == receiver.receivers(),
    {
        receiver.receiver_count()
    }

    /// Returns the number of senders for the channel.
    #[inline]
    pub fn sender_count(&self, receiver: &Receiver<T>) -> (r: usize)
        ensures
            r == receiver.senders(),
    {
        receiver.sender_count()
    }

    /// Removes messages from the bottom of the channel while `f` lets them go
    /// (see `Stack::retain_bottom`).
    #[inline]
    pub fn retain_bottom<F: Fn(&T) -> ControlFlow<bool>>(&self, receiver: &mut Receiver<T>, f: F)
        requires
            old(receiver).wf(),
            forall|v: &T| #[trigger] call_requires(f, (v,)),
        ensures
            final(receiver).wf(),
            final(receiver).cap() == old(receiver).cap(),
            final(receiver).senders() == old(receiver).senders(),
            final(receiver).receivers() == old(receiver).receivers(),
            retained_bottom(old(receiver)@, final(receiver)@, f),
    {
        receiver.stack.retain_bottom(f)
    }

    /// Another sender for the same channel.
    ///
    /// The count of senders must stay below `usize::MAX / 2`, so that it
    /// never overflows, even if lots of senders are leaked.
    pub fn clone_for(&self, receiver: &mut Receiver<T>) -> (s: Sender<T>)
        requires
            old(receiver).senders() < usize::MAX / 2,
        ensures
            final(receiver).senders() == old(receiver).senders() + 1,
            final(receiver).receivers() == old(receiver).receivers(),
            final(receiver)@ == old(receiver)@,
            final(receiver).wf() == old(receiver).wf(),
            final(receiver).cap() == old(receiver).cap(),
    {
        receiver.sender_count = receiver.sender_count + 1;
        Sender { _marker: PhantomData }
    }

    /// Gives up this sender; returns `true` when this closes the channel: it
    /// was the last sender and the channel was not closed already.
    pub fn release(self, receiver: &mut Receiver<T>) -> (closed: bool)
        requires
            old(receiver).senders() > 0,
        ensures
            final(receiver).senders() == old(receiver).senders() - 1,
            final(receiver).receivers() == old(receiver).receivers(),
            final(receiver)@ == old(receiver)@,
            final(receiver).wf() == old(receiver).wf(),
            final(receiver).cap() == old(receiver).cap(),
            closed == (old(receiver).senders() == 1 && old(receiver).receivers() > 0),
    {
        let prev = receiver.sender_count;
        receiver.sender_count = prev - 1;
        prev == 1 && receiver.receiver_count > 0
    }
}

} // verus!
