//! Chunks of stream data: a pool that hands out recycled chunks, and a
//! channel that carries chunks from a producer to the consumer in order.
//!
//! The channel's state is held by its `Consumer`; a `Producer` is the
//! handle that pushes into the consumer it is handed. A chunk that is done
//! with goes back to the pool with `Pool::give`.

use crate::sync::mpsc::Cursors;
use core::marker::PhantomData;
use vstd::prelude::*;

verus! {

/// Chunks ready to be reused.
pub struct Pool<T> {
    cursors: Cursors<T>,
}

impl<T> View for Pool<T> {
    type V = Seq<T>;

    /// The chunks waiting to be reused, the oldest first.
    closed spec fn view(&self) -> Seq<T> {
        self.cursors@
    }
}

impl<T: Default> Pool<T> {
    /// The pool is ready for use.
    pub closed spec fn wf(&self) -> bool {
        self.cursors.wf()
    }

    /// An empty pool.
    pub fn new() -> (p: Self)
        ensures
            p.wf(),
            p@ == Seq::<T>::empty(),
    {
        let mut cursors = Cursors::new();
        cursors.init();
        Pool { cursors }
    }

    /// A chunk: the oldest one given back, or a new default one when none is.
    pub fn take(&mut self) -> (r: T)
        requires
            old(self).wf(),
        ensures
            final(self).wf(),
            old(self)@.len() > 0 ==> r == old(self)@[0] && final(self)@ == old(self)@.drop_first(),
            old(self)@.len() == 0 ==> final(self)@ == old(self)@,
    {
        match self.cursors.pop() {
            Some(Ok(v)) => v,
            _ => T::default(),
        }
    }

    /// Gives a chunk back for reuse.
    pub fn give(&mut self, chunk: T)
        requires
            old(self).wf(),
        ensures
            final(self).wf(),
            final(self)@ == old(self)@.push(chunk),
    {
        self.cursors.push(chunk);
    }
}

/// Creates a channel of chunks.
pub fn channel<T>() -> (r: (Producer<T>, Consumer<T>))
    ensures
        r.1.wf(),
        r.1@ == Seq::<T>::empty(),
{
    let mut chunks = Cursors::new();
    chunks.init();
    (Producer { _marker: PhantomData }, Consumer { chunks })
}

/// The sending side of a channel of chunks.
pub struct Producer<T> {
    _marker: PhantomData<T>,
}

/// The receiving side of a channel of chunks, which holds them.
pub struct Consumer<T> {
    chunks: Cursors<T>,
}

impl<T> View for Consumer<T> {
    type V = Seq<T>;

    /// The chunks in the channel, the oldest first.
    closed spec fn view(&self) -> Seq<T> {
        self.chunks@
    }
}

impl<T> Producer<T> {
    /// Sends a chunk.
    pub fn push(&self, consumer: &mut Consumer<T>, chunk: T)
        requires
            old(consumer).wf(),
        ensures
            final(consumer).wf(),
            final(consumer)@ == old(consumer)@.push(chunk),
    {
        consumer.chunks.push(chunk);
    }
}

impl<T> Consumer<T> {
    /// The channel is ready for use.
    pub closed spec fn wf(&self) -> bool {
        self.chunks.wf()
    }

    /// Receives the oldest chunk; `None` when the channel is empty.
    pub fn pop(&mut self) -> (r: Option<T>)
        requires
            old(self).wf(),
        ensures
            final(self).wf(),
            old(self)@.len() == 0 ==> r is None && final(self)@ == old(self)@,
            old(self)@.len() > 0 ==> r == Some(old(self)@[0]) && final(self)@ == old(
                self,
            )@.drop_first(),
    {
        self.chunks.pop_sync(4, || {})
    }
}

} // verus!
