//! Counting a batch of packets handed to a socket one by one.
//!
//! The caller sends each packet and reports what the send gave; the batch
//! says whether to go on, and at the end whether the batch is ready, with how
//! many packets left, or pending. Errors other than a full socket count as
//! sent: the packet is given up.

use vstd::prelude::*;

verus! {

/// What sending one packet gave.
#[derive(Clone, Copy, Debug, PartialEq, Eq, Structural)]
pub enum SendOutcome {
    /// The packet was sent.
    Sent,
    /// The socket is full (or, for a polled socket, not ready).
    WouldBlock,
    /// The call was interrupted.
    Interrupted,
    /// Any other error.
    Failed,
}

/// The kind of socket, which decides how a full socket or an interrupted
/// call ends the batch.
#[derive(Clone, Copy, Debug, PartialEq, Eq, Structural)]
pub enum SocketKind {
    /// A non-blocking socket called directly: a full socket ends the batch
    /// and asks for a wakeup.
    Direct,
    /// A socket polled by the runtime: not ready ends the batch, the poll
    /// having registered the wakeup.
    Polled,
    /// A socket behind a readiness guard: a full socket clears the readiness
    /// and the batch is pending, whatever was sent; an interrupted call ends
    /// the batch with a wakeup.
    Guarded,
}

/// The result of a batch.
#[derive(Clone, Copy, Debug, PartialEq, Eq, Structural)]
pub enum BatchPoll {
    /// This many packets left, at least one.
    Ready(usize),
    Pending,
}

/// How one outcome acts on a batch: whether the packet counts, whether the
/// batch ends, whether it asks for a wakeup, and whether it gives up the count.
pub open spec fn step_spec(kind: SocketKind, outcome: SendOutcome) -> (bool, bool, bool, bool) {
    match outcome {
        SendOutcome::Sent | SendOutcome::Failed => (true, false, false, false),
        SendOutcome::WouldBlock => match kind {
            SocketKind::Direct => (false, true, true, false),
            SocketKind::Polled => (false, true, false, false),
            SocketKind::Guarded => (false, true, false, true),
        },
        SendOutcome::Interrupted => match kind {
            SocketKind::Guarded => (false, true, true, false),
            _ => (true, false, false, false),
        },
    }
}

/// The state of a batch.
pub struct SendBatch {
    kind: SocketKind,
    sent: usize,
    stopped: bool,
    wake: bool,
    discarded: bool,
}

impl SendBatch {
    /// The kind of socket.
    pub closed spec fn kind_spec(&self) -> SocketKind {
        self.kind
    }

    /// The packets counted as sent.
    pub closed spec fn sent_spec(&self) -> nat {
        self.sent as nat
    }

    /// The batch ended.
    pub closed spec fn stopped_spec(&self) -> bool {
        self.stopped
    }

    /// The batch asked for a wakeup.
    pub closed spec fn wake_spec(&self) -> bool {
        self.wake
    }

    /// The batch gave up its count.
    pub closed spec fn discarded_spec(&self) -> bool {
        self.discarded
    }

    /// An empty batch on a socket of this kind.
    pub fn new(kind: SocketKind) -> (b: Self)
        ensures
            b.kind_spec() == kind,
            b.sent_spec() == 0,
            !b.stopped_spec(),
            !b.wake_spec(),
            !b.discarded_spec(),
    {
        SendBatch { kind, sent: 0, stopped: false, wake: false, discarded: false }
    }

    /// Records what sending the next packet gave; returns `true` when the
    /// batch goes on with the next packet.
    ///
    /// The count of a batch stays below `usize::MAX`.
    pub fn on_outcome(&mut self, outcome: SendOutcome) -> (go_on: bool)
        requires
            !old(self).stopped_spec(),
            old(self).sent_spec() < usize::MAX,
        ensures
            ({
                let (counts, stops, wakes, discards) = step_spec(old(self).kind_spec(), outcome);
                &&& final(self).kind_spec() == old(self).kind_spec()
                &&& final(self).sent_spec() == old(self).sent_spec() + (if counts {
                    1nat
                } else {
                    0nat
                })
                &&& final(self).stopped_spec() == stops
                &&& final(self).wake_spec() == (old(self).wake_spec() || wakes)
                &&& final(self).discarded_spec() == (old(self).discarded_spec() || discards)
                &&& go_on == !stops
            }),
    {
        match outcome {
            SendOutcome::Sent | SendOutcome::Failed => {
                // errors other than a full socket give the packet up
                self.sent = self.sent + 1;
                true
            },
            SendOutcome::WouldBlock => {
                self.stopped = true;
                match self.kind {
                    SocketKind::Direct => {
                        self.wake = true;
                    },
                    SocketKind::Polled => {},
                    SocketKind::Guarded => {
                        self.discarded = true;
                    },
                }
                false
            },
            SendOutcome::Interrupted => {
                match self.kind {
                    SocketKind::Guarded => {
                        self.stopped = true;
                        self.wake = true;
                        false
                    },
                    _ => {
                        self.sent = self.sent + 1;
                        true
                    },
                }
            },
        }
    }

    /// Whether the batch asked for a wakeup.
    pub fn needs_wake(&self) -> (r: bool)
        ensures
            r == self.wake_spec(),
    {
        self.wake
    }

    /// The result of the batch: ready with the count of packets that left,
    /// or pending when none did or the count was given up.
    pub fn finish(&self) -> (r: BatchPoll)
        ensures
            r == (if self.discarded_spec() || self.sent_spec() == 0 {
                BatchPoll::Pending
            } else {
                BatchPoll::Ready(self.sent_spec() as usize)
            }),
    {
        if self.discarded || self.sent == 0 {
            BatchPoll::Pending
        } else {
            BatchPoll::Ready(self.sent)
        }
    }
}

} // verus!
