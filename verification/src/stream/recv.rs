//! Flow control of a receiving stream: what a write of stream data must
//! respect (the final size and the peer's credit), and when the consumer
//! grants the peer more credit.
//!
//! `SharedState` is the state that the producing and consuming sides share.

use vstd::prelude::*;

verus! {

/// The final size of a stream that did not announce it yet.
pub const UNKNOWN_FINAL_SIZE: u64 = u64::MAX;

/// The reset code of a stream that was not reset.
pub const UNKNOWN_RESET_CODE: u64 = u64::MAX;

/// The largest stream offset: the largest variable-length integer.
pub const MAX_VARINT: u64 = 0x3fff_ffff_ffff_ffff;

/// A transport error in the handling of stream data.
#[derive(Clone, Copy, Debug, PartialEq, Eq, Structural)]
pub enum TransportError {
    /// The data or the final size contradict an announced final size.
    FinalSize,
    /// The data go beyond the credit the peer was given.
    StreamLimit,
    /// The data go beyond the largest stream offset.
    FrameEncoding,
}

/// Marks a pending operation on a stream.
#[derive(Clone, Copy, Debug, Default)]
pub struct StreamOp;

/// The state that both sides of a receiving stream see.
#[derive(Clone, Copy, Debug)]
pub struct SharedState {
    /// The final size, once announced.
    pub final_len: u64,
    /// The credit granted to the peer: the offset its data may reach.
    pub max_data: u64,
    /// The code the application stopped reading with.
    pub stop_sending: u64,
    /// The code the peer reset the stream with.
    pub reset_code: u64,
    /// The stream waits in the connection's queue of pending operations.
    pub queued: bool,
}

impl SharedState {
    /// The state of a new stream with `initial_flow_window` bytes of credit.
    pub fn new(initial_flow_window: u64) -> (s: Self)
        ensures
            s.final_len == UNKNOWN_FINAL_SIZE,
            s.max_data == initial_flow_window,
            s.stop_sending == UNKNOWN_RESET_CODE,
            s.reset_code == UNKNOWN_RESET_CODE,
            !s.queued,
    {
        SharedState {
            final_len: UNKNOWN_FINAL_SIZE,
            max_data: initial_flow_window,
            stop_sending: UNKNOWN_RESET_CODE,
            reset_code: UNKNOWN_RESET_CODE,
            queued: false,
        }
    }

    /// Clears the state for reuse.
    pub fn clear(&mut self)
        ensures
            final(self).final_len == UNKNOWN_FINAL_SIZE,
            final(self).stop_sending == UNKNOWN_RESET_CODE,
            final(self).reset_code == UNKNOWN_RESET_CODE,
            !final(self).queued,
            final(self).max_data == old(self).max_data,
    {
        self.final_len = UNKNOWN_FINAL_SIZE;
        self.stop_sending = UNKNOWN_RESET_CODE;
        self.reset_code = UNKNOWN_RESET_CODE;
        self.queued = false;
    }
}

/// The producing side's view of the flow limits.
pub struct Producer {
    cached_max_data: u64,
    cached_final_len: u64,
    is_reset: bool,
}

/// Whether data up to `offset` may be written, given the cached and the
/// shared credit: `Ok` within the cached credit or, after refreshing it, the
/// shared one.
pub open spec fn validate_write_spec(
    cached_final_len: u64,
    cached_max_data: u64,
    shared_max_data: u64,
    offset: u64,
) -> Result<(), TransportError> {
    if cached_final_len != UNKNOWN_FINAL_SIZE && offset > cached_final_len {
        Err(TransportError::FinalSize)
    } else if cached_max_data >= offset || shared_max_data >= offset {
        Ok(())
    } else {
        Err(TransportError::StreamLimit)
    }
}

/// The cached credit after a check of data up to `offset`: the shared credit
/// is read once the final size allows the data and the cached credit is short.
pub open spec fn refreshed_max_data(
    cached_final_len: u64,
    cached_max_data: u64,
    shared_max_data: u64,
    offset: u64,
) -> u64 {
    if (cached_final_len != UNKNOWN_FINAL_SIZE && offset > cached_final_len) || cached_max_data
        >= offset {
        cached_max_data
    } else {
        shared_max_data
    }
}

impl Producer {
    /// The credit last read from the shared state.
    pub closed spec fn cached_max_data_spec(&self) -> u64 {
        self.cached_max_data
    }

    /// The final size last set.
    pub closed spec fn cached_final_len_spec(&self) -> u64 {
        self.cached_final_len
    }

    /// Whether the stream was reset.
    pub closed spec fn is_reset_spec(&self) -> bool {
        self.is_reset
    }

    /// A producer that knows no credit and no final size.
    pub fn new() -> (p: Self)
        ensures
            p.cached_max_data_spec() == 0,
            p.cached_final_len_spec() == UNKNOWN_FINAL_SIZE,
            !p.is_reset_spec(),
    {
        Producer { cached_max_data: 0, cached_final_len: UNKNOWN_FINAL_SIZE, is_reset: false }
    }

    /// Checks a write of `len` bytes at `offset` (the end saturates at
    /// `u64::MAX`) against the limits, and records a final size when `is_fin`.
    /// The data themselves go to the stream's receive buffer, which the caller
    /// holds; data that would go past the largest stream offset are refused.
    pub fn write_at(&mut self, state: &mut SharedState, offset: u64, len: u64, is_fin: bool) -> (r:
        Result<(), TransportError>)
        ensures
            ({
                let max_offset = if offset + len > u64::MAX {
                    u64::MAX
                } else {
                    (offset + len) as u64
                };
                let v = validate_write_spec(
                    old(self).cached_final_len_spec(),
                    old(self).cached_max_data_spec(),
                    old(state).max_data,
                    max_offset,
                );
                let fin_ok = old(state).final_len == UNKNOWN_FINAL_SIZE || old(state).final_len
                    == max_offset;
                &&& v is Err ==> r == v && *final(state) == *old(state)
                &&& v is Ok && is_fin && !fin_ok ==> r == Err::<(), TransportError>(
                    TransportError::FinalSize,
                )
                &&& v is Ok && (!is_fin || fin_ok) ==> (r is Ok <==> max_offset <= MAX_VARINT)
                &&& v is Ok && (!is_fin || fin_ok) && max_offset > MAX_VARINT ==> r == Err::<
                    (),
                    TransportError,
                >(TransportError::FrameEncoding)
                &&& v is Ok && is_fin ==> final(state).final_len == max_offset
                &&& v is Ok && !is_fin ==> *final(state) == *old(state)
                &&& final(self).cached_final_len_spec() == (if v is Ok && is_fin && fin_ok {
                    max_offset
                } else {
                    old(self).cached_final_len_spec()
                })
                &&& final(self).cached_max_data_spec() == refreshed_max_data(
                    old(self).cached_final_len_spec(),
                    old(self).cached_max_data_spec(),
                    old(state).max_data,
                    max_offset,
                )
            }),
            final(state).max_data == old(state).max_data,
            final(state).reset_code == old(state).reset_code,
            final(state).stop_sending == old(state).stop_sending,
            final(state).queued == old(state).queued,
            final(self).is_reset_spec() == old(self).is_reset_spec(),
    {
        let max_offset = offset.saturating_add(len);
        self.validate_write(state, max_offset)?;

        if is_fin {
            self.set_final_len(state, max_offset)?;
        }

        // STREAM frame data would exceed the maximum VarInt
        if max_offset > MAX_VARINT {
            return Err(TransportError::FrameEncoding);
        }

        Ok(())
    }

    /// Records a reset of the stream with `error_code`; only the first reset counts.
    pub fn reset(&mut self, state: &mut SharedState, error_code: u64)
        ensures
            final(self).is_reset_spec(),
            final(self).cached_max_data_spec() == old(self).cached_max_data_spec(),
            final(self).cached_final_len_spec() == old(self).cached_final_len_spec(),
            old(self).is_reset_spec() ==> *final(state) == *old(state),
            !old(self).is_reset_spec() ==> final(state).reset_code == error_code && final(state).max_data
                == old(state).max_data && final(state).final_len == old(state).final_len,
    {
        let was_reset = self.is_reset;
        self.is_reset = true;
        if was_reset {
            return;
        }
        state.reset_code = error_code;
    }

    /// Sets the final size; `Err` when another one was set before. The shared
    /// final size is overwritten in either case.
    fn set_final_len(&mut self, state: &mut SharedState, final_len: u64) -> (r: Result<
        (),
        TransportError,
    >)
        ensures
            final(state).final_len == final_len,
            final(state).max_data == old(state).max_data,
            final(state).reset_code == old(state).reset_code,
            final(state).stop_sending == old(state).stop_sending,
            final(state).queued == old(state).queued,
            r is Ok <==> (old(state).final_len == UNKNOWN_FINAL_SIZE || old(state).final_len
                == final_len),
            r is Err ==> r == Err::<(), TransportError>(TransportError::FinalSize),
            r is Ok ==> final(self).cached_final_len == final_len,
            r is Err ==> final(self).cached_final_len == old(self).cached_final_len,
            final(self).cached_max_data == old(self).cached_max_data,
            final(self).is_reset == old(self).is_reset,
    {
        let prev = state.final_len;
        state.final_len = final_len;

        let mut is_valid = false;

        // the final_offset is valid if it wasn't previously known
        is_valid = is_valid || prev == UNKNOWN_FINAL_SIZE;

        // or the previously known offset equals the current one
        is_valid = is_valid || prev == final_len;

        if !is_valid {
            return Err(TransportError::FinalSize);
        }

        self.cached_final_len = final_len;

        Ok(())
    }

    /// Checks that data up to `offset` respect the final size and the
    /// credit, refreshing the cached credit from the shared state once.
    fn validate_write(&mut self, state: &SharedState, offset: u64) -> (r: Result<(), TransportError>)
        ensures
            r == validate_write_spec(
                old(self).cached_final_len,
                old(self).cached_max_data,
                state.max_data,
                offset,
            ),
            final(self).cached_final_len == old(self).cached_final_len,
            final(self).cached_max_data == refreshed_max_data(
                old(self).cached_final_len,
                old(self).cached_max_data,
                state.max_data,
                offset,
            ),
            final(self).is_reset == old(self).is_reset,
    {
        if self.cached_final_len != UNKNOWN_FINAL_SIZE && offset > self.cached_final_len {
            return Err(TransportError::FinalSize);
        }

        if self.cached_max_data >= offset {
            return Ok(());
        }
        self.cached_max_data = state.max_data;
        if self.cached_max_data >= offset {
            return Ok(());
        }

        Err(TransportError::StreamLimit)
    }
}

/// What the consumer does after it grants credit.
#[derive(Clone, Copy, Debug, PartialEq, Eq, Structural)]
pub enum FlushAction {
    /// Nothing to announce.
    Nothing,
    /// Queue the stream so the connection announces the new credit.
    Queue,
}

/// The consuming side's flow-control state.
pub struct Consumer {
    consumed_len: u64,
    last_flow_flush: u64,
    target_flow_window: u64,
    target_watermark: u64,
}

/// The saturating sum of two `u64`.
pub open spec fn sat_add(a: u64, b: u64) -> u64 {
    if a + b > u64::MAX {
        u64::MAX
    } else {
        (a + b) as u64
    }
}

impl Consumer {
    /// The bytes the application consumed.
    pub closed spec fn consumed(&self) -> u64 {
        self.consumed_len
    }

    /// The credit last granted.
    pub closed spec fn last_flush(&self) -> u64 {
        self.last_flow_flush
    }

    /// How far beyond the consumed length credit is granted.
    pub closed spec fn window(&self) -> u64 {
        self.target_flow_window
    }

    /// How far the grant must move before it is announced.
    pub closed spec fn watermark(&self) -> u64 {
        self.target_watermark
    }

    /// A consumer that grants `target_flow_window` bytes beyond what it
    /// consumed, once the grant moved by `target_watermark` or more.
    pub fn new(target_flow_window: u64, target_watermark: u64) -> (c: Self)
        ensures
            c.consumed() == 0,
            c.last_flush() == 0,
    {
        Consumer { consumed_len: 0, last_flow_flush: 0, target_flow_window, target_watermark }
    }

    /// Records that the application consumed `len` more bytes.
    pub fn consume(&mut self, len: u64)
        ensures
            final(self).consumed() == sat_add(old(self).consumed(), len),
            final(self).last_flush() == old(self).last_flush(),
    {
        self.consumed_len = self.consumed_len.saturating_add(len);
    }

    /// Grants the peer credit up to the consumed length plus the window, once
    /// that moved past the last grant by the watermark; asks to queue the
    /// stream when the shared credit grew and it is not queued yet.
    pub fn flush_max_data(&mut self, state: &mut SharedState) -> (r: FlushAction)
        ensures
            ({
                let new_max_data = sat_add(old(self).consumed(), old(self).window());
                let watermark = sat_add(old(self).last_flush(), old(self).watermark());
                if watermark > new_max_data {
                    r == FlushAction::Nothing && *final(state) == *old(state)
                        && final(self).last_flush() == old(self).last_flush()
                } else {
                    &&& final(self).last_flush() == new_max_data
                    &&& final(state).max_data == (if old(state).max_data >= new_max_data {
                        old(state).max_data
                    } else {
                        new_max_data
                    })
                    &&& final(state).final_len == old(state).final_len
                    &&& final(state).queued == old(state).queued
                    &&& r == (if old(state).max_data < new_max_data && !old(state).queued {
                        FlushAction::Queue
                    } else {
                        FlushAction::Nothing
                    })
                }
            }),
            final(self).consumed() == old(self).consumed(),
            final(state).max_data >= old(state).max_data,
    {
        let new_max_data = self.consumed_len.saturating_add(self.target_flow_window);
        let flow_watermark = self.last_flow_flush.saturating_add(self.target_watermark);

        // we haven't reached the watermark so don't update the max_data value
        if flow_watermark > new_max_data {
            return FlushAction::Nothing;
        }

        self.last_flow_flush = new_max_data;

        let prev_max_data = state.max_data;
        if new_max_data > prev_max_data {
            state.max_data = new_max_data;
        }

        // check the previous value in case the `target_watermark` or `target_flow_window` changed
        if prev_max_data >= new_max_data {
            return FlushAction::Nothing;
        }

        // we're already in the queue to transmit so just wait our turn
        if state.queued {
            return FlushAction::Nothing;
        }

        FlushAction::Queue
    }
}

} // verus!
