use s2n_quic_sync::stream::recv::{
    Consumer, FlushAction, Producer, SharedState, TransportError, MAX_VARINT, UNKNOWN_FINAL_SIZE,
};

#[test]
fn simple_test() {
    // a stream with 16 bytes of credit receives "hello world!" with FIN
    let mut state = SharedState::new(16);
    let mut producer = Producer::new();
    let data = b"hello world!";
    assert_eq!(producer.write_at(&mut state, 0, data.len() as u64, true), Ok(()));
    assert_eq!(state.final_len, 12);
    assert_eq!(state.max_data, 16);
}

#[test]
fn writes_beyond_the_credit_are_refused() {
    let mut state = SharedState::new(10);
    let mut producer = Producer::new();
    assert_eq!(producer.write_at(&mut state, 0, 10, false), Ok(()));
    assert_eq!(
        producer.write_at(&mut state, 5, 6, false),
        Err(TransportError::StreamLimit)
    );
    // more credit from the consumer lets the write through
    state.max_data = 20;
    assert_eq!(producer.write_at(&mut state, 5, 6, false), Ok(()));
    assert_eq!(state.final_len, UNKNOWN_FINAL_SIZE);
}

#[test]
fn the_final_size_cannot_change() {
    let mut state = SharedState::new(100);
    let mut producer = Producer::new();
    assert_eq!(producer.write_at(&mut state, 0, 10, true), Ok(()));
    // the same final size again is fine
    assert_eq!(producer.write_at(&mut state, 5, 5, true), Ok(()));
    // data beyond the final size
    assert_eq!(
        producer.write_at(&mut state, 5, 6, false),
        Err(TransportError::FinalSize)
    );
    // a smaller final size
    assert_eq!(
        producer.write_at(&mut state, 0, 8, true),
        Err(TransportError::FinalSize)
    );
}

#[test]
fn writes_past_the_largest_offset_are_refused() {
    let mut state = SharedState::new(u64::MAX);
    let mut producer = Producer::new();
    assert_eq!(producer.write_at(&mut state, MAX_VARINT - 10, 10, false), Ok(()));
    assert_eq!(
        producer.write_at(&mut state, MAX_VARINT, 1, false),
        Err(TransportError::FrameEncoding)
    );
    // the end saturates instead of wrapping around
    assert_eq!(
        producer.write_at(&mut state, u64::MAX - 1, 10, false),
        Err(TransportError::FrameEncoding)
    );
    // a final size is still recorded before the check
    assert_eq!(
        producer.write_at(&mut state, MAX_VARINT, 5, true),
        Err(TransportError::FrameEncoding)
    );
    assert_eq!(state.final_len, MAX_VARINT + 5);
}

#[test]
fn reset_keeps_the_first_code() {
    let mut state = SharedState::new(0);
    let mut producer = Producer::new();
    producer.reset(&mut state, 7);
    assert_eq!(state.reset_code, 7);
    producer.reset(&mut state, 9);
    assert_eq!(state.reset_code, 7);
    state.clear();
    assert_eq!(state.reset_code, u64::MAX);
    assert_eq!(state.final_len, UNKNOWN_FINAL_SIZE);
    assert!(!state.queued);
}

#[test]
fn credit_is_granted_past_the_watermark() {
    let mut state = SharedState::new(100);
    let mut consumer = Consumer::new(100, 50);
    // nothing consumed: the grant would be 100, the watermark is 50
    assert_eq!(consumer.flush_max_data(&mut state), FlushAction::Nothing);
    assert_eq!(state.max_data, 100);
    consumer.consume(30);
    // 130 is below the last grant (100) plus the watermark (50)
    assert_eq!(consumer.flush_max_data(&mut state), FlushAction::Nothing);
    assert_eq!(state.max_data, 100);
    consumer.consume(30);
    // 160: the credit grows and the stream is queued to announce it
    assert_eq!(consumer.flush_max_data(&mut state), FlushAction::Queue);
    assert_eq!(state.max_data, 160);
    // already queued: the credit grows, no second queueing
    state.queued = true;
    consumer.consume(100);
    assert_eq!(consumer.flush_max_data(&mut state), FlushAction::Nothing);
    assert_eq!(state.max_data, 260);
    // the credit never shrinks
    state.max_data = 1000;
    consumer.consume(50);
    assert_eq!(consumer.flush_max_data(&mut state), FlushAction::Nothing);
    assert_eq!(state.max_data, 1000);
}

#[test]
fn the_final_size_is_remembered() {
    let mut state = SharedState::new(100);
    let mut producer = Producer::new();
    assert_eq!(producer.write_at(&mut state, 0, 10, true), Ok(()));
    // even once the shared final size is gone, the producer keeps its own
    state.final_len = UNKNOWN_FINAL_SIZE;
    assert_eq!(
        producer.write_at(&mut state, 10, 1, false),
        Err(TransportError::FinalSize)
    );
    // the cached credit is refreshed once and kept
    let mut state = SharedState::new(5);
    let mut producer = Producer::new();
    assert_eq!(producer.write_at(&mut state, 0, 5, false), Ok(()));
    state.max_data = 0;
    assert_eq!(producer.write_at(&mut state, 0, 5, false), Ok(()));
    assert_eq!(
        producer.write_at(&mut state, 0, 6, false),
        Err(TransportError::StreamLimit)
    );
}
