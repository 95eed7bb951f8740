//! Verified building blocks of a QUIC stack: a bounded overwriting stack and
//! the LIFO channel built on it, receive buffers, connection-id maps, packet
//! bookkeeping and the decision logic of timers, queues and sockets.

pub mod sync;
pub mod t2;
pub mod connection;
pub mod accept;
pub mod clock;
pub mod xdp;
pub mod inet;
pub mod system;
pub mod frame;
pub mod packet;
pub mod slice;
pub mod stream;
pub mod transport;
pub mod histogram;
pub mod socket;
