//! The decisions of the socket tasks that move packets between an endpoint
//! and its sockets.

pub mod send;
pub mod task;
