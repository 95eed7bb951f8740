pub mod buffer;
pub mod connection;
pub mod decrypt;
pub mod inbound;
pub mod temporary;
