pub mod chunks;
pub mod recv;
