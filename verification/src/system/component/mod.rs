pub mod connection;
pub mod crypto;
pub mod inet;
pub mod packet;
pub mod server;
