pub mod component;
pub mod packet_rx_classify;
pub mod resource;
