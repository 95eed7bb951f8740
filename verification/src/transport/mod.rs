pub mod packet_buffers;
