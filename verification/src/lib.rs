pub mod packet;
pub mod connection;
