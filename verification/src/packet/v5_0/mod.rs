pub mod publish;
pub mod connect;
