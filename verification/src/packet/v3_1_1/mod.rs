pub mod connect;
pub mod publish;
