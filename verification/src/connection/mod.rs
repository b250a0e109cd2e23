pub mod role;
pub mod version;
pub mod event;
pub mod id_set;
pub mod packet_id_manager;
pub mod topic_alias_send;
pub mod topic_alias_recv;
pub mod store;
pub mod packet_builder;
pub mod engine;
