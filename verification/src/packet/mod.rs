pub mod bytes;
pub mod error;
pub mod qos;
pub mod variable_byte_integer;
pub mod mqtt_binary;
pub mod mqtt_string;
pub mod property;
pub mod sub_entry;
pub mod packet_type;
pub mod connect_common;
pub mod v3_1_1;
pub mod v5_0;
pub mod property_check;
pub mod packet_id;
pub mod publish_common;
pub mod control;
pub mod generic;
