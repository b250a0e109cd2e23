use mqtt_protocol_core::connection::engine::{remaining_length_to_total_size, GenericConnection};
use mqtt_protocol_core::connection::role::{Client, Server};
use mqtt_protocol_core::connection::topic_alias_send::TopicAliasSend;
use mqtt_protocol_core::connection::version::Version;

#[test]
fn test_initialize_client_mode() {
    let mut connection = GenericConnection::<Client, u16>::new(Version::V5_0);

    connection.initialize(true);

    assert!(connection.is_client());
    assert_eq!(connection.publish_send_count(), 0);
    assert!(connection.publish_send_max().is_none());
    assert!(connection.publish_recv_max().is_none());
    assert!(!connection.need_store());
}

#[test]
fn test_initialize_server_mode() {
    let mut connection = GenericConnection::<Server, u32>::new(Version::V3_1_1);

    connection.initialize(false);

    assert!(!connection.is_client());
    assert_eq!(connection.publish_send_count(), 0);
    assert!(connection.publish_send_max().is_none());
    assert!(connection.publish_recv_max().is_none());
    assert!(!connection.need_store());
}

#[test]
fn test_validate_topic_alias_no_topic_alias_send() {
    let mut connection = GenericConnection::<Client, u16>::new(Version::V5_0);

    let result = connection.validate_topic_alias(Some(1));
    assert!(result.is_none());
}

#[test]
fn test_validate_topic_alias_none_input() {
    let mut connection = GenericConnection::<Client, u16>::new(Version::V5_0);

    let result = connection.validate_topic_alias(None);
    assert!(result.is_none());
}

#[test]
fn test_validate_topic_alias_range_no_topic_alias_send() {
    let connection = GenericConnection::<Client, u16>::new(Version::V5_0);

    let result = connection.validate_topic_alias_range(1);
    assert!(!result);
}

#[test]
fn test_validate_topic_alias_range_zero() {
    let mut connection = GenericConnection::<Client, u16>::new(Version::V5_0);

    let topic_alias_send = TopicAliasSend::new(10);
    connection.set_topic_alias_send(Some(topic_alias_send));

    let result = connection.validate_topic_alias_range(0);
    assert!(!result);
}

#[test]
fn test_validate_topic_alias_range_over_max() {
    let mut connection = GenericConnection::<Client, u16>::new(Version::V5_0);

    let topic_alias_send = TopicAliasSend::new(5);
    connection.set_topic_alias_send(Some(topic_alias_send));

    let result = connection.validate_topic_alias_range(6);
    assert!(!result);
}

#[test]
fn test_validate_topic_alias_range_valid() {
    let mut connection = GenericConnection::<Client, u16>::new(Version::V5_0);

    let topic_alias_send = TopicAliasSend::new(10);
    connection.set_topic_alias_send(Some(topic_alias_send));

    assert!(connection.validate_topic_alias_range(1));
    assert!(connection.validate_topic_alias_range(5));
    assert!(connection.validate_topic_alias_range(10));
}

#[test]
fn test_validate_topic_alias_with_registered_alias() {
    let mut connection = GenericConnection::<Client, u16>::new(Version::V5_0);

    let mut topic_alias_send = TopicAliasSend::new(10);
    topic_alias_send.insert_or_update("test/topic", 5);
    connection.set_topic_alias_send(Some(topic_alias_send));

    let result = connection.validate_topic_alias(Some(5));
    assert_eq!(result, Some("test/topic".to_string()));
}

#[test]
fn test_validate_topic_alias_unregistered_alias() {
    let mut connection = GenericConnection::<Client, u16>::new(Version::V5_0);

    let topic_alias_send = TopicAliasSend::new(10);
    connection.set_topic_alias_send(Some(topic_alias_send));

    let result = connection.validate_topic_alias(Some(5));
    assert!(result.is_none());
}

#[test]
fn test_validate_maximum_packet_size_within_limit() {
    let connection = GenericConnection::<Client, u16>::new(Version::V5_0);

    let result = connection.validate_maximum_packet_size_send(1000);
    assert!(result);
}

#[test]
fn test_validate_maximum_packet_size_at_limit() {
    let mut connection = GenericConnection::<Client, u16>::new(Version::V5_0);

    connection.set_maximum_packet_size_send(1000);

    let result = connection.validate_maximum_packet_size_send(1000);
    assert!(result);
}

#[test]
fn test_validate_maximum_packet_size_over_limit() {
    let mut connection = GenericConnection::<Client, u16>::new(Version::V5_0);

    connection.set_maximum_packet_size_send(1000);

    let result = connection.validate_maximum_packet_size_send(1001);
    assert!(!result);
}

#[test]
fn test_validate_maximum_packet_size_zero_limit() {
    let mut connection = GenericConnection::<Client, u16>::new(Version::V5_0);

    connection.set_maximum_packet_size_send(0);

    let result = connection.validate_maximum_packet_size_send(1);
    assert!(!result);

    let result = connection.validate_maximum_packet_size_send(0);
    assert!(result);
}

#[test]
fn test_initialize_clears_state() {
    let mut connection = GenericConnection::<Client, u16>::new(Version::V5_0);

    connection.set_publish_send_count(5);
    connection.set_need_store(true);
    connection.add_pid_suback(123);
    connection.add_pid_unsuback(456);

    connection.initialize(true);

    assert_eq!(connection.publish_send_count(), 0);
    assert!(!connection.need_store());
    assert!(connection.pid_suback().is_empty());
    assert!(connection.pid_unsuback().is_empty());
    assert!(connection.is_client());
}

#[test]
fn test_remaining_length_to_total_size() {
    assert_eq!(remaining_length_to_total_size(0), 2);
    assert_eq!(remaining_length_to_total_size(127), 129);

    assert_eq!(remaining_length_to_total_size(128), 131);
    assert_eq!(remaining_length_to_total_size(16383), 16386);

    assert_eq!(remaining_length_to_total_size(16384), 16388);
    assert_eq!(remaining_length_to_total_size(2097151), 2097155);

    assert_eq!(remaining_length_to_total_size(2097152), 2097157);
    assert_eq!(remaining_length_to_total_size(268435455), 268435460);
}
