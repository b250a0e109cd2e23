use mqtt_protocol_core::packet::error::ConnectReasonCode;
use mqtt_protocol_core::connection::topic_alias_recv::TopicAliasRecv;
use mqtt_protocol_core::connection::topic_alias_send::TopicAliasSend;
use mqtt_protocol_core::packet::control::ControlPacket;
use mqtt_protocol_core::packet::error::MqttError;
use mqtt_protocol_core::packet::property::{
    MessageExpiryInterval, Properties, PropertiesParse, PropertiesToBuffers, PropertiesToContinuousBuffer,
    Property, PropertySize, TopicAlias,
};
use mqtt_protocol_core::packet::mqtt_string::{IntoMqttString, MqttString};
use mqtt_protocol_core::packet::qos::Qos;
use mqtt_protocol_core::packet::variable_byte_integer::VariableByteInteger;
use mqtt_protocol_core::packet::{v3_1_1, v5_0};

#[test]
fn control_packet_roundtrip() {
    let p = ControlPacket::<u16>::new(true, 4, Some(0x1234), None, Some(0x10), None, vec![]).unwrap();
    let buf = p.to_continuous_buffer();
    assert_eq!(buf, vec![0x40, 0x03, 0x12, 0x34, 0x10]);
    let (q, n) = ControlPacket::<u16>::parse(true, 4, &buf[2..]).unwrap();
    assert_eq!(n, 3);
    assert_eq!(q, p);
}

#[test]
fn control_packet_fields_must_fit() {
    // A v3.1.1 PUBACK has no reason code.
    assert_eq!(
        ControlPacket::<u16>::new(false, 4, Some(1), None, Some(0), None, vec![]),
        Err(MqttError::MalformedPacket)
    );
    // CONNECT is not a control packet here.
    assert_eq!(
        ControlPacket::<u16>::new(false, 1, None, None, None, None, vec![]),
        Err(MqttError::MalformedPacket)
    );
}

#[test]
fn v3_publish_roundtrip() {
    let p = v3_1_1::publish::GenericPublish::<u16>::builder()
        .topic_name("a/b")
        .unwrap()
        .qos(Qos::ExactlyOnce)
        .packet_id(7)
        .retain(true)
        .payload(b"xyz")
        .build()
        .unwrap();
    let buf = p.to_continuous_buffer();
    assert_eq!(buf, vec![0x35, 10, 0x00, 0x03, b'a', b'/', b'b', 0x00, 0x07, b'x', b'y', b'z']);
    let (q, n) = v3_1_1::publish::GenericPublish::<u16>::parse(buf[0] & 0x0f, &buf[2..]).unwrap();
    assert_eq!(n, 10);
    assert_eq!(q.topic_name(), "a/b");
    assert_eq!(q.packet_id(), Some(7));
    assert_eq!(q.payload(), b"xyz");
    assert!(q.retain());
    assert_eq!(q.to_continuous_buffer(), buf);
}

#[test]
fn v5_publish_roundtrip() {
    let mut props: Properties = Vec::new();
    props.push(Property::MessageExpiryInterval(MessageExpiryInterval::new(60).unwrap()));
    let p = v5_0::publish::GenericPublish::<u16>::builder()
        .topic_name("t")
        .unwrap()
        .qos(Qos::AtLeastOnce)
        .packet_id(2)
        .props(props)
        .payload(b"p")
        .build()
        .unwrap();
    let buf = p.to_continuous_buffer();
    let (q, n) = v5_0::publish::GenericPublish::<u16>::parse(buf[0] & 0x0f, &buf[2..]).unwrap();
    assert_eq!(n, buf.len() - 2);
    assert_eq!(q.topic_name(), "t");
    assert_eq!(q.packet_id(), Some(2));
    assert_eq!(q.props().len(), 1);
    assert_eq!(q.to_continuous_buffer(), buf);
}

#[test]
fn v5_publish_topic_alias_replacement() {
    let mut props: Properties = Vec::new();
    props.push(Property::TopicAlias(TopicAlias::new(3).unwrap()));
    let p = v5_0::publish::GenericPublish::<u16>::builder()
        .topic_name("")
        .unwrap()
        .props(props)
        .payload(b"p")
        .build()
        .unwrap();
    let q = p.remove_topic_alias_add_topic("x/y").unwrap();
    assert_eq!(q.topic_name(), "x/y");
    assert!(q.props().is_empty());
}

#[test]
fn v3_connect_roundtrip() {
    let c = v3_1_1::connect::Connect::builder()
        .client_id("client")
        .unwrap()
        .user_name("u")
        .unwrap()
        .password(b"pw")
        .unwrap()
        .keep_alive(30)
        .build()
        .unwrap();
    let buf = c.to_continuous_buffer();
    let (d, n) = v3_1_1::connect::Connect::parse(&buf[2..]).unwrap();
    assert_eq!(n, buf.len() - 2);
    assert_eq!(d.client_id(), "client");
    assert_eq!(d.user_name(), Some("u"));
    assert_eq!(d.password(), Some(&b"pw"[..]));
    assert_eq!(d.keep_alive(), 30);
}

#[test]
fn v5_connect_roundtrip() {
    let c = v5_0::connect::Connect::builder()
        .client_id("cid")
        .unwrap()
        .clean_start(true)
        .keep_alive(5)
        .build()
        .unwrap();
    let buf = c.to_continuous_buffer();
    let (d, n) = v5_0::connect::Connect::parse(&buf[2..]).unwrap();
    assert_eq!(n, buf.len() - 2);
    assert_eq!(d.client_id(), "cid");
    assert!(d.clean_start());
    assert_eq!(d.keep_alive(), 5);
    assert_eq!(d.to_continuous_buffer(), buf);
}

#[test]
fn connect_with_wrong_protocol_level_is_refused() {
    let c = v3_1_1::connect::Connect::builder().client_id("c").unwrap().build().unwrap();
    let mut buf = c.to_continuous_buffer();
    buf[8] = 3;
    assert_eq!(
        v3_1_1::connect::Connect::parse(&buf[2..]).unwrap_err(),
        MqttError::UnsupportedProtocolVersion
    );
}

#[test]
fn property_list_roundtrip() {
    let mut props: Properties = Vec::new();
    props.push(Property::MessageExpiryInterval(MessageExpiryInterval::new(1).unwrap()));
    props.push(Property::TopicAlias(TopicAlias::new(9).unwrap()));
    let body = props.to_continuous_buffer();
    assert_eq!(body, vec![0x02, 0, 0, 0, 1, 0x23, 0, 9]);
    let buffers = props.to_buffers();
    assert_eq!(buffers.len(), 2);
    assert_eq!(buffers.concat(), body);
    let mut encoded = vec![body.len() as u8];
    encoded.extend_from_slice(&body);
    let (parsed, n) = Properties::parse(&encoded).unwrap();
    assert_eq!(n, encoded.len());
    assert_eq!(parsed.len(), 2);
    assert_eq!(parsed.to_continuous_buffer(), body);
}

#[test]
fn property_value_sizes() {
    assert_eq!(PropertySize::size(&7u8), 1);
    assert_eq!(PropertySize::size(&7u16), 2);
    assert_eq!(PropertySize::size(&7u32), 4);
    assert_eq!(PropertySize::size(&"abc".to_string()), 5);
    assert_eq!(PropertySize::size(&vec![1u8, 2]), 4);
    assert_eq!(PropertySize::size(&VariableByteInteger::from_u32(127).unwrap()), 1);
    assert_eq!(PropertySize::size(&VariableByteInteger::from_u32(128).unwrap()), 2);
    assert_eq!(PropertySize::size(&VariableByteInteger::from_u32(2_097_152).unwrap()), 4);
}

#[test]
fn topic_alias_send_insert_then_lookup() {
    let mut tas = TopicAliasSend::new(2);
    tas.insert_or_update("a", 1);
    tas.insert_or_update("b", 2);
    assert_eq!(tas.peek(1), Some("a".to_string()));
    assert_eq!(tas.find_by_topic("b"), Some(2));
    // Re-registering alias 1 for "b" drops both old pairs.
    tas.insert_or_update("b", 1);
    assert_eq!(tas.peek(1), Some("b".to_string()));
    assert_eq!(tas.peek(2), None);
    assert_eq!(tas.find_by_topic("a"), None);
    // The free alias is used first, then the least recently used one.
    assert_eq!(tas.get_lru_alias(), 2);
}

#[test]
fn topic_alias_send_lru_order() {
    let mut tas = TopicAliasSend::new(2);
    tas.insert_or_update("a", 1);
    tas.insert_or_update("b", 2);
    assert_eq!(tas.get_lru_alias(), 1);
    assert_eq!(tas.get(1), Some("a".to_string()));
    assert_eq!(tas.get_lru_alias(), 2);
}

#[test]
fn topic_alias_recv_insert_then_get() {
    let mut tar = TopicAliasRecv::new(5);
    assert_eq!(tar.get(3), None);
    tar.insert_or_update("x", 3);
    assert_eq!(tar.get(3), Some("x".to_string()));
    tar.insert_or_update("y", 3);
    assert_eq!(tar.get(3), Some("y".to_string()));
    assert_eq!(tar.max(), 5);
}

#[test]
fn into_mqtt_string_conversions() {
    assert_eq!("test".into_mqtt_string().unwrap().as_str(), "test");
    assert_eq!("test".to_string().into_mqtt_string().unwrap().as_str(), "test");
    let s = MqttString::new("test").unwrap();
    assert_eq!(s.into_mqtt_string().unwrap().as_str(), "test");
    assert_eq!("x".repeat(65536).into_mqtt_string(), Err(MqttError::MalformedPacket));
}

#[test]
fn connect_reason_code_from_u8_known_and_unassigned() {
    assert!(matches!(ConnectReasonCode::from_u8(0x87), Some(ConnectReasonCode::NotAuthorized)));
    assert!(matches!(ConnectReasonCode::from_u8(0x00), Some(ConnectReasonCode::Success)));
    assert!(ConnectReasonCode::from_u8(0x01).is_none());
    assert!(ConnectReasonCode::from_u8(0x8B).is_none());
}

#[test]
fn property_parse_truncated_value_is_malformed() {
    assert!(matches!(Property::parse(&[0x0B]), Err(MqttError::MalformedPacket)));
    assert!(matches!(Property::parse(&[0x0B, 0x80]), Err(MqttError::MalformedPacket)));
    assert!(matches!(Property::parse(&[0x02, 0x00, 0x00]), Err(MqttError::MalformedPacket)));
    assert!(matches!(Property::parse(&[]), Err(MqttError::MalformedPacket)));
}
