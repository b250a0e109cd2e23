use mqtt_protocol_core::packet::mqtt_string::MqttString;

#[test]
fn test_empty_string() {
    let string = MqttString::new("").unwrap();
    assert_eq!(string.len(), 0);
    assert!(string.is_empty());
    assert_eq!(string.as_str(), "");
    assert_eq!(string.as_bytes(), &[0x00, 0x00]);
}

#[test]
fn test_small_string() {
    let string = MqttString::new("hello").unwrap();
    assert_eq!(string.len(), 5);
    assert!(!string.is_empty());
    assert_eq!(string.as_str(), "hello");
    assert_eq!(string.as_bytes(), &[0x00, 0x05, b'h', b'e', b'l', b'l', b'o']);
}

#[test]
fn mqtt_string_test_to_buffers() {
    let data = "buffer test";
    let string = MqttString::new(data).unwrap();
    let buffers = string.to_buffers();

    assert_eq!(buffers.len(), 1);

    let buffer_data: &[u8] = buffers[0];
    assert_eq!(buffer_data, string.as_bytes());
}

#[test]
fn test_string_variants() {
    let small_data = "small";
    let string = MqttString::new(small_data).unwrap();
    assert!(matches!(string, MqttString::Large(_)));

    let medium_data = "This is a medium-size string that is longer than small SSO buffers but fits in the largest one";
    let string = MqttString::new(medium_data).unwrap();
    assert!(matches!(string, MqttString::Large(_)));

    let very_large_data = "This is a very long string that exceeds even the largest SSO buffer size to ensure it's always stored in the Large variant";
    let string = MqttString::new(very_large_data).unwrap();
    assert!(matches!(string, MqttString::Large(_)));
}
