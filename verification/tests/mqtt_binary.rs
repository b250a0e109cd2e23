use mqtt_protocol_core::packet::error::MqttError;
use mqtt_protocol_core::packet::mqtt_binary::MqttBinary;

#[test]
fn test_empty_binary() {
    let binary = MqttBinary::new(b"").unwrap();
    assert_eq!(binary.len(), 0);
    assert!(binary.is_empty());
    assert_eq!(binary.size(), 2);
    assert_eq!(binary.as_slice(), b"");
    assert_eq!(binary.as_bytes(), vec![0x00, 0x00]);
}

#[test]
fn test_small_binary() {
    let data = b"hello";
    let binary = MqttBinary::new(data).unwrap();
    assert_eq!(binary.len(), 5);
    assert!(!binary.is_empty());
    assert_eq!(binary.size(), 7);
    assert_eq!(binary.as_slice(), data);
    assert_eq!(binary.as_bytes(), vec![0x00, 0x05, b'h', b'e', b'l', b'l', b'o']);
}

#[test]
fn test_decode_roundtrip() {
    let original_data = b"test data";
    let binary = MqttBinary::new(original_data).unwrap();
    let encoded = binary.as_bytes();

    let (decoded_binary, consumed) = MqttBinary::decode(encoded).unwrap();
    assert_eq!(consumed, encoded.len());
    assert_eq!(decoded_binary.as_slice(), original_data);
    assert_eq!(decoded_binary.len(), original_data.len());
}

#[test]
fn test_max_size() {
    let data = vec![0u8; 65535];
    let binary = MqttBinary::new(&data).unwrap();
    assert_eq!(binary.len(), 65535);
    assert_eq!(binary.size(), 65537);
}

#[test]
fn test_oversized_data() {
    let data = vec![0u8; 65536];
    let result = MqttBinary::new(&data);
    assert!(result.is_err());
    assert_eq!(result.unwrap_err(), MqttError::MalformedPacket);
}

#[test]
fn test_decode_malformed() {
    assert!(MqttBinary::decode(&[0x00]).is_err());

    assert!(MqttBinary::decode(&[0x00, 0x05, b'h', b'i']).is_err());
}

#[test]
fn test_continuous_buffer() {
    let data = b"continuous";
    let binary = MqttBinary::new(data).unwrap();
    let buffer = binary.to_continuous_buffer();
    assert_eq!(buffer[0], 0x00);
    assert_eq!(buffer[1], 0x0A);
    assert_eq!(&buffer[2..], data);
}

#[test]
fn mqtt_binary_test_to_buffers() {
    let data = b"buffer test";
    let binary = MqttBinary::new(data).unwrap();
    let buffers = binary.to_buffers();

    assert_eq!(buffers.len(), 1);

    let buffer_data: &[u8] = buffers[0];
    assert_eq!(buffer_data, binary.as_bytes());
}

#[test]
fn test_trait_implementations() {
    let binary = MqttBinary::new(b"trait test").unwrap();

    let slice: &[u8] = binary.as_ref();
    assert_eq!(slice, b"trait test");

    assert_eq!(&*binary, b"trait test");

    let binary2 = MqttBinary::new(b"trait test").unwrap();
    assert_eq!(binary, binary2);

    let cloned = binary.clone();
    assert_eq!(binary, cloned);

    let default = MqttBinary::default();
    assert!(default.is_empty());
}

#[test]
fn test_from_conversions() {
    let binary = MqttBinary::try_from("string test").unwrap();
    assert_eq!(binary.as_slice(), b"string test");

    let long_str = "x".repeat(65536);
    assert!(MqttBinary::try_from(long_str.as_str()).is_err());
}

#[test]
fn test_sso_features() {
    let small_data = b"small";
    let binary = MqttBinary::new(small_data).unwrap();
    assert!(matches!(binary, MqttBinary::Large(_)));

    let very_large_data = b"This is a very long binary data that exceeds even the largest SSO buffer size to ensure it's always stored in the Large variant for consistent testing";
    let binary = MqttBinary::new(very_large_data).unwrap();
    assert!(matches!(binary, MqttBinary::Large(_)));
}
