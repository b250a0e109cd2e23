use mqtt_protocol_core::connection::engine::GenericConnection;
use mqtt_protocol_core::connection::event::{GenericEvent, TimerKind};
use mqtt_protocol_core::connection::packet_builder::Cursor;
use mqtt_protocol_core::connection::role::{Any, Client, Server};
use mqtt_protocol_core::connection::version::Version;
use mqtt_protocol_core::packet::control::ControlPacket;
use mqtt_protocol_core::packet::error::MqttError;
use mqtt_protocol_core::packet::generic::GenericPacket;
use mqtt_protocol_core::packet::qos::Qos;
use mqtt_protocol_core::packet::v3_1_1;

fn v3_connect(keep_alive: u16) -> GenericPacket<u16> {
    let c = v3_1_1::connect::Connect::builder()
        .client_id("cid")
        .unwrap()
        .clean_session(true)
        .keep_alive(keep_alive)
        .build()
        .unwrap();
    GenericPacket::V3_1_1Connect(c)
}

fn connected_v3_client() -> GenericConnection<Client, u16> {
    let mut con = GenericConnection::<Client, u16>::new(Version::V3_1_1);
    let events = con.send(v3_connect(0));
    assert_eq!(events.len(), 1);
    let connack = [0x20u8, 0x02, 0x00, 0x00];
    let mut cursor = Cursor::new(&connack);
    let events = con.recv(&mut cursor);
    assert_eq!(events.len(), 1);
    assert!(matches!(events[0], GenericEvent::NotifyPacketReceived(GenericPacket::Control(_))));
    con
}

#[test]
fn client_connect_then_connack_establishes_connection() {
    let mut con = GenericConnection::<Client, u16>::new(Version::V3_1_1);
    let events = con.send(v3_connect(30));
    assert_eq!(events.len(), 2);
    assert!(matches!(events[0], GenericEvent::RequestSendPacket { release_packet_id_if_send_error: None, .. }));
    assert!(matches!(
        events[1],
        GenericEvent::RequestTimerReset { kind: TimerKind::PingreqSend, duration_ms: 30000 }
    ));
    assert!(con.is_client());

    let connack = [0x20u8, 0x02, 0x00, 0x00];
    let mut cursor = Cursor::new(&connack);
    let events = con.recv(&mut cursor);
    assert_eq!(cursor.position(), 4);
    assert_eq!(events.len(), 1);
    assert!(matches!(events[0], GenericEvent::NotifyPacketReceived(GenericPacket::Control(_))));
}

#[test]
fn connect_twice_is_not_allowed() {
    let mut con = GenericConnection::<Client, u16>::new(Version::V3_1_1);
    let _ = con.send(v3_connect(0));
    let events = con.send(v3_connect(0));
    assert_eq!(events.len(), 1);
    assert!(matches!(events[0], GenericEvent::NotifyError(MqttError::PacketNotAllowedToSend)));
}

#[test]
fn version_mismatch_is_reported() {
    let mut con = GenericConnection::<Client, u16>::new(Version::V5_0);
    let events = con.send(v3_connect(0));
    assert_eq!(events.len(), 1);
    assert!(matches!(events[0], GenericEvent::NotifyError(MqttError::VersionMismatch)));
}

#[test]
fn server_may_not_send_connect() {
    let mut con = GenericConnection::<Server, u16>::new(Version::V3_1_1);
    let events = con.send(v3_connect(0));
    assert_eq!(events.len(), 1);
    assert!(matches!(events[0], GenericEvent::NotifyError(MqttError::PacketNotAllowedToSend)));
}

#[test]
fn qos1_publish_flow_releases_identifier_on_puback() {
    let mut con = connected_v3_client();
    let id = con.acquire_packet_id().unwrap();
    assert_eq!(id, 1);
    let publish = v3_1_1::publish::GenericPublish::<u16>::builder()
        .topic_name("a/b")
        .unwrap()
        .qos(Qos::AtLeastOnce)
        .packet_id(id)
        .payload(b"hi")
        .build()
        .unwrap();
    let events = con.send(GenericPacket::V3_1_1Publish(publish));
    assert_eq!(events.len(), 1);
    assert!(matches!(events[0], GenericEvent::RequestSendPacket { release_packet_id_if_send_error: Some(1), .. }));

    let puback = [0x40u8, 0x02, 0x00, 0x01];
    let mut cursor = Cursor::new(&puback);
    let events = con.recv(&mut cursor);
    assert_eq!(events.len(), 2);
    assert!(matches!(events[0], GenericEvent::NotifyPacketIdReleased(1)));
    assert!(matches!(events[1], GenericEvent::NotifyPacketReceived(GenericPacket::Control(_))));

    // The identifier is free again: the next one acquired is 1.
    assert_eq!(con.acquire_packet_id().unwrap(), 1);
}

#[test]
fn unexpected_puback_is_a_protocol_error() {
    let mut con = connected_v3_client();
    let puback = [0x40u8, 0x02, 0x00, 0x07];
    let mut cursor = Cursor::new(&puback);
    let events = con.recv(&mut cursor);
    assert_eq!(events.len(), 2);
    assert!(matches!(events[0], GenericEvent::RequestClose));
    assert!(matches!(events[1], GenericEvent::NotifyError(MqttError::ProtocolError)));
}

#[test]
fn publish_with_unregistered_identifier_is_refused() {
    let mut con = connected_v3_client();
    let publish = v3_1_1::publish::GenericPublish::<u16>::builder()
        .topic_name("a/b")
        .unwrap()
        .qos(Qos::ExactlyOnce)
        .packet_id(9)
        .payload(b"x")
        .build()
        .unwrap();
    let events = con.send(GenericPacket::V3_1_1Publish(publish));
    assert_eq!(events.len(), 1);
    assert!(matches!(events[0], GenericEvent::NotifyError(MqttError::PacketIdentifierInvalid)));
}

#[test]
fn qos0_publish_needs_connection() {
    let mut con = GenericConnection::<Client, u16>::new(Version::V3_1_1);
    let publish = v3_1_1::publish::GenericPublish::<u16>::builder()
        .topic_name("a/b")
        .unwrap()
        .payload(b"x")
        .build()
        .unwrap();
    let events = con.send(GenericPacket::V3_1_1Publish(publish));
    assert_eq!(events.len(), 1);
    assert!(matches!(events[0], GenericEvent::NotifyError(MqttError::PacketNotAllowedToSend)));
}

#[test]
fn packet_identifiers_are_acquired_in_order_and_reusable() {
    let mut con = GenericConnection::<Client, u16>::new(Version::V5_0);
    assert_eq!(con.acquire_packet_id().unwrap(), 1);
    assert_eq!(con.acquire_packet_id().unwrap(), 2);
    let events = con.release_packet_id(1);
    assert_eq!(events.len(), 1);
    assert!(matches!(events[0], GenericEvent::NotifyPacketIdReleased(1)));
    assert_eq!(con.acquire_packet_id().unwrap(), 1);
    assert_eq!(con.acquire_packet_id().unwrap(), 3);
}

#[test]
fn register_packet_id_errors() {
    let mut con = GenericConnection::<Client, u16>::new(Version::V5_0);
    assert_eq!(con.register_packet_id(0), Err(MqttError::PacketIdentifierInvalid));
    assert_eq!(con.register_packet_id(5), Ok(()));
    assert_eq!(con.register_packet_id(5), Err(MqttError::PacketIdentifierConflict));
    assert_eq!(con.acquire_packet_id().unwrap(), 1);
}

#[test]
fn malformed_bytes_close_the_connection() {
    let mut con = GenericConnection::<Client, u16>::new(Version::V3_1_1);
    let bytes = [0x20u8, 0xff, 0xff, 0xff, 0xff];
    let mut cursor = Cursor::new(&bytes);
    let events = con.recv(&mut cursor);
    assert_eq!(events.len(), 2);
    assert!(matches!(events[0], GenericEvent::RequestClose));
    assert!(matches!(events[1], GenericEvent::NotifyError(MqttError::MalformedPacket)));
}

#[test]
fn partial_packet_gives_no_event() {
    let mut con = GenericConnection::<Client, u16>::new(Version::V3_1_1);
    let _ = con.send(v3_connect(0));
    let first = [0x20u8, 0x02];
    let mut cursor = Cursor::new(&first);
    assert!(con.recv(&mut cursor).is_empty());
    let rest = [0x00u8, 0x00];
    let mut cursor = Cursor::new(&rest);
    let events = con.recv(&mut cursor);
    assert_eq!(events.len(), 1);
}

#[test]
fn client_refuses_received_connect() {
    let mut con = GenericConnection::<Client, u16>::new(Version::V3_1_1);
    let c = v3_1_1::connect::Connect::builder().client_id("x").unwrap().build().unwrap();
    let bytes = c.to_continuous_buffer();
    let mut cursor = Cursor::new(&bytes);
    let events = con.recv(&mut cursor);
    assert_eq!(events.len(), 1);
    assert!(matches!(events[0], GenericEvent::NotifyError(MqttError::ProtocolError)));
}

#[test]
fn server_learns_version_from_connect() {
    let mut con = GenericConnection::<Server, u16>::new(Version::Undetermined);
    let c = v3_1_1::connect::Connect::builder().client_id("x").unwrap().keep_alive(10).build().unwrap();
    let bytes = c.to_continuous_buffer();
    let mut cursor = Cursor::new(&bytes);
    let events = con.recv(&mut cursor);
    assert_eq!(con.get_protocol_version(), Version::V3_1_1);
    assert!(!con.is_client());
    assert_eq!(events.len(), 2);
    assert!(matches!(
        events[0],
        GenericEvent::RequestTimerReset { kind: TimerKind::PingreqRecv, duration_ms: 15000 }
    ));
    assert!(matches!(events[1], GenericEvent::NotifyPacketReceived(GenericPacket::V3_1_1Connect(_))));

    let connack = ControlPacket::<u16>::new(false, 2, None, Some(0), Some(0), None, vec![]).unwrap();
    let events = con.send(GenericPacket::Control(connack));
    assert!(matches!(events[0], GenericEvent::RequestSendPacket { .. }));
}

#[test]
fn refused_connack_closes_the_connection() {
    let mut con = GenericConnection::<Any, u16>::new(Version::V3_1_1);
    let c = v3_1_1::connect::Connect::builder().client_id("x").unwrap().build().unwrap();
    let bytes = c.to_continuous_buffer();
    let mut cursor = Cursor::new(&bytes);
    let _ = con.recv(&mut cursor);
    let connack = ControlPacket::<u16>::new(false, 2, None, Some(0), Some(5), None, vec![]).unwrap();
    let events = con.send(GenericPacket::Control(connack));
    assert_eq!(events.len(), 2);
    assert!(matches!(events[0], GenericEvent::RequestSendPacket { .. }));
    assert!(matches!(events[1], GenericEvent::RequestClose));
}

#[test]
fn pingreq_timer_sends_pingreq_when_connected() {
    let mut con = connected_v3_client();
    let events = con.notify_timer_fired(TimerKind::PingreqSend);
    assert_eq!(events.len(), 1);
    match &events[0] {
        GenericEvent::RequestSendPacket { packet: GenericPacket::Control(p), .. } => {
            assert_eq!(p.packet_type(), 12);
            assert_eq!(p.to_continuous_buffer(), vec![0xc0, 0x00]);
        },
        _ => panic!("expected a PINGREQ to send"),
    }
}

#[test]
fn pingresp_timer_closes_v3_connection() {
    let mut con = connected_v3_client();
    let events = con.notify_timer_fired(TimerKind::PingrespRecv);
    assert_eq!(events.len(), 1);
    assert!(matches!(events[0], GenericEvent::RequestClose));
}

#[test]
fn notify_closed_releases_subscribe_identifiers() {
    let mut con = connected_v3_client();
    let id = con.acquire_packet_id().unwrap();
    let sub = ControlPacket::<u16>::new(false, 8, Some(id), None, None, None, vec![0x00, 0x01, b'a', 0x00]).unwrap();
    let events = con.send(GenericPacket::Control(sub));
    assert!(matches!(events[0], GenericEvent::RequestSendPacket { release_packet_id_if_send_error: Some(1), .. }));
    assert_eq!(con.pid_suback(), vec![1]);
    let events = con.notify_closed();
    assert!(matches!(events[0], GenericEvent::NotifyPacketIdReleased(1)));
    assert!(con.pid_suback().is_empty());
    assert_eq!(con.get_stored_packets().len(), 0);
}

#[test]
fn subscribe_with_unregistered_identifier_is_refused() {
    let mut con = connected_v3_client();
    let sub = ControlPacket::<u16>::new(false, 8, Some(3), None, None, None, vec![0x00, 0x01, b'a', 0x00]).unwrap();
    let events = con.send(GenericPacket::Control(sub));
    assert_eq!(events.len(), 1);
    assert!(matches!(events[0], GenericEvent::NotifyError(MqttError::PacketIdentifierInvalid)));
}

#[test]
fn recv_handles_every_complete_packet_in_the_buffer() {
    let mut c = GenericConnection::<Client, u16>::new(Version::V5_0);
    let bytes = [0xD0u8, 0x00, 0xD0, 0x00];
    let mut data = Cursor::new(&bytes[..]);
    let events = c.recv(&mut data);
    let received = events.iter().filter(|e| matches!(e, GenericEvent::NotifyPacketReceived(_))).count();
    assert_eq!(received, 2);
    assert!(!events.iter().any(|e| matches!(e, GenericEvent::NotifyError(_))));
    assert_eq!(data.position(), 4);
}
