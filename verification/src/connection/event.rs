use vstd::prelude::*;
use crate::packet::error::MqttError;
use crate::packet::generic::GenericPacket;
use crate::packet::packet_id::IsPacketId;

verus! {

/// The timers a connection asks its owner to run.
#[derive(Debug, Clone, Copy, PartialEq, Eq, Structural)]
pub enum TimerKind {
    /// When it fires, a PINGREQ is due.
    PingreqSend,
    /// When it fires, no PINGREQ came from the client in time.
    PingreqRecv,
    /// When it fires, no PINGRESP came from the server in time.
    PingrespRecv,
}

/// What a connection asks its owner to do, or tells it.
#[derive(Debug)]
pub enum GenericEvent<PacketIdType: IsPacketId> {
    /// A packet was received.
    NotifyPacketReceived(GenericPacket<PacketIdType>),
    /// The packet should be sent; if sending fails, the packet identifier
    /// given should be released.
    RequestSendPacket { packet: GenericPacket<PacketIdType>, release_packet_id_if_send_error: Option<PacketIdType> },
    /// A packet identifier became free again.
    NotifyPacketIdReleased(PacketIdType),
    /// The timer should be (re)started with this duration.
    RequestTimerReset { kind: TimerKind, duration_ms: u64 },
    /// The timer should be stopped.
    RequestTimerCancel(TimerKind),
    /// Something went wrong.
    NotifyError(MqttError),
    /// The underlying connection should be closed.
    RequestClose,
}

/// An event with `u16` packet identifiers.
pub type Event = GenericEvent<u16>;

} // verus!
