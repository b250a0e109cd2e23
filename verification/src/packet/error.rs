use vstd::prelude::*;

verus! {

/// Errors reported by packet parsing, packet building and the connection.
#[derive(Debug, Clone, Copy, PartialEq, Eq, Structural)]
pub enum MqttError {
    UnspecifiedError,
    MalformedPacket,
    ProtocolError,
    ImplementationSpecificError,
    UnsupportedProtocolVersion,
    ClientIdentifierNotValid,
    BadUserNameOrPassword,
    TopicNameInvalid,
    PacketIdentifierInvalid,
    ReceiveMaximumExceeded,
    TopicAliasInvalid,
    PacketTooLarge,
    ValueOutOfRange,
    InsufficientBytes,
    VersionMismatch,
    PacketNotAllowedToSend,
    PacketNotRegulated,
    PacketIdentifierFullyUsed,
    PacketIdentifierConflict,
}

/// Reason codes of a v5.0 DISCONNECT packet.
#[derive(Debug, Clone, Copy, PartialEq, Eq, Structural)]
pub enum DisconnectReasonCode {
    NormalDisconnection,
    UnspecifiedError,
    MalformedPacket,
    ProtocolError,
    ImplementationSpecificError,
    KeepAliveTimeout,
    TopicNameInvalid,
    ReceiveMaximumExceeded,
    TopicAliasInvalid,
    PacketTooLarge,
}

impl DisconnectReasonCode {
    pub open spec fn spec_to_u8(self) -> u8 {
        match self {
            DisconnectReasonCode::NormalDisconnection => 0x00,
            DisconnectReasonCode::UnspecifiedError => 0x80,
            DisconnectReasonCode::MalformedPacket => 0x81,
            DisconnectReasonCode::ProtocolError => 0x82,
            DisconnectReasonCode::ImplementationSpecificError => 0x83,
            DisconnectReasonCode::KeepAliveTimeout => 0x8D,
            DisconnectReasonCode::TopicNameInvalid => 0x90,
            DisconnectReasonCode::ReceiveMaximumExceeded => 0x93,
            DisconnectReasonCode::TopicAliasInvalid => 0x94,
            DisconnectReasonCode::PacketTooLarge => 0x95,
        }
    }

    /// The wire value of the reason code.
    pub fn to_u8(self) -> (r: u8)
        ensures
            r == self.spec_to_u8(),
    {
        match self {
            DisconnectReasonCode::NormalDisconnection => 0x00,
            DisconnectReasonCode::UnspecifiedError => 0x80,
            DisconnectReasonCode::MalformedPacket => 0x81,
            DisconnectReasonCode::ProtocolError => 0x82,
            DisconnectReasonCode::ImplementationSpecificError => 0x83,
            DisconnectReasonCode::KeepAliveTimeout => 0x8D,
            DisconnectReasonCode::TopicNameInvalid => 0x90,
            DisconnectReasonCode::ReceiveMaximumExceeded => 0x93,
            DisconnectReasonCode::TopicAliasInvalid => 0x94,
            DisconnectReasonCode::PacketTooLarge => 0x95,
        }
    }
}

impl MqttError {
    pub open spec fn spec_disconnect_reason(self) -> DisconnectReasonCode {
        match self {
            MqttError::MalformedPacket => DisconnectReasonCode::MalformedPacket,
            MqttError::ProtocolError => DisconnectReasonCode::ProtocolError,
            MqttError::ImplementationSpecificError => DisconnectReasonCode::ImplementationSpecificError,
            MqttError::TopicNameInvalid => DisconnectReasonCode::TopicNameInvalid,
            MqttError::ReceiveMaximumExceeded => DisconnectReasonCode::ReceiveMaximumExceeded,
            MqttError::TopicAliasInvalid => DisconnectReasonCode::TopicAliasInvalid,
            MqttError::PacketTooLarge => DisconnectReasonCode::PacketTooLarge,
            _ => DisconnectReasonCode::UnspecifiedError,
        }
    }

    /// The DISCONNECT reason code that reports this error to the peer.
    pub fn disconnect_reason(self) -> (r: DisconnectReasonCode)
        ensures
            r == self.spec_disconnect_reason(),
    {
        match self {
            MqttError::MalformedPacket => DisconnectReasonCode::MalformedPacket,
            MqttError::ProtocolError => DisconnectReasonCode::ProtocolError,
            MqttError::ImplementationSpecificError => DisconnectReasonCode::ImplementationSpecificError,
            MqttError::TopicNameInvalid => DisconnectReasonCode::TopicNameInvalid,
            MqttError::ReceiveMaximumExceeded => DisconnectReasonCode::ReceiveMaximumExceeded,
            MqttError::TopicAliasInvalid => DisconnectReasonCode::TopicAliasInvalid,
            MqttError::PacketTooLarge => DisconnectReasonCode::PacketTooLarge,
            _ => DisconnectReasonCode::UnspecifiedError,
        }
    }
}

/// Return codes of a v3.1.1 CONNACK packet.
#[derive(Debug, Clone, Copy, PartialEq, Eq, Structural)]
pub enum ConnectReturnCode {
    Accepted,
    UnacceptableProtocolVersion,
    IdentifierRejected,
    ServerUnavailable,
    BadUserNameOrPassword,
    NotAuthorized,
}

impl ConnectReturnCode {
    pub open spec fn spec_to_u8(self) -> u8 {
        match self {
            ConnectReturnCode::Accepted => 0,
            ConnectReturnCode::UnacceptableProtocolVersion => 1,
            ConnectReturnCode::IdentifierRejected => 2,
            ConnectReturnCode::ServerUnavailable => 3,
            ConnectReturnCode::BadUserNameOrPassword => 4,
            ConnectReturnCode::NotAuthorized => 5,
        }
    }

    pub fn to_u8(self) -> (r: u8)
        ensures
            r == self.spec_to_u8(),
    {
        match self {
            ConnectReturnCode::Accepted => 0,
            ConnectReturnCode::UnacceptableProtocolVersion => 1,
            ConnectReturnCode::IdentifierRejected => 2,
            ConnectReturnCode::ServerUnavailable => 3,
            ConnectReturnCode::BadUserNameOrPassword => 4,
            ConnectReturnCode::NotAuthorized => 5,
        }
    }

    /// The return code with wire value `v`; `None` for an unassigned value.
    pub fn from_u8(v: u8) -> (r: Option<ConnectReturnCode>)
        ensures
            r matches Some(c) ==> c.spec_to_u8() == v,
            r is None <==> v > 5,
    {
        match v {
            0 => Some(ConnectReturnCode::Accepted),
            1 => Some(ConnectReturnCode::UnacceptableProtocolVersion),
            2 => Some(ConnectReturnCode::IdentifierRejected),
            3 => Some(ConnectReturnCode::ServerUnavailable),
            4 => Some(ConnectReturnCode::BadUserNameOrPassword),
            5 => Some(ConnectReturnCode::NotAuthorized),
            _ => None,
        }
    }
}

/// Reason codes of a v5.0 CONNACK packet.
#[derive(Debug, Clone, Copy, PartialEq, Eq, Structural)]
pub enum ConnectReasonCode {
    Success,
    UnspecifiedError,
    MalformedPacket,
    ProtocolError,
    ImplementationSpecificError,
    UnsupportedProtocolVersion,
    ClientIdentifierNotValid,
    BadUserNameOrPassword,
    NotAuthorized,
    ServerUnavailable,
    ServerBusy,
    Banned,
    BadAuthenticationMethod,
    TopicNameInvalid,
    PacketTooLarge,
    QuotaExceeded,
    PayloadFormatInvalid,
    RetainNotSupported,
    QosNotSupported,
    UseAnotherServer,
    ServerMoved,
    ConnectionRateExceeded,
}

impl ConnectReasonCode {
    pub open spec fn spec_to_u8(self) -> u8 {
        match self {
            ConnectReasonCode::Success => 0x00,
            ConnectReasonCode::UnspecifiedError => 0x80,
            ConnectReasonCode::MalformedPacket => 0x81,
            ConnectReasonCode::ProtocolError => 0x82,
            ConnectReasonCode::ImplementationSpecificError => 0x83,
            ConnectReasonCode::UnsupportedProtocolVersion => 0x84,
            ConnectReasonCode::ClientIdentifierNotValid => 0x85,
            ConnectReasonCode::BadUserNameOrPassword => 0x86,
            ConnectReasonCode::NotAuthorized => 0x87,
            ConnectReasonCode::ServerUnavailable => 0x88,
            ConnectReasonCode::ServerBusy => 0x89,
            ConnectReasonCode::Banned => 0x8A,
            ConnectReasonCode::BadAuthenticationMethod => 0x8C,
            ConnectReasonCode::TopicNameInvalid => 0x90,
            ConnectReasonCode::PacketTooLarge => 0x95,
            ConnectReasonCode::QuotaExceeded => 0x97,
            ConnectReasonCode::PayloadFormatInvalid => 0x99,
            ConnectReasonCode::RetainNotSupported => 0x9A,
            ConnectReasonCode::QosNotSupported => 0x9B,
            ConnectReasonCode::UseAnotherServer => 0x9C,
            ConnectReasonCode::ServerMoved => 0x9D,
            ConnectReasonCode::ConnectionRateExceeded => 0x9F,
        }
    }

    pub fn to_u8(self) -> (r: u8)
        ensures
            r == self.spec_to_u8(),
    {
        match self {
            ConnectReasonCode::Success => 0x00,
            ConnectReasonCode::UnspecifiedError => 0x80,
            ConnectReasonCode::MalformedPacket => 0x81,
            ConnectReasonCode::ProtocolError => 0x82,
            ConnectReasonCode::ImplementationSpecificError => 0x83,
            ConnectReasonCode::UnsupportedProtocolVersion => 0x84,
            ConnectReasonCode::ClientIdentifierNotValid => 0x85,
            ConnectReasonCode::BadUserNameOrPassword => 0x86,
            ConnectReasonCode::NotAuthorized => 0x87,
            ConnectReasonCode::ServerUnavailable => 0x88,
            ConnectReasonCode::ServerBusy => 0x89,
            ConnectReasonCode::Banned => 0x8A,
            ConnectReasonCode::BadAuthenticationMethod => 0x8C,
            ConnectReasonCode::TopicNameInvalid => 0x90,
            ConnectReasonCode::PacketTooLarge => 0x95,
            ConnectReasonCode::QuotaExceeded => 0x97,
            ConnectReasonCode::PayloadFormatInvalid => 0x99,
            ConnectReasonCode::RetainNotSupported => 0x9A,
            ConnectReasonCode::QosNotSupported => 0x9B,
            ConnectReasonCode::UseAnotherServer => 0x9C,
            ConnectReasonCode::ServerMoved => 0x9D,
            ConnectReasonCode::ConnectionRateExceeded => 0x9F,
        }
    }

    /// The reason code with wire value `v`; `None` for an unassigned value.
    pub fn from_u8(v: u8) -> (r: Option<ConnectReasonCode>)
        ensures
            r matches Some(c) ==> c.spec_to_u8() == v,
            r is None ==> forall|c: ConnectReasonCode| #[trigger] c.spec_to_u8() != v,
    {
        match v {
            0x00 => Some(ConnectReasonCode::Success),
            0x80 => Some(ConnectReasonCode::UnspecifiedError),
            0x81 => Some(ConnectReasonCode::MalformedPacket),
            0x82 => Some(ConnectReasonCode::ProtocolError),
            0x83 => Some(ConnectReasonCode::ImplementationSpecificError),
            0x84 => Some(ConnectReasonCode::UnsupportedProtocolVersion),
            0x85 => Some(ConnectReasonCode::ClientIdentifierNotValid),
            0x86 => Some(ConnectReasonCode::BadUserNameOrPassword),
            0x87 => Some(ConnectReasonCode::NotAuthorized),
            0x88 => Some(ConnectReasonCode::ServerUnavailable),
            0x89 => Some(ConnectReasonCode::ServerBusy),
            0x8A => Some(ConnectReasonCode::Banned),
            0x8C => Some(ConnectReasonCode::BadAuthenticationMethod),
            0x90 => Some(ConnectReasonCode::TopicNameInvalid),
            0x95 => Some(ConnectReasonCode::PacketTooLarge),
            0x97 => Some(ConnectReasonCode::QuotaExceeded),
            0x99 => Some(ConnectReasonCode::PayloadFormatInvalid),
            0x9A => Some(ConnectReasonCode::RetainNotSupported),
            0x9B => Some(ConnectReasonCode::QosNotSupported),
            0x9C => Some(ConnectReasonCode::UseAnotherServer),
            0x9D => Some(ConnectReasonCode::ServerMoved),
            0x9F => Some(ConnectReasonCode::ConnectionRateExceeded),
            _ => None,
        }
    }
}

} // verus!
