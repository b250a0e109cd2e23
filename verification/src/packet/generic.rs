use vstd::prelude::*;
use crate::connection::version::Version;
use crate::packet::control::ControlPacket;
use crate::packet::packet_id::IsPacketId;
use crate::packet::publish_common::header_qos;
use crate::packet::v3_1_1;
use crate::packet::v5_0;
use crate::packet::variable_byte_integer::vbi_size;

verus! {

/// Any MQTT packet of either version.
#[derive(Debug)]
pub enum GenericPacket<PacketIdType: IsPacketId> {
    V3_1_1Connect(v3_1_1::connect::Connect),
    V5_0Connect(v5_0::connect::Connect),
    V3_1_1Publish(v3_1_1::publish::GenericPublish<PacketIdType>),
    V5_0Publish(v5_0::publish::GenericPublish<PacketIdType>),
    /// Every other packet type, in the version its `is_v5` tells.
    Control(ControlPacket<PacketIdType>),
}

/// A packet with `u16` packet identifiers.
pub type Packet = GenericPacket<u16>;

impl<PacketIdType: IsPacketId> GenericPacket<PacketIdType> {
    pub open spec fn spec_protocol_version(self) -> Version {
        match self {
            GenericPacket::V3_1_1Connect(_) => Version::V3_1_1,
            GenericPacket::V5_0Connect(_) => Version::V5_0,
            GenericPacket::V3_1_1Publish(_) => Version::V3_1_1,
            GenericPacket::V5_0Publish(_) => Version::V5_0,
            GenericPacket::Control(c) => if c.spec_v5() {
                Version::V5_0
            } else {
                Version::V3_1_1
            },
        }
    }

    /// The encoding of the packet.
    pub open spec fn spec_bytes(self) -> Seq<u8> {
        match self {
            GenericPacket::V3_1_1Connect(p) => p.spec_bytes(),
            GenericPacket::V5_0Connect(p) => p.spec_bytes(),
            GenericPacket::V3_1_1Publish(p) => p.spec_bytes(),
            GenericPacket::V5_0Publish(p) => p.spec_bytes(),
            GenericPacket::Control(p) => p.spec_bytes(),
        }
    }

    /// The remaining length of the packet.
    pub open spec fn spec_remaining_length(self) -> nat {
        match self {
            GenericPacket::V3_1_1Connect(p) => p.spec_remaining_length(),
            GenericPacket::V5_0Connect(p) => p.spec_remaining_length(),
            GenericPacket::V3_1_1Publish(p) => p.spec_remaining_length(),
            GenericPacket::V5_0Publish(p) => p.spec_remaining_length(),
            GenericPacket::Control(p) => p.spec_remaining_length(),
        }
    }

    /// Total size of the packet, by its remaining length.
    pub open spec fn spec_size(self) -> nat {
        1 + vbi_size(self.spec_remaining_length()) + self.spec_remaining_length()
    }

    /// The version the packet is encoded for.
    pub fn protocol_version(&self) -> (r: Version)
        ensures
            r == self.spec_protocol_version(),
    {
        match self {
            GenericPacket::V3_1_1Connect(_) => Version::V3_1_1,
            GenericPacket::V5_0Connect(_) => Version::V5_0,
            GenericPacket::V3_1_1Publish(_) => Version::V3_1_1,
            GenericPacket::V5_0Publish(_) => Version::V5_0,
            GenericPacket::Control(c) => if c.is_v5() {
                Version::V5_0
            } else {
                Version::V3_1_1
            },
        }
    }

    /// Total size of the packet in bytes, as its remaining length gives it.
    pub fn size(&self) -> (r: usize)
        ensures
            r == self.spec_size(),
    {
        match self {
            GenericPacket::V3_1_1Connect(p) => p.size(),
            GenericPacket::V5_0Connect(p) => p.size(),
            GenericPacket::V3_1_1Publish(p) => p.size(),
            GenericPacket::V5_0Publish(p) => p.size(),
            GenericPacket::Control(p) => p.size(),
        }
    }

    /// The encoded packet.
    pub fn to_continuous_buffer(&self) -> (r: Vec<u8>)
        ensures
            r@ == self.spec_bytes(),
    {
        match self {
            GenericPacket::V3_1_1Connect(p) => p.to_continuous_buffer(),
            GenericPacket::V5_0Connect(p) => p.to_continuous_buffer(),
            GenericPacket::V3_1_1Publish(p) => p.to_continuous_buffer(),
            GenericPacket::V5_0Publish(p) => p.to_continuous_buffer(),
            GenericPacket::Control(p) => p.to_continuous_buffer(),
        }
    }
}

/// The response that completes the flow a stored packet belongs to.
#[derive(Debug, Clone, Copy, PartialEq, Eq, Structural)]
pub enum ResponsePacket {
    V3_1_1Puback,
    V3_1_1Pubrec,
    V3_1_1Pubcomp,
    V5_0Puback,
    V5_0Pubrec,
    V5_0Pubcomp,
}

/// A packet kept for retransmission: a PUBLISH with QoS 1 or 2, or a PUBREL.
#[derive(Debug)]
pub enum GenericStorePacket<PacketIdType: IsPacketId> {
    V3_1_1Publish(v3_1_1::publish::GenericPublish<PacketIdType>),
    V5_0Publish(v5_0::publish::GenericPublish<PacketIdType>),
    V3_1_1Pubrel(ControlPacket<PacketIdType>),
    V5_0Pubrel(ControlPacket<PacketIdType>),
}

/// A stored packet with `u16` packet identifiers.
pub type StorePacket = GenericStorePacket<u16>;

impl<PacketIdType: IsPacketId> GenericStorePacket<PacketIdType> {
    /// A PUBLISH with QoS 1 or 2, or a PUBREL of the right version.
    pub open spec fn wf(self) -> bool {
        match self {
            GenericStorePacket::V3_1_1Publish(p) => header_qos(p.spec_fixed_header()) != 0,
            GenericStorePacket::V5_0Publish(p) => header_qos(p.spec_fixed_header()) != 0,
            GenericStorePacket::V3_1_1Pubrel(p) => p.spec_packet_type() == 6 && !p.spec_v5(),
            GenericStorePacket::V5_0Pubrel(p) => p.spec_packet_type() == 6 && p.spec_v5(),
        }
    }

    pub open spec fn spec_packet_id(self) -> PacketIdType {
        match self {
            GenericStorePacket::V3_1_1Publish(p) => p.spec_packet_id().unwrap(),
            GenericStorePacket::V5_0Publish(p) => p.spec_packet_id().unwrap(),
            GenericStorePacket::V3_1_1Pubrel(p) => p.spec_packet_id().unwrap(),
            GenericStorePacket::V5_0Pubrel(p) => p.spec_packet_id().unwrap(),
        }
    }

    pub open spec fn spec_response(self) -> ResponsePacket {
        match self {
            GenericStorePacket::V3_1_1Publish(p) => if header_qos(p.spec_fixed_header()) == 1 {
                ResponsePacket::V3_1_1Puback
            } else {
                ResponsePacket::V3_1_1Pubrec
            },
            GenericStorePacket::V5_0Publish(p) => if header_qos(p.spec_fixed_header()) == 1 {
                ResponsePacket::V5_0Puback
            } else {
                ResponsePacket::V5_0Pubrec
            },
            GenericStorePacket::V3_1_1Pubrel(_) => ResponsePacket::V3_1_1Pubcomp,
            GenericStorePacket::V5_0Pubrel(_) => ResponsePacket::V5_0Pubcomp,
        }
    }

    /// The packet identifier.
    pub fn packet_id(&self) -> (r: PacketIdType)
        requires
            self.wf(),
        ensures
            r == self.spec_packet_id(),
    {
        match self {
            GenericStorePacket::V3_1_1Publish(p) => p.packet_id().unwrap(),
            GenericStorePacket::V5_0Publish(p) => p.packet_id().unwrap(),
            GenericStorePacket::V3_1_1Pubrel(p) => p.packet_id().unwrap(),
            GenericStorePacket::V5_0Pubrel(p) => p.packet_id().unwrap(),
        }
    }

    /// The response that ends the flow of the packet.
    pub fn response_packet(&self) -> (r: ResponsePacket)
        ensures
            r == self.spec_response(),
    {
        match self {
            GenericStorePacket::V3_1_1Publish(p) => if p.qos().to_u8() == 1 {
                ResponsePacket::V3_1_1Puback
            } else {
                ResponsePacket::V3_1_1Pubrec
            },
            GenericStorePacket::V5_0Publish(p) => if p.qos().to_u8() == 1 {
                ResponsePacket::V5_0Puback
            } else {
                ResponsePacket::V5_0Pubrec
            },
            GenericStorePacket::V3_1_1Pubrel(_) => ResponsePacket::V3_1_1Pubcomp,
            GenericStorePacket::V5_0Pubrel(_) => ResponsePacket::V5_0Pubcomp,
        }
    }

    pub open spec fn spec_size(self) -> nat {
        match self {
            GenericStorePacket::V3_1_1Publish(p) => 1 + vbi_size(p.spec_remaining_length()) + p.spec_remaining_length(),
            GenericStorePacket::V5_0Publish(p) => 1 + vbi_size(p.spec_remaining_length()) + p.spec_remaining_length(),
            GenericStorePacket::V3_1_1Pubrel(p) => 1 + vbi_size(p.spec_remaining_length()) + p.spec_remaining_length(),
            GenericStorePacket::V5_0Pubrel(p) => 1 + vbi_size(p.spec_remaining_length()) + p.spec_remaining_length(),
        }
    }

    /// Total size of the packet in bytes.
    pub fn size(&self) -> (r: usize)
        ensures
            r == self.spec_size(),
    {
        match self {
            GenericStorePacket::V3_1_1Publish(p) => p.size(),
            GenericStorePacket::V5_0Publish(p) => p.size(),
            GenericStorePacket::V3_1_1Pubrel(p) => p.size(),
            GenericStorePacket::V5_0Pubrel(p) => p.size(),
        }
    }

    /// A copy of the packet.
    pub fn duplicate(&self) -> (r: Self)
        ensures
            self.wf() ==> r.wf(),
            r.spec_packet_id() == self.spec_packet_id(),
            r.spec_response() == self.spec_response(),
    {
        match self {
            GenericStorePacket::V3_1_1Publish(p) => GenericStorePacket::V3_1_1Publish(p.duplicate()),
            GenericStorePacket::V5_0Publish(p) => GenericStorePacket::V5_0Publish(p.duplicate()),
            GenericStorePacket::V3_1_1Pubrel(p) => GenericStorePacket::V3_1_1Pubrel(p.duplicate()),
            GenericStorePacket::V5_0Pubrel(p) => GenericStorePacket::V5_0Pubrel(p.duplicate()),
        }
    }

    /// The encoding of the packet.
    pub open spec fn spec_bytes(self) -> Seq<u8> {
        match self {
            GenericStorePacket::V3_1_1Publish(p) => p.spec_bytes(),
            GenericStorePacket::V5_0Publish(p) => p.spec_bytes(),
            GenericStorePacket::V3_1_1Pubrel(p) => p.spec_bytes(),
            GenericStorePacket::V5_0Pubrel(p) => p.spec_bytes(),
        }
    }

    /// The remaining length of the packet.
    pub open spec fn spec_remaining_length(self) -> nat {
        match self {
            GenericStorePacket::V3_1_1Publish(p) => p.spec_remaining_length(),
            GenericStorePacket::V5_0Publish(p) => p.spec_remaining_length(),
            GenericStorePacket::V3_1_1Pubrel(p) => p.spec_remaining_length(),
            GenericStorePacket::V5_0Pubrel(p) => p.spec_remaining_length(),
        }
    }

    /// Whether `r` is the packet to send for the stored packet `self`: a
    /// PUBLISH of the same version, or the PUBREL as a control packet, with
    /// the same encoding, remaining length and packet identifier.
    pub open spec fn spec_is_packet(self, r: GenericPacket<PacketIdType>) -> bool {
        &&& r.spec_bytes() == self.spec_bytes()
        &&& r.spec_remaining_length() == self.spec_remaining_length()
        &&& match self {
            GenericStorePacket::V3_1_1Publish(p) => r matches GenericPacket::V3_1_1Publish(q)
                && q.spec_fixed_header() == p.spec_fixed_header() && q.spec_topic_name() == p.spec_topic_name()
                && q.spec_packet_id() == p.spec_packet_id() && q.spec_payload() == p.spec_payload(),
            GenericStorePacket::V5_0Publish(p) => r matches GenericPacket::V5_0Publish(q)
                && q.spec_fixed_header() == p.spec_fixed_header() && q.spec_topic_name() == p.spec_topic_name()
                && q.spec_packet_id() == p.spec_packet_id() && q.spec_payload() == p.spec_payload(),
            GenericStorePacket::V3_1_1Pubrel(p) => r matches GenericPacket::Control(q)
                && q.spec_packet_type() == p.spec_packet_type() && q.spec_v5() == p.spec_v5()
                && q.spec_packet_id() == p.spec_packet_id() && q.spec_reason_code() == p.spec_reason_code(),
            GenericStorePacket::V5_0Pubrel(p) => r matches GenericPacket::Control(q)
                && q.spec_packet_type() == p.spec_packet_type() && q.spec_v5() == p.spec_v5()
                && q.spec_packet_id() == p.spec_packet_id() && q.spec_reason_code() == p.spec_reason_code(),
        }
    }

    /// The packet as one to send.
    pub fn to_packet(&self) -> (r: GenericPacket<PacketIdType>)
        ensures
            self.spec_is_packet(r),
    {
        match self {
            GenericStorePacket::V3_1_1Publish(p) => GenericPacket::V3_1_1Publish(p.duplicate()),
            GenericStorePacket::V5_0Publish(p) => GenericPacket::V5_0Publish(p.duplicate()),
            GenericStorePacket::V3_1_1Pubrel(p) => GenericPacket::Control(p.duplicate()),
            GenericStorePacket::V5_0Pubrel(p) => GenericPacket::Control(p.duplicate()),
        }
    }
}

impl<PacketIdType: IsPacketId> Clone for GenericStorePacket<PacketIdType> {
    fn clone(&self) -> (r: Self)
        ensures
            self.wf() ==> r.wf(),
            r.spec_packet_id() == self.spec_packet_id(),
            r.spec_response() == self.spec_response(),
    {
        self.duplicate()
    }
}

} // verus!
