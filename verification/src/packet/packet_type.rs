use vstd::prelude::*;

verus! {

/// MQTT control packet types.
#[derive(Debug, Clone, Copy, PartialEq, Eq, Structural)]
pub enum PacketType {
    Connect,
    Connack,
    Publish,
    Puback,
    Pubrec,
    Pubrel,
    Pubcomp,
    Subscribe,
    Suback,
    Unsubscribe,
    Unsuback,
    Pingreq,
    Pingresp,
    Disconnect,
    Auth,
}

impl PacketType {
    /// The packet type number (bits 4-7 of the first byte).
    pub open spec fn spec_to_u8(self) -> u8 {
        match self {
            PacketType::Connect => 1,
            PacketType::Connack => 2,
            PacketType::Publish => 3,
            PacketType::Puback => 4,
            PacketType::Pubrec => 5,
            PacketType::Pubrel => 6,
            PacketType::Pubcomp => 7,
            PacketType::Subscribe => 8,
            PacketType::Suback => 9,
            PacketType::Unsubscribe => 10,
            PacketType::Unsuback => 11,
            PacketType::Pingreq => 12,
            PacketType::Pingresp => 13,
            PacketType::Disconnect => 14,
            PacketType::Auth => 15,
        }
    }

    pub fn to_u8(self) -> (r: u8)
        ensures
            r == self.spec_to_u8(),
    {
        match self {
            PacketType::Connect => 1,
            PacketType::Connack => 2,
            PacketType::Publish => 3,
            PacketType::Puback => 4,
            PacketType::Pubrec => 5,
            PacketType::Pubrel => 6,
            PacketType::Pubcomp => 7,
            PacketType::Subscribe => 8,
            PacketType::Suback => 9,
            PacketType::Unsubscribe => 10,
            PacketType::Unsuback => 11,
            PacketType::Pingreq => 12,
            PacketType::Pingresp => 13,
            PacketType::Disconnect => 14,
            PacketType::Auth => 15,
        }
    }

    /// The first byte of a packet of this type with its fixed flags.
    pub open spec fn spec_fixed_header(self) -> u8 {
        match self {
            PacketType::Pubrel => 0x62,
            PacketType::Subscribe => 0x82,
            PacketType::Unsubscribe => 0xA2,
            _ => (self.spec_to_u8() * 16) as u8,
        }
    }

    pub fn fixed_header(self) -> (r: u8)
        ensures
            r == self.spec_fixed_header(),
    {
        match self {
            PacketType::Pubrel => 0x62,
            PacketType::Subscribe => 0x82,
            PacketType::Unsubscribe => 0xA2,
            _ => self.to_u8() * 16,
        }
    }

    /// Name used in JSON output.
    pub fn as_str(&self) -> (r: &'static str)
        ensures
            r@ == match self {
                PacketType::Connect => "connect"@,
                PacketType::Connack => "connack"@,
                PacketType::Publish => "publish"@,
                PacketType::Puback => "puback"@,
                PacketType::Pubrec => "pubrec"@,
                PacketType::Pubrel => "pubrel"@,
                PacketType::Pubcomp => "pubcomp"@,
                PacketType::Subscribe => "subscribe"@,
                PacketType::Suback => "suback"@,
                PacketType::Unsubscribe => "unsubscribe"@,
                PacketType::Unsuback => "unsuback"@,
                PacketType::Pingreq => "pingreq"@,
                PacketType::Pingresp => "pingresp"@,
                PacketType::Disconnect => "disconnect"@,
                PacketType::Auth => "auth"@,
            },
    {
        match self {
            PacketType::Connect => "connect",
            PacketType::Connack => "connack",
            PacketType::Publish => "publish",
            PacketType::Puback => "puback",
            PacketType::Pubrec => "pubrec",
            PacketType::Pubrel => "pubrel",
            PacketType::Pubcomp => "pubcomp",
            PacketType::Subscribe => "subscribe",
            PacketType::Suback => "suback",
            PacketType::Unsubscribe => "unsubscribe",
            PacketType::Unsuback => "unsuback",
            PacketType::Pingreq => "pingreq",
            PacketType::Pingresp => "pingresp",
            PacketType::Disconnect => "disconnect",
            PacketType::Auth => "auth",
        }
    }
}

} // verus!
