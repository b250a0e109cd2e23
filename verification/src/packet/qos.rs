use vstd::prelude::*;
use crate::packet::error::MqttError;

verus! {

/// MQTT quality of service levels.
#[derive(Debug, Clone, Copy, PartialEq, Eq, Structural)]
pub enum Qos {
    AtMostOnce,
    AtLeastOnce,
    ExactlyOnce,
}

impl Qos {
    pub open spec fn spec_to_u8(self) -> u8 {
        match self {
            Qos::AtMostOnce => 0,
            Qos::AtLeastOnce => 1,
            Qos::ExactlyOnce => 2,
        }
    }

    pub open spec fn spec_from_u8(v: u8) -> Qos
        recommends
            v <= 2,
    {
        if v == 0 {
            Qos::AtMostOnce
        } else if v == 1 {
            Qos::AtLeastOnce
        } else {
            Qos::ExactlyOnce
        }
    }

    /// The numeric value of the level (0, 1 or 2).
    pub fn to_u8(self) -> (r: u8)
        ensures
            r == self.spec_to_u8(),
            r <= 2,
    {
        match self {
            Qos::AtMostOnce => 0,
            Qos::AtLeastOnce => 1,
            Qos::ExactlyOnce => 2,
        }
    }

    /// The level with numeric value `v`; `MalformedPacket` when `v` is above 2.
    pub fn try_from_u8(v: u8) -> (r: Result<Qos, MqttError>)
        ensures
            v <= 2 ==> r == Ok::<Qos, MqttError>(Qos::spec_from_u8(v)),
            v > 2 ==> r == Err::<Qos, MqttError>(MqttError::MalformedPacket),
    {
        match v {
            0 => Ok(Qos::AtMostOnce),
            1 => Ok(Qos::AtLeastOnce),
            2 => Ok(Qos::ExactlyOnce),
            _ => Err(MqttError::MalformedPacket),
        }
    }
}

pub proof fn lemma_qos_u8_roundtrip(q: Qos)
    ensures
        Qos::spec_from_u8(q.spec_to_u8()) == q,
{
}

/// Retain handling option of a subscription.
#[derive(Debug, Clone, Copy, PartialEq, Eq, Structural)]
pub enum RetainHandling {
    SendRetained,
    SendRetainedIfNotExists,
    DoNotSendRetained,
}

impl RetainHandling {
    pub open spec fn spec_to_u8(self) -> u8 {
        match self {
            RetainHandling::SendRetained => 0,
            RetainHandling::SendRetainedIfNotExists => 1,
            RetainHandling::DoNotSendRetained => 2,
        }
    }

    pub open spec fn spec_from_u8(v: u8) -> RetainHandling {
        if v == 0 {
            RetainHandling::SendRetained
        } else if v == 1 {
            RetainHandling::SendRetainedIfNotExists
        } else {
            RetainHandling::DoNotSendRetained
        }
    }

    /// The numeric value of the option (0, 1 or 2).
    pub fn to_u8(self) -> (r: u8)
        ensures
            r == self.spec_to_u8(),
            r <= 2,
    {
        match self {
            RetainHandling::SendRetained => 0,
            RetainHandling::SendRetainedIfNotExists => 1,
            RetainHandling::DoNotSendRetained => 2,
        }
    }
}

} // verus!
