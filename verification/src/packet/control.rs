use vstd::prelude::*;
use vstd::slice::slice_subrange;
use crate::packet::bytes::{append_bytes, copy_bytes, tail};
use crate::packet::connect_common::skip_bytes;
use crate::packet::error::MqttError;
use crate::packet::packet_id::{lemma_pid_roundtrip, pid_bytes, IsPacketId};
use crate::packet::property::{
    lemma_props_list_reencoded_size, props_bytes, props_inv, props_parsed_upto, props_region,
    props_result, Properties, PropertiesParse, PropertiesSize, PropertiesToContinuousBuffer, Property,
};
use crate::packet::variable_byte_integer::{lemma_vbi_roundtrip, vbi_encode, vbi_size, VariableByteInteger, VBI_MAX};

verus! {

/// Packet types that carry a packet identifier (PUBACK to UNSUBACK).
pub open spec fn type_has_pid(t: u8) -> bool {
    4 <= t <= 11
}

/// Packet types whose body ends with a payload (SUBSCRIBE to UNSUBACK).
pub open spec fn type_has_payload(t: u8) -> bool {
    8 <= t <= 11
}

/// v5.0 packet types whose reason code and properties may be left out
/// (the acknowledgements of PUBLISH, DISCONNECT and AUTH).
pub open spec fn type_optional_tail(t: u8) -> bool {
    (4 <= t <= 7) || t == 14 || t == 15
}

/// v5.0 packet types whose property list always follows the packet identifier.
pub open spec fn type_required_props(t: u8) -> bool {
    8 <= t <= 11
}

/// The control packet types that `ControlPacket` stands for in each version:
/// every type but CONNECT and PUBLISH, AUTH only in v5.0.
pub open spec fn valid_control_type(v5: bool, t: u8) -> bool {
    &&& t == 2 || (4 <= t <= 14) || (v5 && t == 15)
}

/// Flags that the fixed header of a packet of type `t` carries.
pub open spec fn type_flags(t: u8) -> u8 {
    if t == 6 || t == 8 || t == 10 {
        2
    } else {
        0
    }
}

/// Outcome of parsing a property list at `c`: the position after it, or the error.
pub open spec fn props_any_result(d: Seq<u8>, c: nat) -> Result<nat, MqttError> {
    match props_result(skip_bytes(d, c)) {
        Err(e) => Err(e),
        Ok(n) => Ok(c + n),
    }
}

/// Outcome of parsing what follows the packet identifier (or starts the body
/// when there is none), from `c`: the position after it, or the error.
pub open spec fn control_tail_result(v5: bool, t: u8, d: Seq<u8>, c: nat) -> Result<nat, MqttError> {
    if t == 2 {
        if d.len() < c + 2 {
            Err(MqttError::MalformedPacket)
        } else if v5 {
            props_any_result(d, c + 2)
        } else {
            Ok(c + 2)
        }
    } else if v5 && type_optional_tail(t) {
        if c >= d.len() {
            Ok(c)
        } else if c + 1 == d.len() {
            Ok(c + 1)
        } else {
            props_any_result(d, c + 1)
        }
    } else if v5 && type_required_props(t) {
        props_any_result(d, c)
    } else {
        Ok(c)
    }
}

/// Size of the packet identifier field of a packet of type `t`.
pub open spec fn pid_len<P: IsPacketId>(t: u8) -> nat {
    if type_has_pid(t) {
        P::spec_width()
    } else {
        0
    }
}

/// Outcome of parsing the body of a packet of type `t`: the number of bytes
/// taken (all of them), or the error.
pub open spec fn control_result<P: IsPacketId>(v5: bool, t: u8, d: Seq<u8>) -> Result<nat, MqttError> {
    if d.len() < pid_len::<P>(t) {
        Err(MqttError::MalformedPacket)
    } else {
        match control_tail_result(v5, t, d, pid_len::<P>(t)) {
            Err(e) => Err(e),
            Ok(c) => if !type_has_payload(t) && c < d.len() {
                Err(MqttError::MalformedPacket)
            } else {
                Ok(d.len())
            },
        }
    }
}

/// Where the property list of a packet of type `t` starts, when it has one.
pub open spec fn control_props_pos<P: IsPacketId>(t: u8) -> nat {
    if t == 2 {
        pid_len::<P>(t) + 2
    } else if type_optional_tail(t) {
        pid_len::<P>(t) + 1
    } else {
        pid_len::<P>(t)
    }
}

/// The contents of an optional property list.
pub open spec fn opt_props_view(p: Option<Properties>) -> Option<Seq<Property>> {
    match p {
        Some(v) => Some(v@),
        None => None,
    }
}

/// An optional field: its bytes when present, nothing otherwise.
pub open spec fn opt_byte(b: Option<u8>) -> Seq<u8> {
    match b {
        Some(x) => seq![x],
        None => Seq::<u8>::empty(),
    }
}

/// An optional property list with its length field.
pub open spec fn opt_props_field(p: Option<Seq<Property>>) -> Seq<u8> {
    match p {
        Some(ps) => vbi_encode(props_bytes(ps).len()) + props_bytes(ps),
        None => Seq::<u8>::empty(),
    }
}

/// The encoding of an optional packet identifier.
pub open spec fn opt_pid<P: IsPacketId>(p: Option<P>) -> Seq<u8> {
    match p {
        Some(id) => pid_bytes(id.spec_value(), P::spec_width()),
        None => Seq::<u8>::empty(),
    }
}

/// Whether the fields fit the layout of a packet of type `t`: the packet
/// identifier exactly when the type has one, the acknowledge flags and reason
/// code of CONNACK, a v5.0 property list where the type requires one, an
/// optional reason code and property list only in v5.0, and a payload only
/// where the type has one.
pub open spec fn fields_fit<P: IsPacketId>(
    v5: bool,
    t: u8,
    packet_id: Option<P>,
    ack_flags: Option<u8>,
    reason_code: Option<u8>,
    props: Option<Seq<Property>>,
    payload: Seq<u8>,
) -> bool {
    &&& valid_control_type(v5, t)
    &&& (packet_id is Some <==> type_has_pid(t))
    &&& (ack_flags is Some <==> t == 2)
    &&& (t == 2 ==> reason_code is Some && (props is Some <==> v5))
    &&& (v5 && type_required_props(t) ==> props is Some && reason_code is None)
    &&& (v5 && type_optional_tail(t) ==> (props is Some ==> reason_code is Some))
    &&& (!v5 ==> (t != 2 ==> reason_code is None) && props is None)
    &&& (!type_optional_tail(t) && t != 2 ==> reason_code is None)
    &&& (!v5 || !(t == 2 || type_required_props(t) || type_optional_tail(t)) ==> (t != 2 ==> props is None))
    &&& (!type_has_payload(t) ==> payload.len() == 0)
}

/// An MQTT control packet other than CONNECT and PUBLISH (CONNACK, the
/// acknowledgements, SUBSCRIBE, SUBACK, UNSUBSCRIBE, UNSUBACK, PINGREQ,
/// PINGRESP, DISCONNECT, AUTH), by the fields that the connection reads: the
/// packet identifier, the acknowledge flags and reason code, the properties,
/// and the payload as bytes.
#[derive(PartialEq, Eq, Debug)]
pub struct ControlPacket<PacketIdType: IsPacketId> {
    v5: bool,
    packet_type: u8,
    remaining_length: VariableByteInteger,
    packet_id: Option<PacketIdType>,
    ack_flags: Option<u8>,
    reason_code: Option<u8>,
    props: Option<Properties>,
    payload: Vec<u8>,
}

impl<PacketIdType: IsPacketId> ControlPacket<PacketIdType> {
    #[verifier::type_invariant]
    pub closed spec fn inv(self) -> bool {
        &&& valid_control_type(self.v5, self.packet_type)
        &&& (self.packet_id is Some <==> type_has_pid(self.packet_type))
        &&& (self.packet_type == 2 ==> self.ack_flags is Some && self.reason_code is Some)
        &&& (self.props matches Some(ps) ==> props_bytes(ps@).len() <= VBI_MAX)
        &&& self.remaining_length@ == self.spec_body().len()
    }

    pub closed spec fn spec_v5(self) -> bool {
        self.v5
    }

    pub closed spec fn spec_packet_type(self) -> u8 {
        self.packet_type
    }

    pub closed spec fn spec_packet_id(self) -> Option<PacketIdType> {
        self.packet_id
    }

    pub closed spec fn spec_ack_flags(self) -> Option<u8> {
        self.ack_flags
    }

    pub closed spec fn spec_reason_code(self) -> Option<u8> {
        self.reason_code
    }

    pub closed spec fn spec_props(self) -> Option<Seq<Property>> {
        match self.props {
            Some(p) => Some(p@),
            None => None,
        }
    }

    pub closed spec fn spec_payload(self) -> Seq<u8> {
        self.payload@
    }

    pub closed spec fn spec_remaining_length(self) -> nat {
        self.remaining_length@
    }

    /// The body: packet identifier, acknowledge flags, reason code, property
    /// list and payload, each when present.
    pub closed spec fn spec_body(self) -> Seq<u8> {
        opt_pid(self.packet_id) + opt_byte(self.ack_flags) + opt_byte(self.reason_code) + opt_props_field(
            self.spec_props(),
        ) + self.payload@
    }

    /// First byte of the packet: type and flags.
    pub open spec fn spec_fixed_header(self) -> u8 {
        ((self.spec_packet_type() * 16) + type_flags(self.spec_packet_type())) as u8
    }

    /// The whole packet.
    pub open spec fn spec_bytes(self) -> Seq<u8> {
        seq![self.spec_fixed_header()] + vbi_encode(self.spec_remaining_length()) + self.spec_body()
    }

    /// A packet from its fields; `MalformedPacket` when they do not fit the
    /// layout of the type (`fields_fit`) or the body would exceed 268,435,455 bytes.
    pub fn new(
        v5: bool,
        packet_type: u8,
        packet_id: Option<PacketIdType>,
        ack_flags: Option<u8>,
        reason_code: Option<u8>,
        props: Option<Properties>,
        payload: Vec<u8>,
    ) -> (r: Result<Self, MqttError>)
        ensures
            r is Ok <==> fields_fit(
                v5,
                packet_type,
                packet_id,
                ack_flags,
                reason_code,
                opt_props_view(props),
                payload@,
            ) && (opt_pid(packet_id) + opt_byte(ack_flags) + opt_byte(reason_code) + opt_props_field(
                opt_props_view(props),
            ) + payload@).len() <= VBI_MAX,
            r matches Err(e) ==> e == MqttError::MalformedPacket,
            r matches Ok(p) ==> {
                &&& p.spec_v5() == v5
                &&& p.spec_packet_type() == packet_type
                &&& p.spec_packet_id() == packet_id
                &&& p.spec_ack_flags() == ack_flags
                &&& p.spec_reason_code() == reason_code
                &&& p.spec_props() == opt_props_view(props)
                &&& p.spec_payload() == payload@
            },
    {
        let t = packet_type;
        let valid = t == 2 || (4 <= t && t <= 14) || (v5 && t == 15);
        if !valid {
            return Err(MqttError::MalformedPacket);
        }
        let has_pid = 4 <= t && t <= 11;
        let has_payload = 8 <= t && t <= 11;
        let optional_tail = (4 <= t && t <= 7) || t == 14 || t == 15;
        let required_props = 8 <= t && t <= 11;
        if packet_id.is_some() != has_pid || ack_flags.is_some() != (t == 2) {
            return Err(MqttError::MalformedPacket);
        }
        if t == 2 && (reason_code.is_none() || props.is_some() != v5) {
            return Err(MqttError::MalformedPacket);
        }
        if v5 && required_props && (props.is_none() || reason_code.is_some()) {
            return Err(MqttError::MalformedPacket);
        }
        if v5 && optional_tail && props.is_some() && reason_code.is_none() {
            return Err(MqttError::MalformedPacket);
        }
        if !v5 && ((t != 2 && reason_code.is_some()) || props.is_some()) {
            return Err(MqttError::MalformedPacket);
        }
        if !optional_tail && t != 2 && reason_code.is_some() {
            return Err(MqttError::MalformedPacket);
        }
        if (!v5 || !(t == 2 || required_props || optional_tail)) && t != 2 && props.is_some() {
            return Err(MqttError::MalformedPacket);
        }
        if !has_payload && payload.len() != 0 {
            return Err(MqttError::MalformedPacket);
        }
        let total = match checked_body_len(&packet_id, &ack_flags, &reason_code, &props, &payload) {
            Some(n) => n,
            None => return Err(MqttError::MalformedPacket),
        };
        let remaining_length = VariableByteInteger::from_u32(total as u32).unwrap();
        Ok(ControlPacket { v5, packet_type, remaining_length, packet_id, ack_flags, reason_code, props, payload })
    }

    /// Whether the packet is encoded the v5.0 way.
    pub fn is_v5(&self) -> (r: bool)
        ensures
            r == self.spec_v5(),
    {
        self.v5
    }

    /// The packet type number (2 for CONNACK, 4 for PUBACK, ...).
    pub fn packet_type(&self) -> (r: u8)
        ensures
            r == self.spec_packet_type(),
            valid_control_type(self.spec_v5(), r),
    {
        proof { use_type_invariant(self); }
        self.packet_type
    }

    pub fn packet_id(&self) -> (r: Option<PacketIdType>)
        ensures
            r == self.spec_packet_id(),
            r is Some <==> type_has_pid(self.spec_packet_type()),
    {
        proof { use_type_invariant(self); }
        self.packet_id
    }

    /// The session present flag of a CONNACK.
    pub fn session_present(&self) -> (r: bool)
        ensures
            r == (self.spec_ack_flags() matches Some(f) && f & 1u8 != 0),
    {
        match self.ack_flags {
            Some(f) => (f & 1u8) != 0,
            None => false,
        }
    }

    pub fn reason_code(&self) -> (r: Option<u8>)
        ensures
            r == self.spec_reason_code(),
            self.spec_packet_type() == 2 ==> r is Some,
    {
        proof { use_type_invariant(self); }
        self.reason_code
    }

    /// The properties, when the packet carries a property list.
    pub fn props(&self) -> (r: Option<&Properties>)
        ensures
            match r {
                Some(p) => self.spec_props() == Some(p@),
                None => self.spec_props() is None,
            },
    {
        match &self.props {
            Some(p) => Some(p),
            None => None,
        }
    }

    pub fn payload(&self) -> (r: &[u8])
        ensures
            r@ == self.spec_payload(),
    {
        self.payload.as_slice()
    }

    /// Total size of the packet in bytes.
    pub fn size(&self) -> (r: usize)
        ensures
            r == self.spec_bytes().len(),
            r == 1 + vbi_size(self.spec_remaining_length()) + self.spec_remaining_length(),
    {
        proof { use_type_invariant(self); }
        let rl = self.remaining_length.to_u32();
        proof { lemma_vbi_roundtrip(self.remaining_length@, Seq::<u8>::empty()); }
        1 + self.remaining_length.size() + rl as usize
    }

    /// The encoded packet.
    #[verifier::rlimit(30)]
    pub fn to_continuous_buffer(&self) -> (r: Vec<u8>)
        ensures
            r@ == self.spec_bytes(),
    {
        proof { use_type_invariant(self); }
        let t = self.packet_type;
        let flags: u8 = if t == 6 || t == 8 || t == 10 {
            2
        } else {
            0
        };
        let mut buf: Vec<u8> = Vec::new();
        buf.push(t * 16 + flags);
        let rl = self.remaining_length.to_continuous_buffer();
        append_bytes(&mut buf, rl.as_slice());
        let ghost b0 = buf@;
        if let Some(id) = &self.packet_id {
            let b = id.to_buffer();
            append_bytes(&mut buf, b.as_slice());
        }
        let ghost b1 = buf@;
        assert(b1 =~= b0 + opt_pid(self.packet_id));
        if let Some(f) = self.ack_flags {
            buf.push(f);
        }
        let ghost b2 = buf@;
        assert(b2 =~= b1 + opt_byte(self.ack_flags));
        if let Some(rc) = self.reason_code {
            buf.push(rc);
        }
        let ghost b3 = buf@;
        assert(b3 =~= b2 + opt_byte(self.reason_code));
        write_opt_props(&mut buf, &self.props);
        append_bytes(&mut buf, self.payload.as_slice());
        assert(buf@ =~= self.spec_bytes());
        buf
    }

    /// A copy of the packet.
    pub fn duplicate(&self) -> (r: Self)
        ensures
            r.spec_v5() == self.spec_v5(),
            r.spec_packet_type() == self.spec_packet_type(),
            r.spec_packet_id() == self.spec_packet_id(),
            r.spec_ack_flags() == self.spec_ack_flags(),
            r.spec_reason_code() == self.spec_reason_code(),
            r.spec_props() is Some == self.spec_props() is Some,
            r.spec_payload() == self.spec_payload(),
            r.spec_body() == self.spec_body(),
            r.spec_remaining_length() == self.spec_remaining_length(),
    {
        proof { use_type_invariant(self); }
        let props = match &self.props {
            Some(ps) => {
                let mut v: Properties = Vec::new();
                let mut i: usize = 0;
                while i < ps.len()
                    invariant
                        i <= ps@.len(),
                        v@.len() == i,
                        props_bytes(v@) == props_bytes(ps@.take(i as int)),
                    decreases ps@.len() - i,
                {
                    let p = ps[i].duplicate();
                    proof {
                        crate::packet::property::lemma_props_bytes_push(v@, p);
                        crate::packet::property::lemma_props_bytes_push(ps@.take(i as int), ps@[i as int]);
                        assert(ps@.take(i as int).push(ps@[i as int]) =~= ps@.take(i + 1));
                    }
                    v.push(p);
                    i = i + 1;
                }
                assert(ps@.take(i as int) =~= ps@);
                Some(v)
            },
            None => None,
        };
        ControlPacket {
            v5: self.v5,
            packet_type: self.packet_type,
            remaining_length: self.remaining_length,
            packet_id: self.packet_id,
            ack_flags: self.ack_flags,
            reason_code: self.reason_code,
            props,
            payload: copy_bytes(self.payload.as_slice()),
        }
    }

    /// Parses the body of a packet of type `t` (v5.0 layout when `v5`); the
    /// whole of `data` is taken.
    #[verifier::rlimit(60)]
    pub fn parse(v5: bool, t: u8, data: &[u8]) -> (r: Result<(Self, usize), MqttError>)
        requires
            valid_control_type(v5, t),
            data@.len() <= VBI_MAX,
        ensures
            r is Ok <==> control_result::<PacketIdType>(v5, t, data@) is Ok,
            r matches Err(e) ==> control_result::<PacketIdType>(v5, t, data@) == Err::<nat, MqttError>(e),
            r matches Ok((p, n)) ==> {
                let d = data@;
                let c0 = pid_len::<PacketIdType>(t);
                let c1 = control_tail_result(v5, t, d, c0)->Ok_0;
                &&& n == d.len()
                &&& p.spec_v5() == v5
                &&& p.spec_packet_type() == t
                &&& opt_pid(p.spec_packet_id()) == d.subrange(0, c0 as int)
                &&& (t == 2 ==> p.spec_ack_flags() == Some(d[c0 as int]) && p.spec_reason_code() == Some(
                    d[c0 + 1int],
                ))
                &&& (t != 2 && !(v5 && type_optional_tail(t)) ==> p.spec_reason_code() is None)
                &&& (v5 && type_optional_tail(t) ==> (p.spec_reason_code() is Some <==> c0 < d.len())
                    && (c0 < d.len() ==> p.spec_reason_code() == Some(d[c0 as int])))
                &&& (p.spec_props() matches Some(ps) ==> props_inv(ps) && props_parsed_upto(
                    ps,
                    props_region(skip_bytes(d, control_props_pos::<PacketIdType>(t))),
                    props_region(skip_bytes(d, control_props_pos::<PacketIdType>(t))).len(),
                ))
                &&& (p.spec_props() is Some <==> (v5 && (t == 2 || type_required_props(t) || (
                type_optional_tail(t) && c0 + 1 < d.len()))))
                &&& p.spec_payload() == d.subrange(c1 as int, d.len() as int)
            },
    {
        let len = data.len();
        let has_pid = 4 <= t && t <= 11;
        let mut c: usize = 0;
        let mut packet_id: Option<PacketIdType> = None;
        if has_pid {
            let w = PacketIdType::width();
            if len < w {
                return Err(MqttError::MalformedPacket);
            }
            let id = PacketIdType::from_buffer(slice_subrange(data, 0, w));
            packet_id = Some(id);
            c = w;
        }
        assert(opt_pid(packet_id) == data@.subrange(0, c as int));
        let c0 = c;
        let mut ack_flags: Option<u8> = None;
        let mut reason_code: Option<u8> = None;
        let mut props: Option<Properties> = None;
        let mut props_pos: usize = c;
        if t == 2 {
            if len < c + 2 {
                return Err(MqttError::MalformedPacket);
            }
            ack_flags = Some(data[c]);
            reason_code = Some(data[c + 1]);
            c = c + 2;
            props_pos = c;
            if v5 {
                let (ps, n) = Properties::parse(tail(data, c))?;
                proof { lemma_props_list_reencoded_size(ps, skip_bytes(data@, c as nat)); }
                props = Some(ps);
                c = c + n;
            }
        } else if v5 && ((4 <= t && t <= 7) || t == 14 || t == 15) {
            if c < len {
                reason_code = Some(data[c]);
                c = c + 1;
                props_pos = c;
                if c < len {
                    let (ps, n) = Properties::parse(tail(data, c))?;
                    proof { lemma_props_list_reencoded_size(ps, skip_bytes(data@, c as nat)); }
                    props = Some(ps);
                    c = c + n;
                }
            }
        } else if v5 && 8 <= t && t <= 11 {
            let (ps, n) = Properties::parse(tail(data, c))?;
            proof { lemma_props_list_reencoded_size(ps, skip_bytes(data@, c as nat)); }
            props = Some(ps);
            c = c + n;
        }
        assert(control_tail_result(v5, t, data@, c0 as nat) == Ok::<nat, MqttError>(c as nat));
        let has_payload = 8 <= t && t <= 11;
        if !has_payload && c < len {
            return Err(MqttError::MalformedPacket);
        }
        let payload = copy_bytes(tail(data, c));
        let ghost body = opt_pid(packet_id) + opt_byte(ack_flags) + opt_byte(reason_code) + opt_props_field(
            opt_props_view(props),
        ) + payload@;
        proof {
            if let Some(ps) = &props {
                lemma_vbi_roundtrip(props_bytes(ps@).len(), Seq::<u8>::empty());
            }
            assert(body.len() <= len);
        }
        let remaining_length = VariableByteInteger::from_u32(body_len_of(&packet_id, &ack_flags, &reason_code, &props, &payload) as u32).unwrap();
        let p = ControlPacket { v5, packet_type: t, remaining_length, packet_id, ack_flags, reason_code, props, payload };
        Ok((p, len))
    }
}

/// Appends an optional property list with its length field.
fn write_opt_props(buf: &mut Vec<u8>, props: &Option<Properties>)
    requires
        props matches Some(ps) ==> props_bytes(ps@).len() <= VBI_MAX,
    ensures
        final(buf)@ == old(buf)@ + opt_props_field(opt_props_view(*props)),
{
    if let Some(ps) = props {
        let sz = ps.size();
        let pl = VariableByteInteger::from_u32(sz as u32).unwrap().to_continuous_buffer();
        append_bytes(buf, pl.as_slice());
        let pb = ps.to_continuous_buffer();
        append_bytes(buf, pb.as_slice());
    }
}

/// Length of the body made of these fields, when it is at most 268,435,455.
fn checked_body_len<P: IsPacketId>(
    packet_id: &Option<P>,
    ack_flags: &Option<u8>,
    reason_code: &Option<u8>,
    props: &Option<Properties>,
    payload: &Vec<u8>,
) -> (r: Option<usize>)
    ensures
        r is Some <==> (opt_pid(*packet_id) + opt_byte(*ack_flags) + opt_byte(*reason_code) + opt_props_field(
            opt_props_view(*props),
        ) + payload@).len() <= VBI_MAX,
        r matches Some(n) ==> n == (opt_pid(*packet_id) + opt_byte(*ack_flags) + opt_byte(*reason_code)
            + opt_props_field(opt_props_view(*props)) + payload@).len(),
{
    let mut total: usize = payload.len();
    if total > 268435455 {
        return None;
    }
    if let Some(id) = packet_id {
        proof { lemma_pid_roundtrip(*id); }
        total = total + P::width();
    }
    if ack_flags.is_some() {
        total = total + 1;
    }
    if reason_code.is_some() {
        total = total + 1;
    }
    if let Some(ps) = props {
        if !props_fit(ps, 268435455) {
            return None;
        }
        proof { lemma_vbi_roundtrip(props_bytes(ps@).len(), Seq::<u8>::empty()); }
        let sz = ps.size();
        total = total + sz + VariableByteInteger::from_u32(sz as u32).unwrap().size();
    }
    if total > 268435455 {
        return None;
    }
    Some(total)
}

/// Whether the encoded property list fits in `room` bytes.
fn props_fit(ps: &Properties, room: usize) -> (r: bool)
    ensures
        r == (props_bytes(ps@).len() <= room),
{
    let mut total: usize = 0;
    let mut i: usize = 0;
    while i < ps.len()
        invariant
            i <= ps@.len(),
            total == props_bytes(ps@.take(i as int)).len(),
            total <= room,
        decreases ps@.len() - i,
    {
        proof {
            crate::packet::property::lemma_props_bytes_push(ps@.take(i as int), ps@[i as int]);
            assert(ps@.take(i as int).push(ps@[i as int]) =~= ps@.take(i + 1));
        }
        let s = ps[i].size();
        if s > room - total {
            proof { lemma_props_bytes_prefix(ps@, (i + 1) as nat); }
            return false;
        }
        total = total + s;
        i = i + 1;
    }
    assert(ps@.take(i as int) =~= ps@);
    true
}

proof fn lemma_props_bytes_prefix(ps: Seq<Property>, i: nat)
    requires
        i <= ps.len(),
    ensures
        props_bytes(ps.take(i as int)).len() <= props_bytes(ps).len(),
    decreases ps.len() - i,
{
    if i < ps.len() {
        lemma_props_bytes_prefix(ps, (i + 1) as nat);
        crate::packet::property::lemma_props_bytes_push(ps.take(i as int), ps[i as int]);
        assert(ps.take(i as int).push(ps[i as int]) =~= ps.take((i + 1) as int));
    } else {
        assert(ps.take(i as int) =~= ps);
    }
}

/// Length of the body made of these fields.
fn body_len_of<P: IsPacketId>(
    packet_id: &Option<P>,
    ack_flags: &Option<u8>,
    reason_code: &Option<u8>,
    props: &Option<Properties>,
    payload: &Vec<u8>,
) -> (r: usize)
    requires
        (opt_pid(*packet_id) + opt_byte(*ack_flags) + opt_byte(*reason_code) + opt_props_field(
            opt_props_view(*props),
        ) + payload@).len() <= VBI_MAX,
        props matches Some(ps) ==> props_bytes(ps@).len() <= VBI_MAX,
    ensures
        r == (opt_pid(*packet_id) + opt_byte(*ack_flags) + opt_byte(*reason_code) + opt_props_field(
            opt_props_view(*props),
        ) + payload@).len(),
{
    let mut total: usize = payload.len();
    if let Some(id) = packet_id {
        proof { lemma_pid_roundtrip(*id); }
        total = total + P::width();
    }
    if ack_flags.is_some() {
        total = total + 1;
    }
    if reason_code.is_some() {
        total = total + 1;
    }
    if let Some(ps) = props {
        proof { lemma_vbi_roundtrip(props_bytes(ps@).len(), Seq::<u8>::empty()); }
        let sz = ps.size();
        total = total + sz + VariableByteInteger::from_u32(sz as u32).unwrap().size();
    }
    total
}

impl<PacketIdType: IsPacketId> Clone for ControlPacket<PacketIdType> {
    fn clone(&self) -> (r: Self)
        ensures
            r.spec_packet_type() == self.spec_packet_type(),
            r.spec_packet_id() == self.spec_packet_id(),
            r.spec_body() == self.spec_body(),
    {
        self.duplicate()
    }
}


proof fn lemma_props_field_at(d: Seq<u8>, head: Seq<u8>, ps: Seq<Property>, pay: Seq<u8>)
    requires
        d == head + opt_props_field(Some(ps)) + pay,
        props_inv(ps),
        props_bytes(ps).len() <= VBI_MAX,
    ensures
        props_any_result(d, head.len()) == Ok::<nat, MqttError>(head.len() + opt_props_field(Some(ps)).len()),
{
    let pf = opt_props_field(Some(ps));
    let rest = pf + pay;
    lemma_props_list_ok(ps, pay);
    vstd::seq_lib::lemma_concat_associative(head, pf, pay);
    assert(skip_bytes(head + rest, head.len()) =~= rest);
}

#[verifier::spinoff_prover]
proof fn lemma_props_list_ok(ps: Seq<Property>, pay: Seq<u8>)
    requires
        props_inv(ps),
        props_bytes(ps).len() <= VBI_MAX,
    ensures
        props_result(opt_props_field(Some(ps)) + pay) == Ok::<nat, MqttError>(opt_props_field(Some(ps)).len()),
{
    crate::packet::property::lemma_props_list_roundtrip(ps, pay);
    lemma_vbi_roundtrip(props_bytes(ps).len(), Seq::<u8>::empty());
}

/// Parsing what a control packet encodes gives it back: the body of a packet
/// whose fields fit the layout of its type (as `new` checks) and whose
/// properties are well formed parses without error and is taken whole.
#[verifier::spinoff_prover]
#[verifier::rlimit(40)]
pub proof fn lemma_control_roundtrip<P: IsPacketId>(p: ControlPacket<P>)
    requires
        fields_fit(
            p.spec_v5(),
            p.spec_packet_type(),
            p.spec_packet_id(),
            p.spec_ack_flags(),
            p.spec_reason_code(),
            p.spec_props(),
            p.spec_payload(),
        ),
        p.spec_props() matches Some(ps) ==> props_inv(ps) && props_bytes(ps).len() <= VBI_MAX,
    ensures
        control_result::<P>(p.spec_v5(), p.spec_packet_type(), p.spec_body()) == Ok::<nat, MqttError>(
            p.spec_body().len(),
        ),
{
    let v5 = p.spec_v5();
    let t = p.spec_packet_type();
    let d = p.spec_body();
    let pid = opt_pid(p.spec_packet_id());
    if let Some(id) = p.spec_packet_id() {
        lemma_pid_roundtrip(id);
    }
    let c0 = pid_len::<P>(t);
    assert(pid.len() == c0);
    let head = pid + opt_byte(p.spec_ack_flags()) + opt_byte(p.spec_reason_code());
    let pf = opt_props_field(p.spec_props());
    let pay = p.spec_payload();
    assert(d == head + pf + pay);
    let c = control_tail_result(v5, t, d, c0);
    if p.spec_props() is Some {
        lemma_props_field_at(d, head, p.spec_props().unwrap(), pay);
    }
    if t == 2 {
        assert(c == Ok::<nat, MqttError>(d.len()));
    } else if v5 && type_optional_tail(t) {
        assert(c == Ok::<nat, MqttError>(d.len()));
    } else if v5 && type_required_props(t) {
        assert(c == Ok::<nat, MqttError>(head.len() + pf.len()));
    } else {
        assert(c == Ok::<nat, MqttError>(c0));
    }
}

} // verus!
