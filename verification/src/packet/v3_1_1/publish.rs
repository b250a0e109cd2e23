use vstd::prelude::*;
use vstd::string::StringSliceAdditionalSpecFns;
use crate::packet::bytes::{append_bytes, copy_bytes, tail};
use crate::packet::error::MqttError;
use crate::packet::mqtt_string::MqttString;
use crate::packet::packet_id::{lemma_pid_roundtrip, pid_bytes, IsPacketId};
use crate::packet::packet_type::PacketType;
use crate::packet::publish_common::{
    has_wildcard, header_dup, header_qos, header_retain, header_with_dup, header_with_qos,
    header_with_retain, opt_pid_bytes, parse_topic_and_pid, publish_header_from_flags,
    qos_of_header, topic_has_wildcard, topic_pid_result, valid_publish_header,
};
use crate::packet::qos::Qos;
use crate::packet::variable_byte_integer::{vbi_encode, vbi_size, VariableByteInteger, VBI_MAX};

verus! {

/// MQTT v3.1.1 PUBLISH packet, generic over the packet identifier type.
#[derive(PartialEq, Eq, Debug)]
pub struct GenericPublish<PacketIdType: IsPacketId> {
    fixed_header: u8,
    remaining_length: VariableByteInteger,
    topic_name_buf: MqttString,
    packet_id_buf: Option<PacketIdType>,
    payload_buf: Vec<u8>,
}

/// PUBLISH with the `u16` packet identifiers of the MQTT specification.
pub type Publish = GenericPublish<u16>;

impl<PacketIdType: IsPacketId> GenericPublish<PacketIdType> {
    #[verifier::type_invariant]
    pub closed spec fn inv(self) -> bool {
        &&& valid_publish_header(self.fixed_header)
        &&& (header_qos(self.fixed_header) != 0 <==> self.packet_id_buf is Some)
        &&& self.topic_name_buf.wf()
        &&& self.remaining_length@ == self.spec_body().len()
    }

    pub closed spec fn spec_fixed_header(self) -> u8 {
        self.fixed_header
    }

    pub closed spec fn spec_topic_name(self) -> Seq<char> {
        self.topic_name_buf@
    }

    pub closed spec fn spec_packet_id(self) -> Option<PacketIdType> {
        self.packet_id_buf
    }

    pub closed spec fn spec_payload(self) -> Seq<u8> {
        self.payload_buf@
    }

    pub closed spec fn spec_remaining_length(self) -> nat {
        self.remaining_length@
    }

    /// Variable header and payload: topic name, packet identifier when the
    /// QoS is above 0, payload.
    pub closed spec fn spec_body(self) -> Seq<u8> {
        self.topic_name_buf.encoded() + opt_pid_bytes(self.packet_id_buf) + self.payload_buf@
    }

    /// The whole packet: fixed header, remaining length, body.
    pub open spec fn spec_bytes(self) -> Seq<u8> {
        seq![self.spec_fixed_header()] + vbi_encode(self.spec_remaining_length()) + self.spec_body()
    }

    /// Create a new builder.
    pub fn builder() -> (r: GenericPublishBuilder<PacketIdType>)
        ensures
            r@ == PublishBuilderView::<PacketIdType>::empty(),
            r.spec_topic_len() == 0,
    {
        GenericPublishBuilder::default()
    }

    pub fn packet_type() -> (r: PacketType)
        ensures
            r == PacketType::Publish,
    {
        PacketType::Publish
    }

    /// The packet identifier, present exactly when the QoS is above 0.
    pub fn packet_id(&self) -> (r: Option<PacketIdType>)
        ensures
            r == self.spec_packet_id(),
            r is Some <==> header_qos(self.spec_fixed_header()) != 0,
    {
        proof { use_type_invariant(self); }
        self.packet_id_buf
    }

    pub fn qos(&self) -> (r: Qos)
        ensures
            r.spec_to_u8() == header_qos(self.spec_fixed_header()),
    {
        proof { use_type_invariant(self); }
        qos_of_header(self.fixed_header)
    }

    pub fn dup(&self) -> (r: bool)
        ensures
            r == header_dup(self.spec_fixed_header()),
    {
        (self.fixed_header & 8u8) != 0
    }

    pub fn retain(&self) -> (r: bool)
        ensures
            r == header_retain(self.spec_fixed_header()),
    {
        (self.fixed_header & 1u8) != 0
    }

    /// The packet with its DUP flag set to `dup`.
    pub fn set_dup(self, dup: bool) -> (r: Self)
        ensures
            r.spec_fixed_header() == (if dup {
                self.spec_fixed_header() | 8u8
            } else {
                self.spec_fixed_header() & 0xf7u8
            }),
            header_qos(r.spec_fixed_header()) == header_qos(self.spec_fixed_header()),
            header_dup(r.spec_fixed_header()) == dup,
            header_retain(r.spec_fixed_header()) == header_retain(self.spec_fixed_header()),
            r.spec_topic_name() == self.spec_topic_name(),
            r.spec_packet_id() == self.spec_packet_id(),
            r.spec_payload() == self.spec_payload(),
            r.spec_body() == self.spec_body(),
            r.spec_remaining_length() == self.spec_remaining_length(),
    {
        proof { use_type_invariant(&self); }
        let GenericPublish { fixed_header, remaining_length, topic_name_buf, packet_id_buf, payload_buf } = self;
        let h = header_with_dup(fixed_header, dup);
        GenericPublish { fixed_header: h, remaining_length, topic_name_buf, packet_id_buf, payload_buf }
    }

    pub fn topic_name(&self) -> (r: &str)
        ensures
            r@ == self.spec_topic_name(),
    {
        proof { use_type_invariant(self); }
        self.topic_name_buf.as_str()
    }

    pub fn payload(&self) -> (r: &[u8])
        ensures
            r@ == self.spec_payload(),
    {
        self.payload_buf.as_slice()
    }

    /// Total size of the packet in bytes.
    pub fn size(&self) -> (r: usize)
        ensures
            r == self.spec_bytes().len(),
            r == 1 + vbi_size(self.spec_remaining_length()) + self.spec_remaining_length(),
    {
        proof { use_type_invariant(self); }
        let rl = self.remaining_length.to_u32();
        proof {
            crate::packet::variable_byte_integer::lemma_vbi_roundtrip(self.remaining_length@, Seq::<u8>::empty());
        }
        1 + self.remaining_length.size() + rl as usize
    }

    /// The encoded packet.
    pub fn to_continuous_buffer(&self) -> (r: Vec<u8>)
        ensures
            r@ == self.spec_bytes(),
            valid_publish_header(self.spec_fixed_header()),
    {
        proof { use_type_invariant(self); }
        let mut buf: Vec<u8> = Vec::new();
        buf.push(self.fixed_header);
        let rl = self.remaining_length.to_continuous_buffer();
        append_bytes(&mut buf, rl.as_slice());
        append_bytes(&mut buf, self.topic_name_buf.as_bytes());
        let ghost before_pid = buf@;
        if let Some(id) = &self.packet_id_buf {
            let b = id.to_buffer();
            append_bytes(&mut buf, b.as_slice());
        }
        assert(buf@ =~= before_pid + opt_pid_bytes(self.packet_id_buf));
        append_bytes(&mut buf, self.payload_buf.as_slice());
        assert(buf@ =~= self.spec_bytes());
        buf
    }

    /// A copy of the packet.
    pub fn duplicate(&self) -> (r: Self)
        ensures
            r.spec_fixed_header() == self.spec_fixed_header(),
            r.spec_topic_name() == self.spec_topic_name(),
            r.spec_packet_id() == self.spec_packet_id(),
            r.spec_payload() == self.spec_payload(),
            r.spec_body() == self.spec_body(),
            r.spec_remaining_length() == self.spec_remaining_length(),
    {
        proof { use_type_invariant(self); }
        GenericPublish {
            fixed_header: self.fixed_header,
            remaining_length: VariableByteInteger::from_u32(self.remaining_length.to_u32()).unwrap(),
            topic_name_buf: self.topic_name_buf.duplicate(),
            packet_id_buf: self.packet_id_buf,
            payload_buf: copy_bytes(self.payload_buf.as_slice()),
        }
    }

    /// Parses the variable header and payload of a PUBLISH packet whose fixed
    /// header carries `flags`; the whole of `data` is taken.
    pub fn parse(flags: u8, data: &[u8]) -> (r: Result<(Self, usize), MqttError>)
        requires
            data@.len() <= VBI_MAX,
        ensures
            r is Ok <==> topic_pid_result::<PacketIdType>(flags, data@) is Ok,
            r matches Ok((p, n)) ==> {
                &&& n == data@.len()
                &&& p.spec_fixed_header() == (0x30u8 | (flags & 0x0fu8))
                &&& p.spec_body() == data@
                &&& p.spec_remaining_length() == data@.len()
            },
            r matches Err(e) ==> topic_pid_result::<PacketIdType>(flags, data@) == Err::<nat, MqttError>(e),
    {
        let (topic_name_buf, packet_id_buf, cursor) = parse_topic_and_pid::<PacketIdType>(flags, data)?;
        let fixed_header = publish_header_from_flags(flags);
        let payload_buf = copy_bytes(tail(data, cursor));
        let remaining_length = VariableByteInteger::from_u32(data.len() as u32).unwrap();
        proof {
            assert(data@.subrange(0, cursor as int) + data@.subrange(cursor as int, data@.len() as int)
                =~= data@);
        }
        let p = GenericPublish { fixed_header, remaining_length, topic_name_buf, packet_id_buf, payload_buf };
        Ok((p, data.len()))
    }
}

impl<PacketIdType: IsPacketId> Clone for GenericPublish<PacketIdType> {
    fn clone(&self) -> (r: Self)
        ensures
            r.spec_fixed_header() == self.spec_fixed_header(),
            r.spec_topic_name() == self.spec_topic_name(),
            r.spec_packet_id() == self.spec_packet_id(),
            r.spec_payload() == self.spec_payload(),
            r.spec_body() == self.spec_body(),
    {
        self.duplicate()
    }
}

/// What a `GenericPublishBuilder` has been given so far.
pub ghost struct PublishBuilderView<PacketIdType> {
    pub fixed_header: Option<u8>,
    pub topic_name: Option<Seq<char>>,
    pub packet_id: Option<PacketIdType>,
    pub payload: Option<Seq<u8>>,
}

impl<PacketIdType> PublishBuilderView<PacketIdType> {
    /// The fixed header given, or that of a QoS 0 PUBLISH without flags.
    pub open spec fn header_or_default(self) -> u8 {
        match self.fixed_header {
            Some(h) => h,
            None => 0x30u8,
        }
    }

    pub open spec fn empty() -> Self {
        PublishBuilderView {
            fixed_header: None,
            topic_name: None,
            packet_id: None,
            payload: None,
        }
    }
}

/// The error that `build` reports for what the builder was given, if any.
pub open spec fn publish_build_error<P: IsPacketId>(v: PublishBuilderView<P>) -> Option<MqttError> {
    if v.topic_name is None || v.topic_name.unwrap().len() == 0 {
        Some(MqttError::MalformedPacket)
    } else if v.fixed_header is Some && header_qos(v.fixed_header.unwrap()) == 3 {
        Some(MqttError::MalformedPacket)
    } else if v.fixed_header is Some && header_qos(v.fixed_header.unwrap()) == 0 && v.packet_id is Some {
        Some(MqttError::MalformedPacket)
    } else if v.fixed_header is Some && header_qos(v.fixed_header.unwrap()) != 0 && v.packet_id is None {
        Some(MqttError::MalformedPacket)
    } else if v.fixed_header is Some && header_qos(v.fixed_header.unwrap()) != 0
        && v.packet_id.unwrap().spec_value() == 0 {
        Some(MqttError::MalformedPacket)
    } else if v.fixed_header is None && v.packet_id is Some {
        Some(MqttError::MalformedPacket)
    } else if v.payload is Some && v.payload.unwrap().len() > VBI_MAX {
        Some(MqttError::MalformedPacket)
    } else {
        None
    }
}

/// Builder of a v3.1.1 PUBLISH packet.
#[derive(Debug)]
pub struct GenericPublishBuilder<PacketIdType: IsPacketId> {
    fixed_header: Option<u8>,
    topic_name_buf: Option<MqttString>,
    packet_id_buf: Option<PacketIdType>,
    payload_buf: Option<Vec<u8>>,
}

/// Builder of a PUBLISH with `u16` packet identifiers.
pub type PublishBuilder = GenericPublishBuilder<u16>;

/// Remaining length of the PUBLISH built from `v` whose topic name takes
/// `topic_len` bytes: topic name with its length prefix, packet identifier
/// when the QoS is above 0, payload.
pub open spec fn built_remaining<P: IsPacketId>(v: PublishBuilderView<P>, topic_len: nat) -> nat {
    (if v.topic_name is Some { topic_len + 2 } else { 0 }) + (match v.fixed_header {
        Some(h) => if header_qos(h) != 0 && v.packet_id is Some { P::spec_width() } else { 0 },
        None => 0,
    }) + (match v.payload {
        Some(d) => d.len(),
        None => 0,
    })
}

impl<PacketIdType: IsPacketId> View for GenericPublishBuilder<PacketIdType> {
    type V = PublishBuilderView<PacketIdType>;

    closed spec fn view(&self) -> PublishBuilderView<PacketIdType> {
        PublishBuilderView {
            fixed_header: self.fixed_header,
            topic_name: match self.topic_name_buf {
                Some(t) => Some(t@),
                None => None,
            },
            packet_id: self.packet_id_buf,
            payload: match self.payload_buf {
                Some(p) => Some(p@),
                None => None,
            },
        }
    }
}

impl<PacketIdType: IsPacketId> Default for GenericPublishBuilder<PacketIdType> {
    fn default() -> (r: Self)
        ensures
            r@ == PublishBuilderView::<PacketIdType>::empty(),
            r.spec_topic_len() == 0,
    {
        GenericPublishBuilder { fixed_header: None, topic_name_buf: None, packet_id_buf: None, payload_buf: None }
    }
}

impl<PacketIdType: IsPacketId> GenericPublishBuilder<PacketIdType> {
    #[verifier::type_invariant]
    closed spec fn inv(self) -> bool {
        &&& (self.topic_name_buf matches Some(t) ==> t.wf())
        &&& (self.fixed_header matches Some(h) ==> h & 0xf0u8 == 0x30u8)
    }

    /// Length in bytes of the UTF-8 topic name given so far (0 when none).
    pub closed spec fn spec_topic_len(self) -> nat {
        match self.topic_name_buf {
            Some(t) => t.bytes().len(),
            None => 0,
        }
    }

    /// Remaining length of the packet that `build` would make.
    pub closed spec fn spec_built_remaining(self) -> nat {
        let topic = match self.topic_name_buf {
            Some(t) => t.encoded().len(),
            None => 0,
        };
        let pid = match self.fixed_header {
            Some(h) => if header_qos(h) != 0 && self.packet_id_buf is Some {
                PacketIdType::spec_width()
            } else {
                0
            },
            None => 0,
        };
        let payload = match self.payload_buf {
            Some(p) => p@.len(),
            None => 0,
        };
        topic + pid + payload
    }

    /// Sets the topic name: `MalformedPacket` when it holds `#` or `+`, or
    /// when its UTF-8 encoding is longer than 65,535 bytes.
    pub fn topic_name(self, topic: &str) -> (r: Result<Self, MqttError>)
        ensures
            r is Ok <==> (topic.spec_bytes().len() <= 65535 && !has_wildcard(topic@)),
            r matches Ok(b) ==> b@ == (PublishBuilderView { topic_name: Some(topic@), ..self@ })
                && b.spec_topic_len() == topic.spec_bytes().len(),
            r matches Err(e) ==> e == MqttError::MalformedPacket,
    {
        proof { use_type_invariant(&self); }
        let mqtt_str = MqttString::new(topic)?;
        if topic_has_wildcard(&mqtt_str) {
            return Err(MqttError::MalformedPacket);
        }
        let GenericPublishBuilder { fixed_header, topic_name_buf: _, packet_id_buf, payload_buf } = self;
        let b = GenericPublishBuilder { fixed_header, topic_name_buf: Some(mqtt_str), packet_id_buf, payload_buf };
        assert(b@ =~= (PublishBuilderView { topic_name: Some(topic@), ..self@ }));
        Ok(b)
    }

    /// Sets the QoS level.
    pub fn qos(self, qos: Qos) -> (r: Self)
        ensures
            r@ == (PublishBuilderView {
                fixed_header: Some(
                    (self@.header_or_default() & 0xf9u8) | (qos.spec_to_u8() << 1u8),
                ),
                ..self@
            }),
            header_qos(r@.fixed_header.unwrap()) == qos.spec_to_u8(),
            r.spec_topic_len() == self.spec_topic_len(),
    {
        proof { use_type_invariant(&self); }
        let GenericPublishBuilder { fixed_header, topic_name_buf, packet_id_buf, payload_buf } = self;
        let header = match fixed_header {
            Some(h) => h,
            None => 0x30u8,
        };
        assert(0x30u8 & 0xf0u8 == 0x30u8) by (bit_vector);
        let h = header_with_qos(header, qos);
        GenericPublishBuilder { fixed_header: Some(h), topic_name_buf, packet_id_buf, payload_buf }
    }

    /// Sets the DUP flag.
    pub fn dup(self, dup: bool) -> (r: Self)
        ensures
            r@ == (PublishBuilderView {
                fixed_header: Some(
                    if dup {
                        self@.header_or_default() | 8u8
                    } else {
                        self@.header_or_default() & 0xf7u8
                    },
                ),
                ..self@
            }),
            r.spec_topic_len() == self.spec_topic_len(),
    {
        proof { use_type_invariant(&self); }
        let GenericPublishBuilder { fixed_header, topic_name_buf, packet_id_buf, payload_buf } = self;
        let header = match fixed_header {
            Some(h) => h,
            None => 0x30u8,
        };
        assert(0x30u8 & 0xf0u8 == 0x30u8) by (bit_vector);
        let h = header_with_dup(header, dup);
        GenericPublishBuilder { fixed_header: Some(h), topic_name_buf, packet_id_buf, payload_buf }
    }

    /// Sets the RETAIN flag.
    pub fn retain(self, retain: bool) -> (r: Self)
        ensures
            r@ == (PublishBuilderView {
                fixed_header: Some(
                    if retain {
                        self@.header_or_default() | 1u8
                    } else {
                        self@.header_or_default() & 0xfeu8
                    },
                ),
                ..self@
            }),
            r.spec_topic_len() == self.spec_topic_len(),
    {
        proof { use_type_invariant(&self); }
        let GenericPublishBuilder { fixed_header, topic_name_buf, packet_id_buf, payload_buf } = self;
        let header = match fixed_header {
            Some(h) => h,
            None => 0x30u8,
        };
        assert(0x30u8 & 0xf0u8 == 0x30u8) by (bit_vector);
        let h = header_with_retain(header, retain);
        GenericPublishBuilder { fixed_header: Some(h), topic_name_buf, packet_id_buf, payload_buf }
    }

    /// Sets the packet identifier.
    pub fn packet_id(self, id: PacketIdType) -> (r: Self)
        ensures
            r@ == (PublishBuilderView { packet_id: Some(id), ..self@ }),
            r.spec_topic_len() == self.spec_topic_len(),
    {
        proof { use_type_invariant(&self); }
        let GenericPublishBuilder { fixed_header, topic_name_buf, packet_id_buf: _, payload_buf } = self;
        GenericPublishBuilder { fixed_header, topic_name_buf, packet_id_buf: Some(id), payload_buf }
    }

    /// Sets the payload.
    pub fn payload(self, data: &[u8]) -> (r: Self)
        ensures
            r@ == (PublishBuilderView { payload: Some(data@), ..self@ }),
            r.spec_topic_len() == self.spec_topic_len(),
    {
        proof { use_type_invariant(&self); }
        let GenericPublishBuilder { fixed_header, topic_name_buf, packet_id_buf, payload_buf: _ } = self;
        GenericPublishBuilder { fixed_header, topic_name_buf, packet_id_buf, payload_buf: Some(copy_bytes(data)) }
    }

    fn validate(&self) -> (r: Result<(), MqttError>)
        ensures
            r is Ok <==> publish_build_error(self@) is None,
            r matches Err(e) ==> publish_build_error(self@) == Some(e),
    {
        proof { use_type_invariant(self); }
        match &self.topic_name_buf {
            None => return Err(MqttError::MalformedPacket),
            Some(t) => {
                if t.is_empty() {
                    return Err(MqttError::MalformedPacket);
                }
            },
        }
        match self.fixed_header {
            Some(h) => {
                let qos_value = (h >> 1u8) & 3u8;
                if qos_value == 3 {
                    return Err(MqttError::MalformedPacket);
                }
                if qos_value == 0 {
                    if self.packet_id_buf.is_some() {
                        return Err(MqttError::MalformedPacket);
                    }
                } else {
                    match self.packet_id_buf {
                        None => return Err(MqttError::MalformedPacket),
                        Some(id) => {
                            if id.value() == 0 {
                                return Err(MqttError::MalformedPacket);
                            }
                        },
                    }
                }
            },
            None => {
                if self.packet_id_buf.is_some() {
                    return Err(MqttError::MalformedPacket);
                }
            },
        }
        if let Some(p) = &self.payload_buf {
            if p.len() > 268435455 {
                return Err(MqttError::MalformedPacket);
            }
        }
        Ok(())
    }

    /// The packet; the error that `publish_build_error` gives, if any.
    pub fn build(self) -> (r: Result<GenericPublish<PacketIdType>, MqttError>)
        requires
            publish_build_error(self@) is None ==> built_remaining(self@, self.spec_topic_len()) <= VBI_MAX,
        ensures
            r is Ok <==> publish_build_error(self@) is None,
            r matches Err(e) ==> publish_build_error(self@) == Some(e),
            r matches Ok(p) ==> {
                &&& p.spec_fixed_header() == self@.header_or_default()
                &&& p.spec_topic_name() == self@.topic_name.unwrap()
                &&& p.spec_packet_id() == self@.packet_id
                &&& p.spec_payload() == match self@.payload {
                    Some(d) => d,
                    None => Seq::<u8>::empty(),
                }
            },
    {
        self.validate()?;
        proof {
            use_type_invariant(&self);
            self.topic_name_buf.unwrap().lemma_encoded();
            assert(self.spec_built_remaining() == built_remaining(self@, self.spec_topic_len()));
        }
        let GenericPublishBuilder { fixed_header, topic_name_buf, packet_id_buf, payload_buf } = self;
        let topic_name_buf = topic_name_buf.unwrap();
        let fixed_header = match fixed_header {
            Some(h) => h,
            None => 0x30u8,
        };
        let payload_buf = match payload_buf {
            Some(p) => p,
            None => Vec::new(),
        };
        let mut remaining: usize = topic_name_buf.size();
        if packet_id_buf.is_some() {
            remaining = remaining + PacketIdType::width();
        }
        remaining = remaining + payload_buf.len();
        proof {
            topic_name_buf.lemma_encoded();
            if let Some(id) = packet_id_buf {
                lemma_pid_roundtrip(id);
            }
            assert(header_qos(0x30u8) == 0 && 0x30u8 & 0xf0u8 == 0x30u8) by (bit_vector);
        }
        let remaining_length = VariableByteInteger::from_u32(remaining as u32).unwrap();
        Ok(GenericPublish { fixed_header, remaining_length, topic_name_buf, packet_id_buf, payload_buf })
    }
}


/// Parsing what a PUBLISH encodes gives it back: the body of a packet,
/// parsed with the flags of its fixed header (whatever bytes follow the
/// topic and packet identifier), is well formed, and the fixed header is
/// rebuilt from those flags.
pub proof fn lemma_publish_roundtrip<P: IsPacketId>(p: GenericPublish<P>)
    requires
        p.inv(),
    ensures
        topic_pid_result::<P>(p.spec_fixed_header() & 0x0fu8, p.spec_body()) is Ok,
        (0x30u8 | ((p.spec_fixed_header() & 0x0fu8) & 0x0fu8)) == p.spec_fixed_header(),
{
    let h = p.spec_fixed_header();
    let f = h & 0x0fu8;
    assert(header_qos(f) == header_qos(h) && (0x30u8 | (f & 0x0fu8)) == h) by (bit_vector)
        requires
            f == h & 0x0fu8,
            h & 0xf0u8 == 0x30u8,
    ;
    p.topic_name_buf.lemma_encoded();
    let t = p.topic_name_buf.bytes();
    let rest = opt_pid_bytes(p.packet_id_buf) + p.payload_buf@;
    crate::packet::mqtt_binary::lemma_length_prefixed_roundtrip(t, rest);
    vstd::seq_lib::lemma_concat_associative(p.topic_name_buf.encoded(), opt_pid_bytes(p.packet_id_buf), p.payload_buf@);
    assert(p.spec_body() == crate::packet::mqtt_binary::length_prefixed(t) + rest);
    if let Some(id) = p.packet_id_buf {
        lemma_pid_roundtrip(id);
    }
}

} // verus!
