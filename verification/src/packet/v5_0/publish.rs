use vstd::prelude::*;
use vstd::string::StringSliceAdditionalSpecFns;
use crate::packet::bytes::{append_bytes, copy_bytes, tail};
use crate::packet::error::MqttError;
use crate::packet::mqtt_string::MqttString;
use crate::packet::packet_id::{lemma_pid_roundtrip, IsPacketId};
use crate::packet::packet_type::PacketType;
use crate::packet::property::{
    lemma_props_bytes_push, lemma_props_list_reencoded_size, props_bytes, props_inv,
    props_parsed_upto, props_region, props_result, Properties, PropertiesParse, PropertiesSize,
    PropertiesToContinuousBuffer, Property, PropertyId, TopicAlias,
};
use crate::packet::property_check::{
    check_property_ids, first_topic_alias, has_topic_alias, ids_ok, lemma_region_ids, prop_ids,
    props_without_topic_alias, region_ids, remove_topic_alias_props, PropertySet,
};
use crate::packet::publish_common::{
    has_wildcard, header_dup, header_qos, header_retain, header_with_dup, header_with_qos,
    header_with_retain, opt_pid_bytes, parse_topic_and_pid, publish_header_from_flags,
    qos_of_header, topic_has_wildcard, topic_pid_result, valid_publish_header,
};
use crate::packet::qos::Qos;
use crate::packet::variable_byte_integer::{lemma_vbi_roundtrip, vbi_encode, vbi_size, VariableByteInteger, VBI_MAX};

verus! {

/// Remaining length of a v5.0 PUBLISH packet whose topic name takes
/// `topic_len` bytes of UTF-8, with a packet identifier when `has_pid`,
/// properties encoded on `props_len` bytes and a payload of `payload_len` bytes.
pub open spec fn publish_body_len<P: IsPacketId>(
    topic_len: nat,
    has_pid: bool,
    props_len: nat,
    payload_len: nat,
) -> nat {
    topic_len + 2 + (if has_pid {
        P::spec_width()
    } else {
        0
    }) + vbi_size(props_len) + props_len + payload_len
}

/// Outcome of parsing the variable header and payload of a v5.0 PUBLISH
/// packet whose fixed header carries `flags`: the number of bytes taken (all
/// of them), or the error.
pub open spec fn publish_result<P: IsPacketId>(flags: u8, d: Seq<u8>) -> Result<nat, MqttError> {
    match topic_pid_result::<P>(flags, d) {
        Err(e) => Err(e),
        Ok(c) => if c < d.len() {
            let rest = d.subrange(c as int, d.len() as int);
            match props_result(rest) {
                Err(e) => Err(e),
                Ok(_) => if ids_ok(region_ids(props_region(rest)), PropertySet::Publish) {
                    Ok(d.len())
                } else {
                    Err(MqttError::ProtocolError)
                },
            }
        } else {
            Ok(d.len())
        },
    }
}

/// Whether a property list holds a TopicAlias property.
#[derive(Debug, Clone, Copy, PartialEq, Eq, Structural)]
enum PropertyValidation {
    ValidWithTopicAlias,
    ValidWithoutTopicAlias,
}

/// Checks the properties of a PUBLISH packet: `ProtocolError` when one is
/// not allowed there or one that may appear once is repeated; otherwise
/// whether a TopicAlias is among them.
fn validate_publish_properties(props: &Properties) -> (r: Result<PropertyValidation, MqttError>)
    ensures
        r is Ok <==> ids_ok(prop_ids(props@), PropertySet::Publish),
        r matches Ok(v) ==> (v == PropertyValidation::ValidWithTopicAlias <==> prop_ids(props@).contains(
            PropertyId::TopicAlias,
        )),
        r matches Err(e) ==> e == MqttError::ProtocolError,
{
    check_property_ids(props, PropertySet::Publish)?;
    if has_topic_alias(props) {
        Ok(PropertyValidation::ValidWithTopicAlias)
    } else {
        Ok(PropertyValidation::ValidWithoutTopicAlias)
    }
}

proof fn lemma_without_topic_alias_len(ps: Seq<Property>)
    ensures
        props_bytes(props_without_topic_alias(ps)).len() <= props_bytes(ps).len(),
    decreases ps.len(),
{
    if ps.len() > 0 {
        lemma_without_topic_alias_len(ps.drop_last());
        lemma_props_bytes_push(ps.drop_last(), ps.last());
        assert(ps.drop_last().push(ps.last()) =~= ps);
        lemma_props_bytes_push(props_without_topic_alias(ps.drop_last()), ps.last());
    }
}

proof fn lemma_without_prefix_len(ps: Seq<Property>, i: nat)
    requires
        i <= ps.len(),
    ensures
        props_bytes(props_without_topic_alias(ps.take(i as int))).len() <= props_bytes(props_without_topic_alias(ps)).len(),
    decreases ps.len() - i,
{
    if i < ps.len() {
        lemma_without_prefix_len(ps, i + 1);
        assert(ps.take(i + 1int).drop_last() =~= ps.take(i as int));
        lemma_props_bytes_push(props_without_topic_alias(ps.take(i as int)), ps[i as int]);
    } else {
        assert(ps.take(i as int) =~= ps);
    }
}

/// MQTT v5.0 PUBLISH packet, generic over the packet identifier type.
#[derive(PartialEq, Eq, Debug)]
pub struct GenericPublish<PacketIdType: IsPacketId> {
    fixed_header: u8,
    remaining_length: VariableByteInteger,
    topic_name_buf: MqttString,
    packet_id_buf: Option<PacketIdType>,
    property_length: VariableByteInteger,
    props: Properties,
    payload_buf: Vec<u8>,
    topic_name_extracted: bool,
}

/// PUBLISH with the `u16` packet identifiers of the MQTT specification.
pub type Publish = GenericPublish<u16>;

impl<PacketIdType: IsPacketId> GenericPublish<PacketIdType> {
    #[verifier::type_invariant]
    pub closed spec fn inv(self) -> bool {
        &&& valid_publish_header(self.fixed_header)
        &&& (header_qos(self.fixed_header) != 0 <==> self.packet_id_buf is Some)
        &&& self.topic_name_buf.wf()
        &&& self.property_length@ == props_bytes(self.props@).len()
        &&& self.remaining_length@ == self.spec_body().len()
    }

    pub closed spec fn spec_fixed_header(self) -> u8 {
        self.fixed_header
    }

    pub closed spec fn spec_topic_name(self) -> Seq<char> {
        self.topic_name_buf@
    }

    /// The UTF-8 bytes of the topic name.
    pub closed spec fn spec_topic_bytes(self) -> Seq<u8> {
        self.topic_name_buf.bytes()
    }

    /// The length-prefixed encoding of the topic name.
    pub closed spec fn spec_topic_encoded(self) -> Seq<u8> {
        self.topic_name_buf.encoded()
    }

    pub closed spec fn spec_packet_id(self) -> Option<PacketIdType> {
        self.packet_id_buf
    }

    pub closed spec fn spec_props(self) -> Seq<Property> {
        self.props@
    }

    pub closed spec fn spec_payload(self) -> Seq<u8> {
        self.payload_buf@
    }

    pub closed spec fn spec_topic_name_extracted(self) -> bool {
        self.topic_name_extracted
    }

    pub closed spec fn spec_remaining_length(self) -> nat {
        self.remaining_length@
    }

    /// Variable header and payload: topic name, packet identifier when the
    /// QoS is above 0, property length, properties, payload.
    pub closed spec fn spec_body(self) -> Seq<u8> {
        self.topic_name_buf.encoded() + opt_pid_bytes(self.packet_id_buf) + vbi_encode(
            props_bytes(self.props@).len(),
        ) + props_bytes(self.props@) + self.payload_buf@
    }

    /// The whole packet: fixed header, remaining length, body.
    pub open spec fn spec_bytes(self) -> Seq<u8> {
        seq![self.spec_fixed_header()] + vbi_encode(self.spec_remaining_length()) + self.spec_body()
    }

    /// Facts that the invariant gives about the fields.
    fn lemma_inv(&self)
        ensures
            valid_publish_header(self.spec_fixed_header()),
            header_qos(self.spec_fixed_header()) != 0 <==> self.spec_packet_id() is Some,
            self.spec_remaining_length() == publish_body_len::<PacketIdType>(
                self.spec_topic_bytes().len(),
                self.spec_packet_id() is Some,
                props_bytes(self.spec_props()).len(),
                self.spec_payload().len(),
            ),
            self.spec_remaining_length() <= VBI_MAX,
    {
        let _ = self.property_length.to_u32();
        let _ = self.remaining_length.to_u32();
        proof {
            use_type_invariant(self);
            self.topic_name_buf.lemma_encoded();
            if let Some(id) = self.packet_id_buf {
                lemma_pid_roundtrip(id);
            }
            lemma_vbi_roundtrip(props_bytes(self.props@).len(), Seq::<u8>::empty());
        }
    }

    /// A packet from its fields, with both lengths computed from them.
    fn assemble(
        fixed_header: u8,
        topic_name_buf: MqttString,
        packet_id_buf: Option<PacketIdType>,
        props: Properties,
        payload_buf: Vec<u8>,
        topic_name_extracted: bool,
    ) -> (r: Self)
        requires
            valid_publish_header(fixed_header),
            header_qos(fixed_header) != 0 <==> packet_id_buf is Some,
            topic_name_buf.wf(),
            publish_body_len::<PacketIdType>(
                topic_name_buf.bytes().len(),
                packet_id_buf is Some,
                props_bytes(props@).len(),
                payload_buf@.len(),
            ) <= VBI_MAX,
        ensures
            r.spec_fixed_header() == fixed_header,
            r.topic_name_buf == topic_name_buf,
            r.spec_packet_id() == packet_id_buf,
            r.spec_props() == props@,
            r.spec_payload() == payload_buf@,
            r.spec_topic_name_extracted() == topic_name_extracted,
    {
        proof {
            topic_name_buf.lemma_encoded();
            if let Some(id) = packet_id_buf {
                lemma_pid_roundtrip(id);
            }
            lemma_vbi_roundtrip(props_bytes(props@).len(), Seq::<u8>::empty());
        }
        let props_size = props.size();
        let property_length = VariableByteInteger::from_u32(props_size as u32).unwrap();
        let mut remaining: usize = topic_name_buf.size();
        if packet_id_buf.is_some() {
            remaining = remaining + PacketIdType::width();
        }
        remaining = remaining + property_length.size() + props_size + payload_buf.len();
        let remaining_length = VariableByteInteger::from_u32(remaining as u32).unwrap();
        GenericPublish {
            fixed_header,
            remaining_length,
            topic_name_buf,
            packet_id_buf,
            property_length,
            props,
            payload_buf,
            topic_name_extracted,
        }
    }

    /// Create a new builder.
    pub fn builder() -> (r: GenericPublishBuilder<PacketIdType>)
        ensures
            r@ == PublishBuilderView::<PacketIdType>::empty(),
            r.spec_topic_len() == 0,
    {
        GenericPublishBuilder::default()
    }

    pub fn packet_type() -> (r: PacketType)
        ensures
            r == PacketType::Publish,
    {
        PacketType::Publish
    }

    /// The packet identifier, present exactly when the QoS is above 0.
    pub fn packet_id(&self) -> (r: Option<PacketIdType>)
        ensures
            r == self.spec_packet_id(),
            r is Some <==> header_qos(self.spec_fixed_header()) != 0,
    {
        proof { use_type_invariant(self); }
        self.packet_id_buf
    }

    pub fn qos(&self) -> (r: Qos)
        ensures
            r.spec_to_u8() == header_qos(self.spec_fixed_header()),
    {
        proof { use_type_invariant(self); }
        qos_of_header(self.fixed_header)
    }

    pub fn dup(&self) -> (r: bool)
        ensures
            r == header_dup(self.spec_fixed_header()),
    {
        (self.fixed_header & 8u8) != 0
    }

    pub fn retain(&self) -> (r: bool)
        ensures
            r == header_retain(self.spec_fixed_header()),
    {
        (self.fixed_header & 1u8) != 0
    }

    /// The properties of the packet.
    pub fn props(&self) -> (r: &Properties)
        ensures
            r@ == self.spec_props(),
    {
        &self.props
    }

    /// Whether the topic name was restored from a topic alias.
    pub fn topic_name_extracted(&self) -> (r: bool)
        ensures
            r == self.spec_topic_name_extracted(),
    {
        self.topic_name_extracted
    }

    /// The packet with its DUP flag set to `dup`.
    pub fn set_dup(self, dup: bool) -> (r: Self)
        ensures
            r.spec_fixed_header() == (if dup {
                self.spec_fixed_header() | 8u8
            } else {
                self.spec_fixed_header() & 0xf7u8
            }),
            header_qos(r.spec_fixed_header()) == header_qos(self.spec_fixed_header()),
            header_dup(r.spec_fixed_header()) == dup,
            r.spec_topic_name() == self.spec_topic_name(),
            r.spec_packet_id() == self.spec_packet_id(),
            r.spec_props() == self.spec_props(),
            r.spec_payload() == self.spec_payload(),
            r.spec_topic_name_extracted() == self.spec_topic_name_extracted(),
            r.spec_body() == self.spec_body(),
    {
        proof { use_type_invariant(&self); }
        let GenericPublish {
            fixed_header,
            remaining_length,
            topic_name_buf,
            packet_id_buf,
            property_length,
            props,
            payload_buf,
            topic_name_extracted,
        } = self;
        let h = header_with_dup(fixed_header, dup);
        GenericPublish {
            fixed_header: h,
            remaining_length,
            topic_name_buf,
            packet_id_buf,
            property_length,
            props,
            payload_buf,
            topic_name_extracted,
        }
    }

    pub fn topic_name(&self) -> (r: &str)
        ensures
            r@ == self.spec_topic_name(),
            r.spec_bytes() == self.spec_topic_bytes(),
    {
        proof { use_type_invariant(self); }
        self.topic_name_buf.as_str()
    }

    /// Size of the encoded property list in bytes.
    pub fn props_size(&self) -> (r: usize)
        ensures
            r == props_bytes(self.spec_props()).len(),
            r <= VBI_MAX,
    {
        proof { use_type_invariant(self); }
        let n = self.property_length.to_u32();
        n as usize
    }

    /// Length of the topic name in bytes.
    pub fn topic_name_len(&self) -> (r: usize)
        ensures
            r == self.spec_topic_bytes().len(),
    {
        proof { use_type_invariant(self); }
        self.topic_name_buf.len()
    }

    pub fn payload(&self) -> (r: &[u8])
        ensures
            r@ == self.spec_payload(),
    {
        self.payload_buf.as_slice()
    }

    /// Restores the topic name that a topic alias stood for and removes the
    /// TopicAlias property: `TopicNameInvalid` when the packet already has a
    /// topic name, `MalformedPacket` when `topic` holds `#` or `+` or its
    /// UTF-8 encoding is longer than 65,535 bytes.
    pub fn remove_topic_alias_add_topic(self, topic: &str) -> (r: Result<Self, MqttError>)
        requires
            self.spec_topic_name().len() == 0 && !has_wildcard(topic@) && topic.spec_bytes().len()
                <= 65535 ==> publish_body_len::<PacketIdType>(
                topic.spec_bytes().len(),
                self.spec_packet_id() is Some,
                props_bytes(props_without_topic_alias(self.spec_props())).len(),
                self.spec_payload().len(),
            ) <= VBI_MAX,
        ensures
            self.spec_topic_name().len() != 0 ==> r == Err::<Self, MqttError>(MqttError::TopicNameInvalid),
            self.spec_topic_name().len() == 0 ==> (r is Ok <==> (!has_wildcard(topic@)
                && topic.spec_bytes().len() <= 65535)),
            self.spec_topic_name().len() == 0 && r is Err ==> r == Err::<Self, MqttError>(
                MqttError::MalformedPacket,
            ),
            r matches Ok(p) ==> {
                &&& p.spec_topic_name() == topic@
                &&& p.spec_fixed_header() == self.spec_fixed_header()
                &&& p.spec_packet_id() == self.spec_packet_id()
                &&& p.spec_props() == props_without_topic_alias(self.spec_props())
                &&& p.spec_payload() == self.spec_payload()
                &&& p.spec_topic_name_extracted() == self.spec_topic_name_extracted()
            },
    {
        proof { use_type_invariant(&self); }
        if !self.topic_name_buf.is_empty() {
            return Err(MqttError::TopicNameInvalid);
        }
        let new_topic = MqttString::new(topic)?;
        if topic_has_wildcard(&new_topic) {
            return Err(MqttError::MalformedPacket);
        }
        let GenericPublish {
            fixed_header,
            remaining_length: _,
            topic_name_buf: _,
            packet_id_buf,
            property_length: _,
            mut props,
            payload_buf,
            topic_name_extracted,
        } = self;
        remove_topic_alias_props(&mut props);
        Ok(Self::assemble(fixed_header, new_topic, packet_id_buf, props, payload_buf, topic_name_extracted))
    }

    /// The packet without its TopicAlias property.
    pub fn remove_topic_alias(self) -> (r: Self)
        ensures
            r.spec_topic_name() == self.spec_topic_name(),
            r.spec_fixed_header() == self.spec_fixed_header(),
            r.spec_packet_id() == self.spec_packet_id(),
            r.spec_props() == props_without_topic_alias(self.spec_props()),
            r.spec_payload() == self.spec_payload(),
            r.spec_topic_name_extracted() == self.spec_topic_name_extracted(),
    {
        self.lemma_inv();
        proof {
            use_type_invariant(&self);
            lemma_without_topic_alias_len(self.spec_props());
        }
        let GenericPublish {
            fixed_header,
            remaining_length: _,
            topic_name_buf,
            packet_id_buf,
            property_length: _,
            mut props,
            payload_buf,
            topic_name_extracted,
        } = self;
        remove_topic_alias_props(&mut props);
        Self::assemble(fixed_header, topic_name_buf, packet_id_buf, props, payload_buf, topic_name_extracted)
    }

    /// Sets the topic name restored from a topic alias and marks it as such:
    /// `TopicNameInvalid` when the packet already has a topic name,
    /// `MalformedPacket` when `topic` holds `#` or `+` or its UTF-8 encoding is
    /// longer than 65,535 bytes.
    pub fn add_extracted_topic_name(self, topic: &str) -> (r: Result<Self, MqttError>)
        requires
            self.spec_topic_name().len() == 0 && !has_wildcard(topic@) && topic.spec_bytes().len()
                <= 65535 ==> publish_body_len::<PacketIdType>(
                topic.spec_bytes().len(),
                self.spec_packet_id() is Some,
                props_bytes(self.spec_props()).len(),
                self.spec_payload().len(),
            ) <= VBI_MAX,
        ensures
            self.spec_topic_name().len() != 0 ==> r == Err::<Self, MqttError>(MqttError::TopicNameInvalid),
            self.spec_topic_name().len() == 0 ==> (r is Ok <==> (!has_wildcard(topic@)
                && topic.spec_bytes().len() <= 65535)),
            self.spec_topic_name().len() == 0 && r is Err ==> r == Err::<Self, MqttError>(
                MqttError::MalformedPacket,
            ),
            r matches Ok(p) ==> {
                &&& p.spec_topic_name() == topic@
                &&& p.spec_fixed_header() == self.spec_fixed_header()
                &&& p.spec_packet_id() == self.spec_packet_id()
                &&& p.spec_props() == self.spec_props()
                &&& p.spec_payload() == self.spec_payload()
                &&& p.spec_topic_name_extracted()
            },
    {
        proof { use_type_invariant(&self); }
        if !self.topic_name_buf.is_empty() {
            return Err(MqttError::TopicNameInvalid);
        }
        let new_topic = MqttString::new(topic)?;
        if topic_has_wildcard(&new_topic) {
            return Err(MqttError::MalformedPacket);
        }
        let GenericPublish {
            fixed_header,
            remaining_length: _,
            topic_name_buf: _,
            packet_id_buf,
            property_length: _,
            props,
            payload_buf,
            topic_name_extracted: _,
        } = self;
        Ok(Self::assemble(fixed_header, new_topic, packet_id_buf, props, payload_buf, true))
    }

    /// Empties the topic name and sets the TopicAlias property to `topic_alias`.
    pub fn remove_topic_add_topic_alias(self, topic_alias: u16) -> (r: Self)
        requires
            topic_alias != 0,
            publish_body_len::<PacketIdType>(
                0,
                self.spec_packet_id() is Some,
                props_bytes(props_without_topic_alias(self.spec_props())).len() + 3,
                self.spec_payload().len(),
            ) <= VBI_MAX,
        ensures
            r.spec_topic_name().len() == 0,
            r.spec_fixed_header() == self.spec_fixed_header(),
            r.spec_packet_id() == self.spec_packet_id(),
            r.spec_props().drop_last() == props_without_topic_alias(self.spec_props()),
            r.spec_props().last() matches Property::TopicAlias(t) && t.spec_val() == topic_alias,
            r.spec_props().len() > 0,
            r.spec_payload() == self.spec_payload(),
            r.spec_topic_name_extracted() == self.spec_topic_name_extracted(),
    {
        proof { use_type_invariant(&self); }
        let GenericPublish {
            fixed_header,
            remaining_length: _,
            topic_name_buf: _,
            packet_id_buf,
            property_length: _,
            props,
            payload_buf,
            topic_name_extracted,
        } = self;
        let empty = MqttString::default();
        Self::with_topic_alias(fixed_header, empty, packet_id_buf, props, payload_buf, topic_name_extracted, topic_alias)
    }

    /// Sets the TopicAlias property to `topic_alias`, replacing any there was.
    pub fn add_topic_alias(self, topic_alias: u16) -> (r: Self)
        requires
            topic_alias != 0,
            publish_body_len::<PacketIdType>(
                self.spec_topic_bytes().len(),
                self.spec_packet_id() is Some,
                props_bytes(props_without_topic_alias(self.spec_props())).len() + 3,
                self.spec_payload().len(),
            ) <= VBI_MAX,
        ensures
            r.spec_topic_name() == self.spec_topic_name(),
            r.spec_fixed_header() == self.spec_fixed_header(),
            r.spec_packet_id() == self.spec_packet_id(),
            r.spec_props().drop_last() == props_without_topic_alias(self.spec_props()),
            r.spec_props().last() matches Property::TopicAlias(t) && t.spec_val() == topic_alias,
            r.spec_props().len() > 0,
            r.spec_payload() == self.spec_payload(),
            r.spec_topic_name_extracted() == self.spec_topic_name_extracted(),
    {
        proof { use_type_invariant(&self); }
        let GenericPublish {
            fixed_header,
            remaining_length: _,
            topic_name_buf,
            packet_id_buf,
            property_length: _,
            props,
            payload_buf,
            topic_name_extracted,
        } = self;
        Self::with_topic_alias(fixed_header, topic_name_buf, packet_id_buf, props, payload_buf, topic_name_extracted, topic_alias)
    }

    fn with_topic_alias(
        fixed_header: u8,
        topic_name_buf: MqttString,
        packet_id_buf: Option<PacketIdType>,
        props: Properties,
        payload_buf: Vec<u8>,
        topic_name_extracted: bool,
        topic_alias: u16,
    ) -> (r: Self)
        requires
            topic_alias != 0,
            valid_publish_header(fixed_header),
            header_qos(fixed_header) != 0 <==> packet_id_buf is Some,
            topic_name_buf.wf(),
            publish_body_len::<PacketIdType>(
                topic_name_buf.bytes().len(),
                packet_id_buf is Some,
                props_bytes(props_without_topic_alias(props@)).len() + 3,
                payload_buf@.len(),
            ) <= VBI_MAX,
        ensures
            r.spec_topic_name() == topic_name_buf@,
            r.spec_topic_bytes() == topic_name_buf.bytes(),
            r.spec_fixed_header() == fixed_header,
            r.spec_packet_id() == packet_id_buf,
            r.spec_props().drop_last() == props_without_topic_alias(props@),
            r.spec_props().last() matches Property::TopicAlias(t) && t.spec_val() == topic_alias,
            r.spec_props().len() > 0,
            r.spec_payload() == payload_buf@,
            r.spec_topic_name_extracted() == topic_name_extracted,
    {
        let mut props = props;
        remove_topic_alias_props(&mut props);
        let ghost kept = props@;
        let ta = TopicAlias::new(topic_alias).unwrap();
        let _ = ta.size();
        let ghost tp = Property::TopicAlias(ta);
        props.push(Property::TopicAlias(ta));
        proof {
            lemma_props_bytes_push(kept, tp);
            assert(props@.drop_last() =~= kept);
        }
        Self::assemble(fixed_header, topic_name_buf, packet_id_buf, props, payload_buf, topic_name_extracted)
    }


    /// Size of the properties once the TopicAlias ones are removed.
    pub fn props_size_without_topic_alias(&self) -> (r: usize)
        ensures
            r == props_bytes(props_without_topic_alias(self.spec_props())).len(),
            r <= VBI_MAX,
    {
        self.lemma_inv();
        let ghost ps = self.props@;
        proof { lemma_without_topic_alias_len(ps); }
        let mut total: usize = 0;
        let mut i: usize = 0;
        while i < self.props.len()
            invariant
                i <= ps.len(),
                ps == self.props@,
                total == props_bytes(props_without_topic_alias(ps.take(i as int))).len(),
                props_bytes(props_without_topic_alias(ps)).len() <= VBI_MAX,
            decreases ps.len() - i,
        {
            proof {
                assert(ps.take(i + 1).drop_last() =~= ps.take(i as int));
                assert(ps.take(i + 1).last() == ps[i as int]);
                lemma_props_bytes_push(props_without_topic_alias(ps.take(i as int)), ps[i as int]);
                lemma_without_prefix_len(ps, (i + 1) as nat);
            }
            if self.props[i].id() != PropertyId::TopicAlias {
                total = total + self.props[i].size();
            }
            i = i + 1;
        }
        assert(ps.take(i as int) =~= ps);
        total
    }

    /// Remaining length the packet would have with a topic name of
    /// `topic_len` bytes and properties of `props_len` bytes.
    pub fn body_len_with(&self, topic_len: usize, props_len: usize) -> (r: u64)
        requires
            topic_len <= 65535,
            props_len <= VBI_MAX,
        ensures
            r == publish_body_len::<PacketIdType>(
                topic_len as nat,
                self.spec_packet_id() is Some,
                props_len as nat,
                self.spec_payload().len(),
            ),
    {
        self.lemma_inv();
        let mut n: u64 = topic_len as u64 + 2;
        if let Some(_) = self.packet_id_buf {
            n = n + PacketIdType::width() as u64;
        }
        let vs = VariableByteInteger::from_u32(props_len as u32).unwrap().size();
        n = n + vs as u64 + props_len as u64 + self.payload_buf.len() as u64;
        n
    }

    /// Total size of the packet in bytes.
    pub fn size(&self) -> (r: usize)
        ensures
            r == self.spec_bytes().len(),
            r == 1 + vbi_size(self.spec_remaining_length()) + self.spec_remaining_length(),
    {
        proof { use_type_invariant(self); }
        let rl = self.remaining_length.to_u32();
        proof {
            lemma_vbi_roundtrip(self.remaining_length@, Seq::<u8>::empty());
        }
        1 + self.remaining_length.size() + rl as usize
    }

    /// The encoded packet.
    pub fn to_continuous_buffer(&self) -> (r: Vec<u8>)
        ensures
            r@ == self.spec_bytes(),
            valid_publish_header(self.spec_fixed_header()),
    {
        proof { use_type_invariant(self); }
        let mut buf: Vec<u8> = Vec::new();
        buf.push(self.fixed_header);
        let rl = self.remaining_length.to_continuous_buffer();
        append_bytes(&mut buf, rl.as_slice());
        append_bytes(&mut buf, self.topic_name_buf.as_bytes());
        let ghost before_pid = buf@;
        if let Some(id) = &self.packet_id_buf {
            let b = id.to_buffer();
            append_bytes(&mut buf, b.as_slice());
        }
        assert(buf@ =~= before_pid + opt_pid_bytes(self.packet_id_buf));
        let pl = self.property_length.to_continuous_buffer();
        append_bytes(&mut buf, pl.as_slice());
        let pb = self.props.to_continuous_buffer();
        append_bytes(&mut buf, pb.as_slice());
        append_bytes(&mut buf, self.payload_buf.as_slice());
        assert(buf@ =~= self.spec_bytes());
        buf
    }

    /// A copy of the packet.
    pub fn duplicate(&self) -> (r: Self)
        ensures
            r.spec_fixed_header() == self.spec_fixed_header(),
            r.spec_topic_name() == self.spec_topic_name(),
            r.spec_topic_bytes() == self.spec_topic_bytes(),
            r.spec_packet_id() == self.spec_packet_id(),
            props_bytes(r.spec_props()) == props_bytes(self.spec_props()),
            prop_ids(r.spec_props()) == prop_ids(self.spec_props()),
            first_topic_alias(r.spec_props()) == first_topic_alias(self.spec_props()),
            r.spec_payload() == self.spec_payload(),
            r.spec_topic_name_extracted() == self.spec_topic_name_extracted(),
            r.spec_body() == self.spec_body(),
            r.spec_remaining_length() == self.spec_remaining_length(),
    {
        self.lemma_inv();
        proof { use_type_invariant(self); }
        let mut props: Properties = Vec::new();
        let mut i: usize = 0;
        while i < self.props.len()
            invariant
                i <= self.props@.len(),
                props@.len() == i,
                forall|k: int| 0 <= k < i ==> (#[trigger] props@[k]).spec_bytes() == self.props@[k].spec_bytes()
                    && props@[k].spec_id() == self.props@[k].spec_id()
                    && (props@[k] is TopicAlias <==> self.props@[k] is TopicAlias)
                    && (props@[k] matches Property::TopicAlias(t) ==> self.props@[k] matches Property::TopicAlias(u) && t.spec_val() == u.spec_val()),
            decreases self.props@.len() - i,
        {
            let p = match &self.props[i] {
                Property::TopicAlias(t) => Property::TopicAlias(*t),
                other => other.duplicate(),
            };
            props.push(p);
            i = i + 1;
        }
        proof {
            lemma_same_encodings(props@, self.props@);
        }
        let r = Self::assemble(
            self.fixed_header,
            self.topic_name_buf.duplicate(),
            self.packet_id_buf,
            props,
            copy_bytes(self.payload_buf.as_slice()),
            self.topic_name_extracted,
        );
        proof { use_type_invariant(&r); }
        r
    }

    /// Parses the variable header and payload of a PUBLISH packet whose fixed
    /// header carries `flags`; the whole of `data` is taken.
    pub fn parse(flags: u8, data: &[u8]) -> (r: Result<(Self, usize), MqttError>)
        requires
            data@.len() <= VBI_MAX,
        ensures
            r is Ok <==> publish_result::<PacketIdType>(flags, data@) is Ok,
            r matches Err(e) ==> publish_result::<PacketIdType>(flags, data@) == Err::<nat, MqttError>(e),
            r matches Ok((p, n)) ==> {
                let c = topic_pid_result::<PacketIdType>(flags, data@)->Ok_0;
                let rest = data@.subrange(c as int, data@.len() as int);
                &&& n == data@.len()
                &&& p.spec_fixed_header() == (0x30u8 | (flags & 0x0fu8))
                &&& p.spec_topic_encoded() + opt_pid_bytes(p.spec_packet_id()) == data@.subrange(0, c as int)
                &&& !p.spec_topic_name_extracted()
                &&& props_inv(p.spec_props())
                &&& c == data@.len() ==> p.spec_props().len() == 0 && p.spec_payload().len() == 0
                &&& c < data@.len() ==> {
                    let m = props_result(rest)->Ok_0;
                    &&& props_parsed_upto(p.spec_props(), props_region(rest), props_region(rest).len())
                    &&& p.spec_payload() == rest.subrange(m as int, rest.len() as int)
                }
            },
    {
        let (topic_name_buf, packet_id_buf, cursor) = parse_topic_and_pid::<PacketIdType>(flags, data)?;
        let fixed_header = publish_header_from_flags(flags);
        if cursor < data.len() {
            let rest = tail(data, cursor);
            let (props, consumed) = Properties::parse(rest)?;
            proof {
                lemma_region_ids(props@, props_region(rest@), props_region(rest@).len());
            }
            validate_publish_properties(&props)?;
            proof {
                lemma_props_list_reencoded_size(props, rest@);
                topic_name_buf.lemma_encoded();
                if let Some(id) = packet_id_buf {
                    lemma_pid_roundtrip(id);
                }
            }
            let payload_buf = copy_bytes(tail(rest, consumed));
            proof {
                let c = cursor as nat;
                assert(topic_name_buf.encoded() + opt_pid_bytes(packet_id_buf) == data@.subrange(0, cursor as int));
                assert((topic_name_buf.encoded() + opt_pid_bytes(packet_id_buf)).len() == c);
                assert(topic_name_buf.encoded().len() == topic_name_buf.bytes().len() + 2);
                assert(opt_pid_bytes(packet_id_buf).len() == if packet_id_buf is Some { PacketIdType::spec_width() } else { 0 });
                assert(topic_name_buf.encoded().len() + opt_pid_bytes(packet_id_buf).len() == c);
                assert(consumed as nat == props_result(rest@)->Ok_0);
                assert(vbi_size(props_bytes(props@).len()) + props_bytes(props@).len() <= consumed);
                assert(payload_buf@.len() == rest@.len() - consumed);
                assert(rest@.len() == data@.len() - c);
            }
            let p = Self::assemble(fixed_header, topic_name_buf, packet_id_buf, props, payload_buf, false);
            proof { assert(p.spec_props() == props@); }
            Ok((p, data.len()))
        } else {
            proof {
                topic_name_buf.lemma_encoded();
                if let Some(id) = packet_id_buf {
                    lemma_pid_roundtrip(id);
                }
            }
            let p = Self::assemble(fixed_header, topic_name_buf, packet_id_buf, Vec::new(), Vec::new(), false);
            Ok((p, data.len()))
        }
    }
}

proof fn lemma_same_encodings(a: Seq<Property>, b: Seq<Property>)
    requires
        a.len() == b.len(),
        forall|k: int| 0 <= k < a.len() ==> (#[trigger] a[k]).spec_bytes() == b[k].spec_bytes()
            && a[k].spec_id() == b[k].spec_id()
            && (a[k] is TopicAlias <==> b[k] is TopicAlias)
            && (a[k] matches Property::TopicAlias(t) ==> b[k] matches Property::TopicAlias(u) && t.spec_val() == u.spec_val()),
    ensures
        props_bytes(a) == props_bytes(b),
        prop_ids(a) == prop_ids(b),
        first_topic_alias(a) == first_topic_alias(b),
    decreases a.len(),
{
    if a.len() > 0 {
        assert(forall|k: int| 0 <= k < a.drop_first().len() ==> a.drop_first()[k] == a[k + 1]);
        assert(forall|k: int| 0 <= k < b.drop_first().len() ==> b.drop_first()[k] == b[k + 1]);
        lemma_same_encodings(a.drop_first(), b.drop_first());
        assert(a[0].spec_bytes() == b[0].spec_bytes());
    }
    assert(prop_ids(a) =~= prop_ids(b));
}

impl<PacketIdType: IsPacketId> Clone for GenericPublish<PacketIdType> {
    fn clone(&self) -> (r: Self)
        ensures
            r.spec_fixed_header() == self.spec_fixed_header(),
            r.spec_topic_name() == self.spec_topic_name(),
            r.spec_packet_id() == self.spec_packet_id(),
            props_bytes(r.spec_props()) == props_bytes(self.spec_props()),
            r.spec_payload() == self.spec_payload(),
            r.spec_body() == self.spec_body(),
    {
        self.duplicate()
    }
}

/// What a `GenericPublishBuilder` has been given so far.
pub ghost struct PublishBuilderView<PacketIdType> {
    pub fixed_header: Option<u8>,
    pub topic_name: Option<Seq<char>>,
    pub packet_id: Option<PacketIdType>,
    pub props: Option<Seq<Property>>,
    pub payload: Option<Seq<u8>>,
}

impl<PacketIdType> PublishBuilderView<PacketIdType> {
    /// The fixed header given, or that of a QoS 0 PUBLISH without flags.
    pub open spec fn header_or_default(self) -> u8 {
        match self.fixed_header {
            Some(h) => h,
            None => 0x30u8,
        }
    }

    pub open spec fn empty() -> Self {
        PublishBuilderView { fixed_header: None, topic_name: None, packet_id: None, props: None, payload: None }
    }

    /// Whether the properties given hold a TopicAlias.
    pub open spec fn has_topic_alias(self) -> bool {
        self.props matches Some(ps) && prop_ids(ps).contains(PropertyId::TopicAlias)
    }
}

/// The error that `build` reports for what the builder was given, if any.
pub open spec fn publish_build_error<P: IsPacketId>(v: PublishBuilderView<P>) -> Option<MqttError> {
    if v.props matches Some(ps) && !ids_ok(prop_ids(ps), PropertySet::Publish) {
        Some(MqttError::ProtocolError)
    } else if (v.topic_name is None || v.topic_name.unwrap().len() == 0) && !v.has_topic_alias() {
        Some(MqttError::MalformedPacket)
    } else if v.fixed_header is Some && header_qos(v.fixed_header.unwrap()) == 3 {
        Some(MqttError::MalformedPacket)
    } else if v.fixed_header is Some && header_qos(v.fixed_header.unwrap()) == 0 && v.packet_id is Some {
        Some(MqttError::MalformedPacket)
    } else if v.fixed_header is Some && header_qos(v.fixed_header.unwrap()) != 0 && v.packet_id is None {
        Some(MqttError::MalformedPacket)
    } else if v.fixed_header is Some && header_qos(v.fixed_header.unwrap()) != 0
        && v.packet_id.unwrap().spec_value() == 0 {
        Some(MqttError::MalformedPacket)
    } else if v.fixed_header is None && v.packet_id is Some {
        Some(MqttError::MalformedPacket)
    } else if v.payload is Some && v.payload.unwrap().len() > VBI_MAX {
        Some(MqttError::MalformedPacket)
    } else {
        None
    }
}

/// Builder of a v5.0 PUBLISH packet.
#[derive(Debug)]
pub struct GenericPublishBuilder<PacketIdType: IsPacketId> {
    fixed_header: Option<u8>,
    topic_name_buf: Option<MqttString>,
    packet_id_buf: Option<PacketIdType>,
    props: Option<Properties>,
    payload_buf: Option<Vec<u8>>,
}

/// Builder of a PUBLISH with `u16` packet identifiers.
pub type PublishBuilder = GenericPublishBuilder<u16>;

impl<PacketIdType: IsPacketId> View for GenericPublishBuilder<PacketIdType> {
    type V = PublishBuilderView<PacketIdType>;

    closed spec fn view(&self) -> PublishBuilderView<PacketIdType> {
        PublishBuilderView {
            fixed_header: self.fixed_header,
            topic_name: match self.topic_name_buf {
                Some(t) => Some(t@),
                None => None,
            },
            packet_id: self.packet_id_buf,
            props: match self.props {
                Some(p) => Some(p@),
                None => None,
            },
            payload: match self.payload_buf {
                Some(p) => Some(p@),
                None => None,
            },
        }
    }
}

impl<PacketIdType: IsPacketId> Default for GenericPublishBuilder<PacketIdType> {
    fn default() -> (r: Self)
        ensures
            r@ == PublishBuilderView::<PacketIdType>::empty(),
            r.spec_topic_len() == 0,
    {
        GenericPublishBuilder { fixed_header: None, topic_name_buf: None, packet_id_buf: None, props: None, payload_buf: None }
    }
}

impl<PacketIdType: IsPacketId> GenericPublishBuilder<PacketIdType> {
    #[verifier::type_invariant]
    closed spec fn inv(self) -> bool {
        &&& (self.topic_name_buf matches Some(t) ==> t.wf())
        &&& (self.fixed_header matches Some(h) ==> h & 0xf0u8 == 0x30u8)
    }

    /// Length of the UTF-8 topic name given so far (0 when none).
    pub closed spec fn spec_topic_len(self) -> nat {
        match self.topic_name_buf {
            Some(t) => t.bytes().len(),
            None => 0,
        }
    }

    /// Sets the topic name: `MalformedPacket` when it holds `#` or `+`, or
    /// when its UTF-8 encoding is longer than 65,535 bytes.
    pub fn topic_name(self, topic: &str) -> (r: Result<Self, MqttError>)
        ensures
            r is Ok <==> (topic.spec_bytes().len() <= 65535 && !has_wildcard(topic@)),
            r matches Ok(b) ==> b@ == (PublishBuilderView { topic_name: Some(topic@), ..self@ })
                && b.spec_topic_len() == topic.spec_bytes().len(),
            r matches Err(e) ==> e == MqttError::MalformedPacket,
    {
        proof { use_type_invariant(&self); }
        let mqtt_str = MqttString::new(topic)?;
        if topic_has_wildcard(&mqtt_str) {
            return Err(MqttError::MalformedPacket);
        }
        let GenericPublishBuilder { fixed_header, topic_name_buf: _, packet_id_buf, props, payload_buf } = self;
        let b = GenericPublishBuilder { fixed_header, topic_name_buf: Some(mqtt_str), packet_id_buf, props, payload_buf };
        assert(b@ =~= (PublishBuilderView { topic_name: Some(topic@), ..self@ }));
        Ok(b)
    }

    /// Sets the QoS level.
    pub fn qos(self, qos: Qos) -> (r: Self)
        ensures
            r@ == (PublishBuilderView {
                fixed_header: Some((self@.header_or_default() & 0xf9u8) | (qos.spec_to_u8() << 1u8)),
                ..self@
            }),
            header_qos(r@.fixed_header.unwrap()) == qos.spec_to_u8(),
            r.spec_topic_len() == self.spec_topic_len(),
    {
        proof { use_type_invariant(&self); }
        let GenericPublishBuilder { fixed_header, topic_name_buf, packet_id_buf, props, payload_buf } = self;
        let header = match fixed_header {
            Some(h) => h,
            None => 0x30u8,
        };
        assert(0x30u8 & 0xf0u8 == 0x30u8) by (bit_vector);
        let h = header_with_qos(header, qos);
        GenericPublishBuilder { fixed_header: Some(h), topic_name_buf, packet_id_buf, props, payload_buf }
    }

    /// Sets the DUP flag.
    pub fn dup(self, dup: bool) -> (r: Self)
        ensures
            r@ == (PublishBuilderView {
                fixed_header: Some(
                    if dup {
                        self@.header_or_default() | 8u8
                    } else {
                        self@.header_or_default() & 0xf7u8
                    },
                ),
                ..self@
            }),
            r.spec_topic_len() == self.spec_topic_len(),
    {
        proof { use_type_invariant(&self); }
        let GenericPublishBuilder { fixed_header, topic_name_buf, packet_id_buf, props, payload_buf } = self;
        let header = match fixed_header {
            Some(h) => h,
            None => 0x30u8,
        };
        assert(0x30u8 & 0xf0u8 == 0x30u8) by (bit_vector);
        let h = header_with_dup(header, dup);
        GenericPublishBuilder { fixed_header: Some(h), topic_name_buf, packet_id_buf, props, payload_buf }
    }

    /// Sets the RETAIN flag.
    pub fn retain(self, retain: bool) -> (r: Self)
        ensures
            r@ == (PublishBuilderView {
                fixed_header: Some(
                    if retain {
                        self@.header_or_default() | 1u8
                    } else {
                        self@.header_or_default() & 0xfeu8
                    },
                ),
                ..self@
            }),
            r.spec_topic_len() == self.spec_topic_len(),
    {
        proof { use_type_invariant(&self); }
        let GenericPublishBuilder { fixed_header, topic_name_buf, packet_id_buf, props, payload_buf } = self;
        let header = match fixed_header {
            Some(h) => h,
            None => 0x30u8,
        };
        assert(0x30u8 & 0xf0u8 == 0x30u8) by (bit_vector);
        let h = header_with_retain(header, retain);
        GenericPublishBuilder { fixed_header: Some(h), topic_name_buf, packet_id_buf, props, payload_buf }
    }

    /// Sets the packet identifier.
    pub fn packet_id(self, id: PacketIdType) -> (r: Self)
        ensures
            r@ == (PublishBuilderView { packet_id: Some(id), ..self@ }),
            r.spec_topic_len() == self.spec_topic_len(),
    {
        proof { use_type_invariant(&self); }
        let GenericPublishBuilder { fixed_header, topic_name_buf, packet_id_buf: _, props, payload_buf } = self;
        GenericPublishBuilder { fixed_header, topic_name_buf, packet_id_buf: Some(id), props, payload_buf }
    }

    /// Sets the properties.
    pub fn props(self, props: Properties) -> (r: Self)
        ensures
            r@ == (PublishBuilderView { props: Some(props@), ..self@ }),
            r.spec_topic_len() == self.spec_topic_len(),
    {
        proof { use_type_invariant(&self); }
        let GenericPublishBuilder { fixed_header, topic_name_buf, packet_id_buf, props: _, payload_buf } = self;
        GenericPublishBuilder { fixed_header, topic_name_buf, packet_id_buf, props: Some(props), payload_buf }
    }

    /// Sets the payload.
    pub fn payload(self, data: &[u8]) -> (r: Self)
        ensures
            r@ == (PublishBuilderView { payload: Some(data@), ..self@ }),
            r.spec_topic_len() == self.spec_topic_len(),
    {
        proof { use_type_invariant(&self); }
        let GenericPublishBuilder { fixed_header, topic_name_buf, packet_id_buf, props, payload_buf: _ } = self;
        GenericPublishBuilder { fixed_header, topic_name_buf, packet_id_buf, props, payload_buf: Some(copy_bytes(data)) }
    }

    fn validate(&self) -> (r: Result<(), MqttError>)
        ensures
            r is Ok <==> publish_build_error(self@) is None,
            r matches Err(e) ==> publish_build_error(self@) == Some(e),
    {
        proof { use_type_invariant(self); }
        let has_alias = match &self.props {
            Some(ps) => {
                let v = validate_publish_properties(ps)?;
                v == PropertyValidation::ValidWithTopicAlias
            },
            None => false,
        };
        match &self.topic_name_buf {
            None => {
                if !has_alias {
                    return Err(MqttError::MalformedPacket);
                }
            },
            Some(t) => {
                if t.is_empty() && !has_alias {
                    return Err(MqttError::MalformedPacket);
                }
            },
        }
        match self.fixed_header {
            Some(h) => {
                let qos_value = (h >> 1u8) & 3u8;
                if qos_value == 3 {
                    return Err(MqttError::MalformedPacket);
                }
                if qos_value == 0 {
                    if self.packet_id_buf.is_some() {
                        return Err(MqttError::MalformedPacket);
                    }
                } else {
                    match self.packet_id_buf {
                        None => return Err(MqttError::MalformedPacket),
                        Some(id) => {
                            if id.value() == 0 {
                                return Err(MqttError::MalformedPacket);
                            }
                        },
                    }
                }
            },
            None => {
                if self.packet_id_buf.is_some() {
                    return Err(MqttError::MalformedPacket);
                }
            },
        }
        if let Some(p) = &self.payload_buf {
            if p.len() > 268435455 {
                return Err(MqttError::MalformedPacket);
            }
        }
        Ok(())
    }

    /// The packet; the error that `publish_build_error` gives, if any.
    pub fn build(self) -> (r: Result<GenericPublish<PacketIdType>, MqttError>)
        requires
            publish_build_error(self@) is None ==> publish_body_len::<PacketIdType>(
                self.spec_topic_len(),
                self@.packet_id is Some,
                props_bytes(self@.props.unwrap_or(Seq::<Property>::empty())).len(),
                self@.payload.unwrap_or(Seq::<u8>::empty()).len(),
            ) <= VBI_MAX,
        ensures
            r is Ok <==> publish_build_error(self@) is None,
            r matches Err(e) ==> publish_build_error(self@) == Some(e),
            r matches Ok(p) ==> {
                &&& p.spec_fixed_header() == self@.header_or_default()
                &&& p.spec_topic_name() == self@.topic_name.unwrap_or(Seq::<char>::empty())
                &&& p.spec_packet_id() == self@.packet_id
                &&& p.spec_props() == self@.props.unwrap_or(Seq::<Property>::empty())
                &&& p.spec_payload() == self@.payload.unwrap_or(Seq::<u8>::empty())
                &&& !p.spec_topic_name_extracted()
            },
    {
        self.validate()?;
        proof { use_type_invariant(&self); }
        let GenericPublishBuilder { fixed_header, topic_name_buf, packet_id_buf, props, payload_buf } = self;
        let topic_name_buf = match topic_name_buf {
            Some(t) => t,
            None => MqttString::default(),
        };
        let fixed_header = match fixed_header {
            Some(h) => h,
            None => 0x30u8,
        };
        let props = match props {
            Some(p) => p,
            None => Vec::new(),
        };
        let payload_buf = match payload_buf {
            Some(p) => p,
            None => Vec::new(),
        };
        proof {
            assert(header_qos(0x30u8) == 0 && 0x30u8 & 0xf0u8 == 0x30u8) by (bit_vector);
        }
        Ok(GenericPublish::assemble(fixed_header, topic_name_buf, packet_id_buf, props, payload_buf, false))
    }
}


/// Parsing what a v5.0 PUBLISH encodes gives it back: the body of a packet
/// whose properties are well formed and allowed in a PUBLISH, parsed with
/// the flags of its fixed header, is taken whole; the fixed header is
/// rebuilt from those flags, and the properties parsed are those encoded.
#[verifier::spinoff_prover]
#[verifier::rlimit(100)]
pub proof fn lemma_publish_roundtrip<P: IsPacketId>(p: GenericPublish<P>)
    requires
        p.inv(),
        props_inv(p.spec_props()),
        ids_ok(prop_ids(p.spec_props()), PropertySet::Publish),
        props_bytes(p.spec_props()).len() <= VBI_MAX,
    ensures
        publish_result::<P>(p.spec_fixed_header() & 0x0fu8, p.spec_body()) == Ok::<nat, MqttError>(p.spec_body().len()),
        (0x30u8 | ((p.spec_fixed_header() & 0x0fu8) & 0x0fu8)) == p.spec_fixed_header(),
{
    let h = p.spec_fixed_header();
    let f = h & 0x0fu8;
    assert(header_qos(f) == header_qos(h) && (0x30u8 | (f & 0x0fu8)) == h) by (bit_vector)
        requires
            f == h & 0x0fu8,
            h & 0xf0u8 == 0x30u8,
    ;
    p.topic_name_buf.lemma_encoded();
    let t = p.topic_name_buf.bytes();
    let ps = p.props@;
    let l = props_bytes(ps).len();
    let tail_props = vbi_encode(l) + props_bytes(ps) + p.payload_buf@;
    let rest = opt_pid_bytes(p.packet_id_buf) + tail_props;
    crate::packet::mqtt_binary::lemma_length_prefixed_roundtrip(t, rest);
    let d = p.spec_body();
    assert(d =~= crate::packet::mqtt_binary::length_prefixed(t) + rest);
    if let Some(id) = p.packet_id_buf {
        lemma_pid_roundtrip(id);
    }
    let c = topic_pid_result::<P>(f, d)->Ok_0;
    assert(c == 2 + t.len() + opt_pid_bytes(p.packet_id_buf).len());
    assert(d.subrange(c as int, d.len() as int) =~= tail_props);
    crate::packet::property::lemma_props_list_roundtrip(ps, p.payload_buf@);
    lemma_vbi_roundtrip(l, props_bytes(ps) + p.payload_buf@);
    lemma_region_ids(ps, props_bytes(ps), l);
}

} // verus!
