use vstd::prelude::*;
use vstd::string::StringSliceAdditionalSpecFns;
use crate::packet::bytes::{append_bytes, be16_value, lemma_be16_of_value, lemma_be16_roundtrip, tail, u16_from_be, u16_to_be};
use crate::packet::connect_common::{
    client_id_result, connect_header_result, credentials_result, flag_clean, flag_password,
    flag_user_name, flag_will, flag_will_qos, flag_will_retain, opt_bytes, parse_client_id,
    parse_connect_header, parse_credentials, parse_will_fields, protocol_name_bytes, skip_bytes,
    will_fields_result,
};
use crate::packet::error::MqttError;
use crate::packet::mqtt_binary::MqttBinary;
use crate::packet::mqtt_string::MqttString;
use crate::packet::packet_type::PacketType;
use crate::packet::property::{
    lemma_props_list_reencoded_size, props_bytes, props_inv, props_parsed_upto, props_region,
    props_result, Properties, PropertiesParse, PropertiesSize, PropertiesToContinuousBuffer, Property,
};
use crate::packet::property_check::{check_property_ids, ids_ok, lemma_region_ids, prop_ids, region_ids, PropertySet};
use crate::packet::qos::Qos;
use crate::packet::v3_1_1::connect::{flags_or_default, flags_or_zero, opt_bytes_val, opt_chars, opt_nat};
use crate::packet::variable_byte_integer::{lemma_vbi_roundtrip, vbi_encode, vbi_size, VariableByteInteger, VBI_MAX};

verus! {

/// Outcome of parsing a property list at `c` and checking it against the
/// rules of `set`: the position after it, or the error.
pub open spec fn props_at_result(d: Seq<u8>, c: nat, set: PropertySet) -> Result<nat, MqttError> {
    let rest = skip_bytes(d, c);
    match props_result(rest) {
        Err(e) => Err(e),
        Ok(n) => if ids_ok(region_ids(props_region(rest)), set) {
            Ok(c + n)
        } else {
            Err(MqttError::ProtocolError)
        },
    }
}

/// Outcome of parsing the will properties, topic and payload at `c` (when
/// the will flag is set).
pub open spec fn will_v5_result(d: Seq<u8>, flags: u8, c: nat) -> Result<nat, MqttError> {
    if flag_will(flags) {
        match props_at_result(d, c, PropertySet::Will) {
            Err(e) => Err(e),
            Ok(c1) => will_fields_result(d, flags, c1),
        }
    } else {
        Ok(c)
    }
}

/// Outcome of parsing the variable header and payload of a v5.0 CONNECT
/// packet from `d`: the number of bytes taken, or the error.
pub open spec fn connect_v5_result(d: Seq<u8>) -> Result<nat, MqttError> {
    match connect_header_result(d, 5) {
        Err(e) => Err(e),
        Ok(_) => match props_at_result(d, 10, PropertySet::Connect) {
            Err(e) => Err(e),
            Ok(c0) => match client_id_result(d, c0) {
                Err(e) => Err(e),
                Ok(c1) => match will_v5_result(d, d[7], c1) {
                    Err(e) => Err(e),
                    Ok(c2) => credentials_result(d, d[7], c2),
                },
            },
        },
    }
}

/// Where the CONNECT properties of `d` end.
pub open spec fn v5_props_end(d: Seq<u8>) -> nat {
    props_at_result(d, 10, PropertySet::Connect)->Ok_0
}

/// Where the client identifier of `d` ends.
pub open spec fn v5_client_id_end(d: Seq<u8>) -> nat {
    client_id_result(d, v5_props_end(d))->Ok_0
}

/// Where the will properties of `d` end (the client identifier's end when
/// there is no will).
pub open spec fn v5_will_props_end(d: Seq<u8>) -> nat {
    if flag_will(d[7]) {
        props_at_result(d, v5_client_id_end(d), PropertySet::Will)->Ok_0
    } else {
        v5_client_id_end(d)
    }
}

/// Where the will topic and payload of `d` end.
pub open spec fn v5_will_end(d: Seq<u8>) -> nat {
    will_fields_result(d, d[7], v5_will_props_end(d))->Ok_0
}

/// A property list with its length field.
pub open spec fn props_field(ps: Seq<Property>) -> Seq<u8> {
    vbi_encode(props_bytes(ps).len()) + props_bytes(ps)
}

/// Variable header and payload of a v5.0 CONNECT packet with flags `f`:
/// every field, the optional ones when their flag is set.
pub open spec fn connect_v5_body(
    f: u8,
    keep_alive: Seq<u8>,
    props: Seq<Property>,
    client_id: Seq<u8>,
    will_props: Seq<Property>,
    will_topic: Seq<u8>,
    will_payload: Seq<u8>,
    user_name: Seq<u8>,
    password: Seq<u8>,
) -> Seq<u8> {
    protocol_name_bytes() + seq![5u8] + seq![f] + keep_alive + props_field(props) + client_id
        + opt_bytes(flag_will(f), props_field(will_props) + will_topic + will_payload) + opt_bytes(
        flag_user_name(f),
        user_name,
    ) + opt_bytes(flag_password(f), password)
}

/// Remaining length of a v5.0 CONNECT packet: the length of its body.
pub open spec fn connect_v5_body_len(
    f: u8,
    props_len: nat,
    client_id_len: nat,
    will_props_len: nat,
    will_topic_len: nat,
    will_payload_len: nat,
    user_name_len: nat,
    password_len: nat,
) -> nat {
    10 + vbi_size(props_len) + props_len + client_id_len + (if flag_will(f) {
        vbi_size(will_props_len) + will_props_len + will_topic_len + will_payload_len
    } else {
        0
    }) + (if flag_user_name(f) {
        user_name_len
    } else {
        0
    }) + (if flag_password(f) {
        password_len
    } else {
        0
    })
}

/// Length of a v5.0 CONNECT body, from the lengths of its fields.
pub proof fn lemma_connect_v5_body_len(
    f: u8,
    keep_alive: Seq<u8>,
    props: Seq<Property>,
    client_id: Seq<u8>,
    will_props: Seq<Property>,
    will_topic: Seq<u8>,
    will_payload: Seq<u8>,
    user_name: Seq<u8>,
    password: Seq<u8>,
)
    requires
        keep_alive.len() == 2,
        props_bytes(props).len() <= VBI_MAX,
        props_bytes(will_props).len() <= VBI_MAX,
    ensures
        connect_v5_body(f, keep_alive, props, client_id, will_props, will_topic, will_payload, user_name, password).len()
            == connect_v5_body_len(
            f,
            props_bytes(props).len(),
            client_id.len(),
            props_bytes(will_props).len(),
            will_topic.len(),
            will_payload.len(),
            user_name.len(),
            password.len(),
        ),
{
    lemma_vbi_roundtrip(props_bytes(props).len(), Seq::<u8>::empty());
    lemma_vbi_roundtrip(props_bytes(will_props).len(), Seq::<u8>::empty());
}

/// The string given, or the empty one.
fn string_or_empty(o: Option<MqttString>) -> (r: MqttString)
    requires
        o matches Some(s) ==> s.wf(),
    ensures
        r.wf(),
        o matches Some(s) ==> r == s,
        o is None ==> r.encoded().len() == 2 && r@ == Seq::<char>::empty(),
{
    match o {
        Some(s) => s,
        None => {
            let d = MqttString::default();
            proof { d.lemma_encoded(); }
            d
        },
    }
}

/// The binary data given, or the empty one.
fn binary_or_empty(o: Option<MqttBinary>) -> (r: MqttBinary)
    requires
        o matches Some(s) ==> s.wf(),
    ensures
        r.wf(),
        o matches Some(s) ==> r == s,
        o is None ==> r.encoded().len() == 2 && r@ == Seq::<u8>::empty(),
{
    match o {
        Some(s) => s,
        None => {
            let d = MqttBinary::default();
            proof { d.lemma_encoded(); }
            d
        },
    }
}

/// The property list given, or an empty one.
fn props_or_empty(o: Option<Properties>) -> (r: Properties)
    ensures
        r@ == match o {
            Some(p) => p@,
            None => Seq::<Property>::empty(),
        },
{
    match o {
        Some(p) => p,
        None => Vec::new(),
    }
}

/// Parses a property list at `cursor` and checks it against the rules of `set`.
fn parse_props_at(data: &[u8], cursor: usize, set: PropertySet) -> (r: Result<(Properties, usize), MqttError>)
    requires
        cursor <= data@.len(),
    ensures
        r is Ok <==> props_at_result(data@, cursor as nat, set) is Ok,
        r matches Err(e) ==> props_at_result(data@, cursor as nat, set) == Err::<nat, MqttError>(e),
        r matches Ok((ps, c)) ==> {
            let rest = skip_bytes(data@, cursor as nat);
            &&& props_at_result(data@, cursor as nat, set) == Ok::<nat, MqttError>(c as nat)
            &&& c <= data@.len()
            &&& props_inv(ps@)
            &&& props_parsed_upto(ps@, props_region(rest), props_region(rest).len())
            &&& vbi_size(props_bytes(ps@).len()) + props_bytes(ps@).len() <= c - cursor
        },
{
    let len = data.len();
    let rest = tail(data, cursor);
    let (props, consumed) = Properties::parse(rest)?;
    proof {
        lemma_region_ids(props@, props_region(rest@), props_region(rest@).len());
        lemma_props_list_reencoded_size(props, rest@);
    }
    check_property_ids(&props, set)?;
    assert(consumed <= rest@.len());
    assert(cursor + consumed <= len);
    Ok((props, cursor + consumed))
}

/// MQTT v5.0 CONNECT packet.
#[derive(PartialEq, Eq, Debug)]
pub struct Connect {
    fixed_header: [u8; 1],
    remaining_length: VariableByteInteger,
    protocol_name: [u8; 6],
    protocol_version_buf: [u8; 1],
    connect_flags_buf: [u8; 1],
    keep_alive_buf: [u8; 2],
    property_length: VariableByteInteger,
    props: Properties,
    client_id_buf: MqttString,
    will_property_length: VariableByteInteger,
    will_props: Properties,
    will_topic_buf: MqttString,
    will_payload_buf: MqttBinary,
    user_name_buf: MqttString,
    password_buf: MqttBinary,
}

impl Connect {
    #[verifier::type_invariant]
    pub closed spec fn inv(self) -> bool {
        &&& self.fixed_header@ == seq![0x10u8]
        &&& self.protocol_name@ == protocol_name_bytes()
        &&& self.protocol_version_buf@ == seq![5u8]
        &&& self.client_id_buf.wf()
        &&& self.will_topic_buf.wf()
        &&& self.will_payload_buf.wf()
        &&& self.user_name_buf.wf()
        &&& self.password_buf.wf()
        &&& self.property_length@ == props_bytes(self.props@).len()
        &&& self.will_property_length@ == props_bytes(self.will_props@).len()
    }

    pub closed spec fn spec_flags(self) -> u8 {
        self.connect_flags_buf@[0]
    }

    pub closed spec fn spec_keep_alive(self) -> nat {
        be16_value(self.keep_alive_buf@[0], self.keep_alive_buf@[1])
    }

    pub closed spec fn spec_props(self) -> Seq<Property> {
        self.props@
    }

    pub closed spec fn spec_will_props(self) -> Seq<Property> {
        self.will_props@
    }

    pub closed spec fn spec_client_id(self) -> Seq<char> {
        self.client_id_buf@
    }

    pub closed spec fn spec_client_id_encoded(self) -> Seq<u8> {
        self.client_id_buf.encoded()
    }

    pub closed spec fn spec_will_topic(self) -> Seq<char> {
        self.will_topic_buf@
    }

    pub closed spec fn spec_will_topic_encoded(self) -> Seq<u8> {
        self.will_topic_buf.encoded()
    }

    pub closed spec fn spec_will_payload(self) -> Seq<u8> {
        self.will_payload_buf@
    }

    pub closed spec fn spec_will_payload_encoded(self) -> Seq<u8> {
        self.will_payload_buf.encoded()
    }

    pub closed spec fn spec_user_name(self) -> Seq<char> {
        self.user_name_buf@
    }

    pub closed spec fn spec_user_name_encoded(self) -> Seq<u8> {
        self.user_name_buf.encoded()
    }

    pub closed spec fn spec_password(self) -> Seq<u8> {
        self.password_buf@
    }

    pub closed spec fn spec_password_encoded(self) -> Seq<u8> {
        self.password_buf.encoded()
    }

    pub closed spec fn spec_remaining_length(self) -> nat {
        self.remaining_length@
    }

    /// Variable header and payload: every field, the optional ones when their
    /// flag is set.
    pub closed spec fn spec_body(self) -> Seq<u8> {
        connect_v5_body(
            self.connect_flags_buf@[0],
            self.keep_alive_buf@,
            self.props@,
            self.client_id_buf.encoded(),
            self.will_props@,
            self.will_topic_buf.encoded(),
            self.will_payload_buf.encoded(),
            self.user_name_buf.encoded(),
            self.password_buf.encoded(),
        )
    }

    /// The whole packet: fixed header, remaining length, body.
    pub open spec fn spec_bytes(self) -> Seq<u8> {
        seq![0x10u8] + vbi_encode(self.spec_remaining_length()) + self.spec_body()
    }

    /// Create a new ConnectBuilder
    pub fn builder() -> (r: ConnectBuilder)
        ensures
            r@ == ConnectBuilderView::empty(),
            r.spec_text_lens() == (0nat, 0nat, 0nat),
    {
        ConnectBuilder::default()
    }

    pub fn packet_type() -> (r: PacketType)
        ensures
            r == PacketType::Connect,
    {
        PacketType::Connect
    }

    pub fn protocol_name(&self) -> (r: &'static str)
        ensures
            r@ == "MQTT"@,
    {
        "MQTT"
    }

    pub fn protocol_version(&self) -> (r: u8)
        ensures
            r == 5,
    {
        proof { use_type_invariant(self); }
        self.protocol_version_buf[0]
    }

    pub fn clean_start(&self) -> (r: bool)
        ensures
            r == flag_clean(self.spec_flags()),
    {
        (self.connect_flags_buf[0] & 0x02) != 0
    }

    pub fn will_flag(&self) -> (r: bool)
        ensures
            r == flag_will(self.spec_flags()),
    {
        (self.connect_flags_buf[0] & 0x04) != 0
    }

    pub fn will_qos(&self) -> (r: Qos)
        ensures
            r == flag_will_qos(self.spec_flags()),
    {
        let v = (self.connect_flags_buf[0] >> 3) & 0x03;
        if v == 1 {
            Qos::AtLeastOnce
        } else if v == 2 {
            Qos::ExactlyOnce
        } else {
            Qos::AtMostOnce
        }
    }

    pub fn will_retain(&self) -> (r: bool)
        ensures
            r == flag_will_retain(self.spec_flags()),
    {
        (self.connect_flags_buf[0] & 0x20) != 0
    }

    pub fn password_flag(&self) -> (r: bool)
        ensures
            r == flag_password(self.spec_flags()),
    {
        (self.connect_flags_buf[0] & 0x40) != 0
    }

    pub fn user_name_flag(&self) -> (r: bool)
        ensures
            r == flag_user_name(self.spec_flags()),
    {
        (self.connect_flags_buf[0] & 0x80) != 0
    }

    pub fn keep_alive(&self) -> (r: u16)
        ensures
            r as nat == self.spec_keep_alive(),
    {
        u16_from_be(self.keep_alive_buf[0], self.keep_alive_buf[1])
    }

    /// The CONNECT properties.
    pub fn props(&self) -> (r: &Properties)
        ensures
            r@ == self.spec_props(),
    {
        &self.props
    }

    /// The will properties.
    pub fn will_props(&self) -> (r: &Properties)
        ensures
            r@ == self.spec_will_props(),
    {
        &self.will_props
    }

    pub fn client_id(&self) -> (r: &str)
        ensures
            r@ == self.spec_client_id(),
    {
        proof { use_type_invariant(self); }
        self.client_id_buf.as_str()
    }

    /// The will topic, when the will flag is set.
    pub fn will_topic(&self) -> (r: Option<&str>)
        ensures
            flag_will(self.spec_flags()) <==> r is Some,
            r matches Some(s) ==> s@ == self.spec_will_topic(),
    {
        proof { use_type_invariant(self); }
        if self.will_flag() {
            Some(self.will_topic_buf.as_str())
        } else {
            None
        }
    }

    /// The will payload, when the will flag is set.
    pub fn will_payload(&self) -> (r: Option<&[u8]>)
        ensures
            flag_will(self.spec_flags()) <==> r is Some,
            r matches Some(s) ==> s@ == self.spec_will_payload(),
    {
        proof { use_type_invariant(self); }
        if self.will_flag() {
            Some(self.will_payload_buf.as_slice())
        } else {
            None
        }
    }

    /// The user name, when its flag is set.
    pub fn user_name(&self) -> (r: Option<&str>)
        ensures
            flag_user_name(self.spec_flags()) <==> r is Some,
            r matches Some(s) ==> s@ == self.spec_user_name(),
    {
        proof { use_type_invariant(self); }
        if self.user_name_flag() {
            Some(self.user_name_buf.as_str())
        } else {
            None
        }
    }

    /// The password, when its flag is set.
    pub fn password(&self) -> (r: Option<&[u8]>)
        ensures
            flag_password(self.spec_flags()) <==> r is Some,
            r matches Some(s) ==> s@ == self.spec_password(),
    {
        proof { use_type_invariant(self); }
        if self.password_flag() {
            Some(self.password_buf.as_slice())
        } else {
            None
        }
    }

    /// Total size of the packet in bytes, by its remaining length.
    pub fn size(&self) -> (r: usize)
        ensures
            r == 1 + vbi_size(self.spec_remaining_length()) + self.spec_remaining_length(),
            r == self.spec_bytes().len() - self.spec_body().len() + self.spec_remaining_length(),
    {
        let rl = self.remaining_length.to_u32();
        proof { lemma_vbi_roundtrip(self.remaining_length@, Seq::<u8>::empty()); }
        1 + self.remaining_length.size() + rl as usize
    }

    /// Appends the fields that are present whatever the flags.
    fn write_fixed_fields(&self, buf: &mut Vec<u8>)
        ensures
            final(buf)@ == old(buf)@ + protocol_name_bytes() + seq![5u8] + seq![self.spec_flags()]
                + self.keep_alive_buf@ + props_field(self.props@) + self.client_id_buf.encoded(),
    {
        proof { use_type_invariant(self); }
        let ghost b0 = buf@;
        append_bytes(buf, &self.protocol_name);
        append_bytes(buf, &self.protocol_version_buf);
        append_bytes(buf, &self.connect_flags_buf);
        append_bytes(buf, &self.keep_alive_buf);
        let pl = self.property_length.to_continuous_buffer();
        append_bytes(buf, pl.as_slice());
        let pb = self.props.to_continuous_buffer();
        append_bytes(buf, pb.as_slice());
        append_bytes(buf, self.client_id_buf.as_bytes());
        assert(self.connect_flags_buf@ =~= seq![self.spec_flags()]);
        assert(buf@ =~= b0 + protocol_name_bytes() + seq![5u8] + seq![self.spec_flags()]
            + self.keep_alive_buf@ + props_field(self.props@) + self.client_id_buf.encoded());
    }

    /// Appends the will fields when the will flag is set.
    fn write_will_fields(&self, buf: &mut Vec<u8>)
        ensures
            final(buf)@ == old(buf)@ + opt_bytes(
                flag_will(self.spec_flags()),
                props_field(self.will_props@) + self.will_topic_buf.encoded() + self.will_payload_buf.encoded(),
            ),
    {
        proof { use_type_invariant(self); }
        let ghost b0 = buf@;
        if self.will_flag() {
            let wl = self.will_property_length.to_continuous_buffer();
            append_bytes(buf, wl.as_slice());
            let wb = self.will_props.to_continuous_buffer();
            append_bytes(buf, wb.as_slice());
            append_bytes(buf, self.will_topic_buf.as_bytes());
            append_bytes(buf, self.will_payload_buf.as_bytes());
        }
        assert(buf@ =~= b0 + opt_bytes(flag_will(self.spec_flags()), props_field(self.will_props@)
            + self.will_topic_buf.encoded() + self.will_payload_buf.encoded()));
    }

    /// Appends the user name and password, each when its flag is set.
    fn write_credentials(&self, buf: &mut Vec<u8>)
        ensures
            final(buf)@ == old(buf)@ + opt_bytes(flag_user_name(self.spec_flags()), self.user_name_buf.encoded())
                + opt_bytes(flag_password(self.spec_flags()), self.password_buf.encoded()),
    {
        proof { use_type_invariant(self); }
        let ghost b0 = buf@;
        if self.user_name_flag() {
            append_bytes(buf, self.user_name_buf.as_bytes());
        }
        let ghost b1 = buf@;
        assert(b1 =~= b0 + opt_bytes(flag_user_name(self.spec_flags()), self.user_name_buf.encoded()));
        if self.password_flag() {
            append_bytes(buf, self.password_buf.as_bytes());
        }
        assert(buf@ =~= b1 + opt_bytes(flag_password(self.spec_flags()), self.password_buf.encoded()));
    }

    /// The encoded packet.
    pub fn to_continuous_buffer(&self) -> (r: Vec<u8>)
        ensures
            r@ == self.spec_bytes(),
    {
        let mut buf: Vec<u8> = Vec::new();
        buf.push(0x10u8);
        let rl = self.remaining_length.to_continuous_buffer();
        append_bytes(&mut buf, rl.as_slice());
        let ghost head = buf@;
        self.write_fixed_fields(&mut buf);
        let ghost b0 = buf@;
        self.write_will_fields(&mut buf);
        let ghost b1 = buf@;
        self.write_credentials(&mut buf);
        proof {
            assert(head =~= seq![0x10u8] + vbi_encode(self.spec_remaining_length()));
            assert(buf@ =~= head + self.spec_body());
        }
        buf
    }

    /// A packet from its fields and its remaining length.
    fn assemble(
        flags: u8,
        keep_alive_buf: [u8; 2],
        props: Properties,
        client_id_buf: MqttString,
        will_props: Properties,
        will_topic_buf: MqttString,
        will_payload_buf: MqttBinary,
        user_name_buf: MqttString,
        password_buf: MqttBinary,
        remaining: u32,
    ) -> (r: Connect)
        requires
            client_id_buf.wf(),
            will_topic_buf.wf(),
            will_payload_buf.wf(),
            user_name_buf.wf(),
            password_buf.wf(),
            remaining <= VBI_MAX,
            props_bytes(props@).len() <= VBI_MAX,
            props_bytes(will_props@).len() <= VBI_MAX,
        ensures
            r.spec_flags() == flags,
            r.keep_alive_buf == keep_alive_buf,
            r.props@ == props@,
            r.client_id_buf == client_id_buf,
            r.will_props@ == will_props@,
            r.will_topic_buf == will_topic_buf,
            r.will_payload_buf == will_payload_buf,
            r.user_name_buf == user_name_buf,
            r.password_buf == password_buf,
            r.spec_remaining_length() == remaining,
    {
        let props_size = props.size();
        let property_length = VariableByteInteger::from_u32(props_size as u32).unwrap();
        let will_props_size = will_props.size();
        let will_property_length = VariableByteInteger::from_u32(will_props_size as u32).unwrap();
        let remaining_length = VariableByteInteger::from_u32(remaining).unwrap();
        let fixed_header: [u8; 1] = [0x10];
        let protocol_name: [u8; 6] = [0x00, 0x04, 0x4D, 0x51, 0x54, 0x54];
        let protocol_version_buf: [u8; 1] = [0x05];
        let connect_flags_buf: [u8; 1] = [flags];
        proof {
            assert(fixed_header@ =~= seq![0x10u8]);
            assert(protocol_name@ =~= protocol_name_bytes());
            assert(protocol_version_buf@ =~= seq![5u8]);
        }
        Connect {
            fixed_header,
            remaining_length,
            protocol_name,
            protocol_version_buf,
            connect_flags_buf,
            keep_alive_buf,
            property_length,
            props,
            client_id_buf,
            will_property_length,
            will_props,
            will_topic_buf,
            will_payload_buf,
            user_name_buf,
            password_buf,
        }
    }

    /// Remaining length of a packet with these fields.
    fn body_size(
        flags: u8,
        props: &Properties,
        client_id_buf: &MqttString,
        will_props: &Properties,
        will_topic_buf: &MqttString,
        will_payload_buf: &MqttBinary,
        user_name_buf: &MqttString,
        password_buf: &MqttBinary,
    ) -> (r: usize)
        requires
            client_id_buf.wf(),
            will_topic_buf.wf(),
            will_payload_buf.wf(),
            user_name_buf.wf(),
            password_buf.wf(),
            connect_v5_body_len(
                flags,
                props_bytes(props@).len(),
                client_id_buf.encoded().len(),
                props_bytes(will_props@).len(),
                will_topic_buf.encoded().len(),
                will_payload_buf.encoded().len(),
                user_name_buf.encoded().len(),
                password_buf.encoded().len(),
            ) <= VBI_MAX,
        ensures
            r == connect_v5_body_len(
                flags,
                props_bytes(props@).len(),
                client_id_buf.encoded().len(),
                props_bytes(will_props@).len(),
                will_topic_buf.encoded().len(),
                will_payload_buf.encoded().len(),
                user_name_buf.encoded().len(),
                password_buf.encoded().len(),
            ),
    {
        proof {
            client_id_buf.lemma_encoded();
            will_topic_buf.lemma_encoded();
            will_payload_buf.lemma_encoded();
            user_name_buf.lemma_encoded();
            password_buf.lemma_encoded();
        }
        let props_size = props.size();
        let mut remaining: usize = 10 + VariableByteInteger::from_u32(props_size as u32).unwrap().size()
            + props_size + client_id_buf.size();
        if (flags & 0x04) != 0 {
            let will_props_size = will_props.size();
            remaining = remaining + VariableByteInteger::from_u32(will_props_size as u32).unwrap().size()
                + will_props_size + will_topic_buf.size() + will_payload_buf.size();
        }
        if (flags & 0x80) != 0 {
            remaining = remaining + user_name_buf.size();
        }
        if (flags & 0x40) != 0 {
            remaining = remaining + password_buf.size();
        }
        remaining
    }

    /// Parses the variable header and payload of a v5.0 CONNECT packet.
    #[verifier::rlimit(50)]
    pub fn parse(data: &[u8]) -> (r: Result<(Connect, usize), MqttError>)
        requires
            data@.len() <= VBI_MAX,
        ensures
            r is Ok <==> connect_v5_result(data@) is Ok,
            r matches Err(e) ==> connect_v5_result(data@) == Err::<nat, MqttError>(e),
            r matches Ok((c, n)) ==> {
                let d = data@;
                &&& connect_v5_result(d) == Ok::<nat, MqttError>(n as nat)
                &&& c.spec_remaining_length() == n
                &&& c.spec_flags() == d[7]
                &&& c.spec_keep_alive() == be16_value(d[8], d[9])
                &&& props_inv(c.spec_props())
                &&& props_parsed_upto(
                    c.spec_props(),
                    props_region(skip_bytes(d, 10)),
                    props_region(skip_bytes(d, 10)).len(),
                )
                &&& c.spec_client_id_encoded() == d.subrange(v5_props_end(d) as int, v5_client_id_end(d) as int)
                &&& props_inv(c.spec_will_props())
                &&& (flag_will(d[7]) ==> props_parsed_upto(
                    c.spec_will_props(),
                    props_region(skip_bytes(d, v5_client_id_end(d))),
                    props_region(skip_bytes(d, v5_client_id_end(d))).len(),
                ))
                &&& (!flag_will(d[7]) ==> c.spec_will_props().len() == 0)
                &&& d.subrange(v5_will_props_end(d) as int, v5_will_end(d) as int) == opt_bytes(
                    flag_will(d[7]),
                    c.spec_will_topic_encoded() + c.spec_will_payload_encoded(),
                )
                &&& d.subrange(v5_will_end(d) as int, n as int) == opt_bytes(
                    flag_user_name(d[7]),
                    c.spec_user_name_encoded(),
                ) + opt_bytes(flag_password(d[7]), c.spec_password_encoded())
            },
    {
        parse_connect_header(data, 5)?;
        let connect_flags = data[7];
        let keep_alive_buf = [data[8], data[9]];
        let (props, c0) = parse_props_at(data, 10, PropertySet::Connect)?;
        let (client_id_buf, c1) = parse_client_id(data, c0)?;
        let (will_props, cw) = if (connect_flags & 0x04) != 0 {
            parse_props_at(data, c1, PropertySet::Will)?
        } else {
            (Vec::new(), c1)
        };
        let (will_topic_buf, will_payload_buf, c2) = parse_will_fields(data, connect_flags, cw)?;
        let (user_name_buf, password_buf, c3) = parse_credentials(data, connect_flags, c2)?;
        let connect = Connect::assemble(
            connect_flags,
            keep_alive_buf,
            props,
            client_id_buf,
            will_props,
            will_topic_buf,
            will_payload_buf,
            user_name_buf,
            password_buf,
            c3 as u32,
        );
        proof {
            assert(keep_alive_buf@ =~= seq![data@[8], data@[9]]);
        }
        Ok((connect, c3))
    }
}

/// What a `ConnectBuilder` has been given so far.
pub ghost struct ConnectBuilderView {
    pub flags: Option<u8>,
    pub keep_alive: Option<nat>,
    pub props: Option<Seq<Property>>,
    pub client_id: Option<Seq<char>>,
    pub will_props: Option<Seq<Property>>,
    pub will_topic: Option<Seq<char>>,
    pub will_payload: Option<Seq<u8>>,
    pub user_name: Option<Seq<char>>,
    pub password: Option<Seq<u8>>,
}

impl ConnectBuilderView {
    pub open spec fn empty() -> ConnectBuilderView {
        ConnectBuilderView {
            flags: None,
            keep_alive: None,
            props: None,
            client_id: None,
            will_props: None,
            will_topic: None,
            will_payload: None,
            user_name: None,
            password: None,
        }
    }
}

/// The checks `build` makes before building.
pub open spec fn connect_v5_build_check(b: ConnectBuilderView) -> Result<(), MqttError> {
    let f = flags_or_default(b.flags);
    if flag_password(f) && !flag_user_name(f) {
        Err(MqttError::ProtocolError)
    } else if flag_will(f) && (b.will_topic is None || b.will_payload is None) {
        Err(MqttError::MalformedPacket)
    } else if b.props matches Some(ps) && !ids_ok(prop_ids(ps), PropertySet::Connect) {
        Err(MqttError::ProtocolError)
    } else if b.will_props matches Some(ps) && !ids_ok(prop_ids(ps), PropertySet::Will) {
        Err(MqttError::ProtocolError)
    } else {
        Ok(())
    }
}

/// Remaining length of the CONNECT built from `v`, whose client
/// identifier, will topic and user name take `lens` bytes.
pub open spec fn connect_v5_built_remaining(v: ConnectBuilderView, lens: (nat, nat, nat)) -> nat {
    connect_v5_body_len(
        flags_or_default(v.flags),
        props_bytes(v.props.unwrap_or(Seq::<Property>::empty())).len(),
        lens.0 + 2,
        props_bytes(v.will_props.unwrap_or(Seq::<Property>::empty())).len(),
        lens.1 + 2,
        v.will_payload.unwrap_or(Seq::<u8>::empty()).len() + 2,
        lens.2 + 2,
        v.password.unwrap_or(Seq::<u8>::empty()).len() + 2,
    )
}

/// Builder of a v5.0 CONNECT packet.
#[derive(Debug)]
pub struct ConnectBuilder {
    connect_flags_buf: Option<[u8; 1]>,
    keep_alive_buf: Option<[u8; 2]>,
    props: Option<Properties>,
    client_id_buf: Option<MqttString>,
    will_props: Option<Properties>,
    will_topic_buf: Option<MqttString>,
    will_payload_buf: Option<MqttBinary>,
    user_name_buf: Option<MqttString>,
    password_buf: Option<MqttBinary>,
}

impl View for ConnectBuilder {
    type V = ConnectBuilderView;

    closed spec fn view(&self) -> ConnectBuilderView {
        ConnectBuilderView {
            flags: match self.connect_flags_buf {
                Some(b) => Some(b@[0]),
                None => None,
            },
            keep_alive: match self.keep_alive_buf {
                Some(b) => Some(be16_value(b@[0], b@[1])),
                None => None,
            },
            props: match self.props {
                Some(p) => Some(p@),
                None => None,
            },
            client_id: match self.client_id_buf {
                Some(s) => Some(s@),
                None => None,
            },
            will_props: match self.will_props {
                Some(p) => Some(p@),
                None => None,
            },
            will_topic: match self.will_topic_buf {
                Some(s) => Some(s@),
                None => None,
            },
            will_payload: match self.will_payload_buf {
                Some(s) => Some(s@),
                None => None,
            },
            user_name: match self.user_name_buf {
                Some(s) => Some(s@),
                None => None,
            },
            password: match self.password_buf {
                Some(s) => Some(s@),
                None => None,
            },
        }
    }
}

impl Default for ConnectBuilder {
    fn default() -> (r: ConnectBuilder)
        ensures
            r@ == ConnectBuilderView::empty(),
            r.spec_text_lens() == (0nat, 0nat, 0nat),
    {
        ConnectBuilder {
            connect_flags_buf: None,
            keep_alive_buf: None,
            props: None,
            client_id_buf: None,
            will_props: None,
            will_topic_buf: None,
            will_payload_buf: None,
            user_name_buf: None,
            password_buf: None,
        }
    }
}

impl ConnectBuilder {
    #[verifier::type_invariant]
    pub closed spec fn inv(self) -> bool {
        &&& (self.client_id_buf matches Some(s) ==> s.wf())
        &&& (self.will_topic_buf matches Some(s) ==> s.wf())
        &&& (self.will_payload_buf matches Some(s) ==> s.wf())
        &&& (self.user_name_buf matches Some(s) ==> s.wf())
        &&& (self.password_buf matches Some(s) ==> s.wf())
    }

    /// Lengths in bytes of the UTF-8 client identifier, will topic and user
    /// name given so far (0 for one not given).
    pub closed spec fn spec_text_lens(self) -> (nat, nat, nat) {
        (
            match self.client_id_buf {
                Some(s) => s.bytes().len(),
                None => 0,
            },
            match self.will_topic_buf {
                Some(s) => s.bytes().len(),
                None => 0,
            },
            match self.user_name_buf {
                Some(s) => s.bytes().len(),
                None => 0,
            },
        )
    }

    proof fn lemma_built_remaining(self)
        requires
            self.inv(),
        ensures
            self.spec_built_remaining() == connect_v5_built_remaining(self@, self.spec_text_lens()),
    {
        if self.client_id_buf is Some { self.client_id_buf.unwrap().lemma_encoded(); }
        if self.will_topic_buf is Some { self.will_topic_buf.unwrap().lemma_encoded(); }
        if self.user_name_buf is Some { self.user_name_buf.unwrap().lemma_encoded(); }
        if self.will_payload_buf is Some { self.will_payload_buf.unwrap().lemma_encoded(); }
        if self.password_buf is Some { self.password_buf.unwrap().lemma_encoded(); }
    }

    /// Remaining length of the packet that `build` would make.
    pub closed spec fn spec_built_remaining(self) -> nat {
        connect_v5_body_len(
            flags_or_default(self@.flags),
            props_bytes(self@.props.unwrap_or(Seq::<Property>::empty())).len(),
            match self.client_id_buf {
                Some(s) => s.encoded().len(),
                None => 2,
            },
            props_bytes(self@.will_props.unwrap_or(Seq::<Property>::empty())).len(),
            match self.will_topic_buf {
                Some(s) => s.encoded().len(),
                None => 2,
            },
            match self.will_payload_buf {
                Some(s) => s.encoded().len(),
                None => 2,
            },
            match self.user_name_buf {
                Some(s) => s.encoded().len(),
                None => 2,
            },
            match self.password_buf {
                Some(s) => s.encoded().len(),
                None => 2,
            },
        )
    }

    /// Sets the client identifier; `MalformedPacket` when it is longer than
    /// 65,535 bytes.
    pub fn client_id(self, id: &str) -> (r: Result<ConnectBuilder, MqttError>)
        ensures
            id.spec_bytes().len() <= 65535 <==> r is Ok,
            r matches Ok(b) ==> b@ == (ConnectBuilderView { client_id: Some(id@), ..self@ }),
            r matches Err(e) ==> e == MqttError::MalformedPacket,
            r matches Ok(b) ==> b.spec_text_lens() == (id.spec_bytes().len(), self.spec_text_lens().1, self.spec_text_lens().2),
    {
        let mqtt_str = MqttString::new(id)?;
        let mut b = self;
        proof { use_type_invariant(&b); }
        b.client_id_buf = Some(mqtt_str);
        Ok(b)
    }

    /// Sets or clears the Clean Start flag.
    pub fn clean_start(self, clean: bool) -> (r: ConnectBuilder)
        ensures
            r@ == (ConnectBuilderView {
                flags: Some(
                    if clean {
                        flags_or_zero(self@.flags) | 0x02
                    } else {
                        flags_or_zero(self@.flags) & !0x02u8
                    },
                ),
                ..self@
            }),
            r.spec_text_lens() == self.spec_text_lens(),
    {
        let mut flags = match self.connect_flags_buf {
            Some(b) => b[0],
            None => 0,
        };
        if clean {
            flags = flags | 0x02;
        } else {
            flags = flags & !0x02u8;
        }
        let mut b = self;
        proof { use_type_invariant(&b); }
        b.connect_flags_buf = Some([flags]);
        b
    }

    /// Sets the will message; `MalformedPacket` when the topic or payload is
    /// longer than 65,535 bytes.
    pub fn will_message(self, topic: &str, payload: &[u8], qos: Qos, retain: bool) -> (r: Result<
        ConnectBuilder,
        MqttError,
    >)
        ensures
            (topic.spec_bytes().len() <= 65535 && payload@.len() <= 65535) <==> r is Ok,
            r matches Ok(b) ==> b@ == (ConnectBuilderView {
                flags: Some(
                    (flags_or_default(self@.flags) | 0x04 | ((qos.spec_to_u8() << 3u8) as u8) | (if retain {
                        0x20u8
                    } else {
                        0u8
                    })) as u8,
                ),
                will_topic: Some(topic@),
                will_payload: Some(payload@),
                ..self@
            }),
            r matches Err(e) ==> e == MqttError::MalformedPacket,
            r matches Ok(b) ==> b.spec_text_lens() == (self.spec_text_lens().0, topic.spec_bytes().len(), self.spec_text_lens().2),
    {
        let will_topic = MqttString::new(topic)?;
        let will_payload = MqttBinary::new(payload)?;
        let mut flags = match self.connect_flags_buf {
            Some(b) => b[0],
            None => 0x02,
        };
        flags = flags | 0x04;
        flags = flags | (qos.to_u8() << 3u8);
        if retain {
            flags = flags | 0x20;
        } else {
            flags = flags | 0u8;
        }
        let mut b = self;
        proof { use_type_invariant(&b); }
        b.will_topic_buf = Some(will_topic);
        b.will_payload_buf = Some(will_payload);
        b.connect_flags_buf = Some([flags]);
        Ok(b)
    }

    /// Sets the user name; `MalformedPacket` when it is longer than 65,535 bytes.
    pub fn user_name(self, name: &str) -> (r: Result<ConnectBuilder, MqttError>)
        ensures
            name.spec_bytes().len() <= 65535 <==> r is Ok,
            r matches Ok(b) ==> b@ == (ConnectBuilderView {
                flags: Some(flags_or_default(self@.flags) | 0x80),
                user_name: Some(name@),
                ..self@
            }),
            r matches Err(e) ==> e == MqttError::MalformedPacket,
            r matches Ok(b) ==> b.spec_text_lens() == (self.spec_text_lens().0, self.spec_text_lens().1, name.spec_bytes().len()),
    {
        let mqtt_str = MqttString::new(name)?;
        let flags = match self.connect_flags_buf {
            Some(b) => b[0],
            None => 0x02,
        };
        let mut b = self;
        proof { use_type_invariant(&b); }
        b.user_name_buf = Some(mqtt_str);
        b.connect_flags_buf = Some([flags | 0x80]);
        Ok(b)
    }

    /// Sets the password; `MalformedPacket` when it is longer than 65,535 bytes.
    pub fn password(self, pwd: &[u8]) -> (r: Result<ConnectBuilder, MqttError>)
        ensures
            pwd@.len() <= 65535 <==> r is Ok,
            r matches Ok(b) ==> b@ == (ConnectBuilderView {
                flags: Some(flags_or_default(self@.flags) | 0x40),
                password: Some(pwd@),
                ..self@
            }),
            r matches Err(e) ==> e == MqttError::MalformedPacket,
            r matches Ok(b) ==> b.spec_text_lens() == self.spec_text_lens(),
    {
        let mqtt_bin = MqttBinary::new(pwd)?;
        let flags = match self.connect_flags_buf {
            Some(b) => b[0],
            None => 0x02,
        };
        let mut b = self;
        proof { use_type_invariant(&b); }
        b.password_buf = Some(mqtt_bin);
        b.connect_flags_buf = Some([flags | 0x40]);
        Ok(b)
    }

    /// Sets the keep alive interval in seconds.
    pub fn keep_alive(self, seconds: u16) -> (r: ConnectBuilder)
        ensures
            r@ == (ConnectBuilderView { keep_alive: Some(seconds as nat), ..self@ }),
            r.spec_text_lens() == self.spec_text_lens(),
    {
        let kb = u16_to_be(seconds);
        proof { lemma_be16_roundtrip(seconds as nat); }
        let mut b = self;
        proof { use_type_invariant(&b); }
        b.keep_alive_buf = Some(kb);
        b
    }

    /// Sets the CONNECT properties.
    pub fn props(self, props: Properties) -> (r: ConnectBuilder)
        ensures
            r@ == (ConnectBuilderView { props: Some(props@), ..self@ }),
            r.spec_text_lens() == self.spec_text_lens(),
    {
        let mut b = self;
        proof { use_type_invariant(&b); }
        b.props = Some(props);
        b
    }

    /// Sets the will properties.
    pub fn will_props(self, props: Properties) -> (r: ConnectBuilder)
        ensures
            r@ == (ConnectBuilderView { will_props: Some(props@), ..self@ }),
            r.spec_text_lens() == self.spec_text_lens(),
    {
        let mut b = self;
        proof { use_type_invariant(&b); }
        b.will_props = Some(props);
        b
    }

    fn validate(&self) -> (r: Result<(), MqttError>)
        ensures
            r == connect_v5_build_check(self@),
    {
        let flags = match self.connect_flags_buf {
            Some(b) => b[0],
            None => 0x02,
        };
        if (flags & 0x40) != 0 && (flags & 0x80) == 0 {
            return Err(MqttError::ProtocolError);
        }
        if (flags & 0x04) != 0 {
            if self.will_topic_buf.is_none() || self.will_payload_buf.is_none() {
                return Err(MqttError::MalformedPacket);
            }
        }
        if let Some(ps) = &self.props {
            check_property_ids(ps, PropertySet::Connect)?;
        }
        if let Some(ps) = &self.will_props {
            check_property_ids(ps, PropertySet::Will)?;
        }
        Ok(())
    }

    /// Builds the packet; `ProtocolError` when a password is set without a
    /// user name or a property is not allowed or repeated, `MalformedPacket`
    /// when the will flag is set without a will message. Unset fields take
    /// their defaults (Clean Start set, keep alive 0, empty client identifier,
    /// no properties).
    #[verifier::rlimit(50)]
    pub fn build(self) -> (r: Result<Connect, MqttError>)
        requires
            connect_v5_build_check(self@) is Ok ==> connect_v5_built_remaining(self@, self.spec_text_lens()) <= VBI_MAX
                && props_bytes(self@.will_props.unwrap_or(Seq::<Property>::empty())).len() <= VBI_MAX,
        ensures
            connect_v5_build_check(self@) is Ok <==> r is Ok,
            r matches Err(e) ==> connect_v5_build_check(self@) == Err::<(), MqttError>(e),
            r matches Ok(c) ==> {
                &&& c.spec_flags() == flags_or_default(self@.flags)
                &&& c.spec_keep_alive() == opt_nat(self@.keep_alive)
                &&& c.spec_props() == self@.props.unwrap_or(Seq::<Property>::empty())
                &&& c.spec_client_id() == opt_chars(self@.client_id)
                &&& c.spec_will_props() == self@.will_props.unwrap_or(Seq::<Property>::empty())
                &&& c.spec_will_topic() == opt_chars(self@.will_topic)
                &&& c.spec_will_payload() == opt_bytes_val(self@.will_payload)
                &&& c.spec_user_name() == opt_chars(self@.user_name)
                &&& c.spec_password() == opt_bytes_val(self@.password)
                &&& c.spec_remaining_length() == c.spec_body().len()
            },
    {
        self.validate()?;
        proof {
            use_type_invariant(&self);
            self.lemma_built_remaining();
        }
        let ConnectBuilder {
            connect_flags_buf,
            keep_alive_buf,
            props,
            client_id_buf,
            will_props,
            will_topic_buf,
            will_payload_buf,
            user_name_buf,
            password_buf,
        } = self;
        let flags = match connect_flags_buf {
            Some(b) => b[0],
            None => 0x02,
        };
        let keep_alive_buf = match keep_alive_buf {
            Some(b) => b,
            None => [0, 0],
        };
        let props = props_or_empty(props);
        let will_props = props_or_empty(will_props);
        let client_id_buf = string_or_empty(client_id_buf);
        let will_topic_buf = string_or_empty(will_topic_buf);
        let will_payload_buf = binary_or_empty(will_payload_buf);
        let user_name_buf = string_or_empty(user_name_buf);
        let password_buf = binary_or_empty(password_buf);
        proof {
            lemma_be16_of_value(keep_alive_buf@[0], keep_alive_buf@[1]);
        }
        let remaining = Connect::body_size(
            flags,
            &props,
            &client_id_buf,
            &will_props,
            &will_topic_buf,
            &will_payload_buf,
            &user_name_buf,
            &password_buf,
        );
        let c = Connect::assemble(
            flags,
            keep_alive_buf,
            props,
            client_id_buf,
            will_props,
            will_topic_buf,
            will_payload_buf,
            user_name_buf,
            password_buf,
            remaining as u32,
        );
        proof {
            lemma_connect_v5_body_len(
                c.spec_flags(),
                c.keep_alive_buf@,
                c.props@,
                c.client_id_buf.encoded(),
                c.will_props@,
                c.will_topic_buf.encoded(),
                c.will_payload_buf.encoded(),
                c.user_name_buf.encoded(),
                c.password_buf.encoded(),
            );
        }
        Ok(c)
    }
}


/// A property list encoded at `c` of `d`, its properties well formed and
/// allowed by `set`, parses back and is taken whole.
#[verifier::spinoff_prover]
proof fn lemma_props_at_roundtrip(d: Seq<u8>, c: nat, ps: Seq<Property>, t: Seq<u8>, set: PropertySet)
    requires
        c <= d.len(),
        skip_bytes(d, c) == props_field(ps) + t,
        props_inv(ps),
        props_bytes(ps).len() <= VBI_MAX,
        ids_ok(prop_ids(ps), set),
    ensures
        props_at_result(d, c, set) == Ok::<nat, MqttError>(c + props_field(ps).len()),
        skip_bytes(d, c + props_field(ps).len()) == t,
{
    crate::packet::property::lemma_props_list_roundtrip(ps, t);
    lemma_vbi_roundtrip(props_bytes(ps).len(), Seq::<u8>::empty());
    lemma_region_ids(ps, props_bytes(ps), props_bytes(ps).len());
    crate::packet::connect_common::lemma_skip_more(d, c, props_field(ps), t);
}

/// The will and credential fields at `c1` of `d` parse back (see
/// `lemma_connect_v5_roundtrip`).
#[verifier::spinoff_prover]
#[verifier::rlimit(60)]
proof fn lemma_will_credentials_roundtrip(d: Seq<u8>, f: u8, c1: nat, c: Connect, rest: Seq<u8>)
    requires
        c.inv(),
        c1 <= d.len(),
        !(flag_password(f) && !flag_user_name(f)),
        flag_will(f) ==> props_inv(c.spec_will_props()) && ids_ok(prop_ids(c.spec_will_props()), PropertySet::Will),
        props_bytes(c.spec_will_props()).len() <= VBI_MAX,
        skip_bytes(d, c1) == opt_bytes(
            flag_will(f),
            props_field(c.will_props@) + c.will_topic_buf.encoded() + c.will_payload_buf.encoded(),
        ) + (opt_bytes(flag_user_name(f), c.user_name_buf.encoded()) + (opt_bytes(
            flag_password(f),
            c.password_buf.encoded(),
        ) + rest)),
    ensures
        ({
            match will_v5_result(d, f, c1) {
                Ok(c2) => credentials_result(d, f, c2) == Ok::<nat, MqttError>((d.len() - rest.len()) as nat),
                Err(_) => false,
            }
        }),
{
    let wf = props_field(c.will_props@);
    let wt = c.will_topic_buf.encoded();
    let wp = c.will_payload_buf.encoded();
    let u = opt_bytes(flag_user_name(f), c.user_name_buf.encoded());
    let p = opt_bytes(flag_password(f), c.password_buf.encoded());
    let tail = u + (p + rest);
    vstd::seq_lib::lemma_concat_associative(u, p, rest);
    if flag_will(f) {
        vstd::seq_lib::lemma_concat_associative(wf, wt + wp, tail);
        assert(wf + wt + wp == wf + (wt + wp));
        lemma_props_at_roundtrip(d, c1, c.will_props@, (wt + wp) + tail, PropertySet::Will);
        let c2 = c1 + wf.len();
        crate::packet::connect_common::lemma_will_fields_roundtrip(d, f, c2, c.will_topic_buf, c.will_payload_buf, tail);
        crate::packet::connect_common::lemma_credentials_roundtrip(
            d,
            f,
            c2 + (wt + wp).len(),
            c.user_name_buf,
            c.password_buf,
            rest,
        );
    } else {
        crate::packet::connect_common::lemma_credentials_roundtrip(d, f, c1, c.user_name_buf, c.password_buf, rest);
    }
    assert(skip_bytes(d, c1).len() == d.len() - c1);
}

/// Parsing the body of a v5.0 CONNECT packet gives back the whole body,
/// whatever follows it, when its properties and will properties are well
/// formed and allowed where they stand, and the flags do not announce a
/// password without a user name.
#[verifier::spinoff_prover]
#[verifier::rlimit(40)]
pub proof fn lemma_connect_v5_roundtrip(c: Connect, rest: Seq<u8>)
    requires
        c.inv(),
        !(flag_password(c.spec_flags()) && !flag_user_name(c.spec_flags())),
        props_inv(c.spec_props()),
        ids_ok(prop_ids(c.spec_props()), PropertySet::Connect),
        flag_will(c.spec_flags()) ==> props_inv(c.spec_will_props()) && ids_ok(
            prop_ids(c.spec_will_props()),
            PropertySet::Will,
        ),
        props_bytes(c.spec_props()).len() <= VBI_MAX,
        props_bytes(c.spec_will_props()).len() <= VBI_MAX,
    ensures
        connect_v5_result(c.spec_body() + rest) == Ok::<nat, MqttError>(c.spec_body().len()),
{
    let f = c.spec_flags();
    let d = c.spec_body() + rest;
    let pf = props_field(c.props@);
    let cid = c.client_id_buf.encoded();
    let w = opt_bytes(flag_will(f), props_field(c.will_props@) + c.will_topic_buf.encoded() + c.will_payload_buf.encoded());
    let u = opt_bytes(flag_user_name(f), c.user_name_buf.encoded());
    let p = opt_bytes(flag_password(f), c.password_buf.encoded());
    let ka = c.keep_alive_buf@;
    let head = protocol_name_bytes() + seq![5u8] + seq![f] + ka;
    assert(c.spec_body() == head + pf + cid + w + u + p);
    vstd::seq_lib::lemma_concat_associative(head + pf + cid + w + u, p, rest);
    vstd::seq_lib::lemma_concat_associative(head + pf + cid + w, u, p + rest);
    vstd::seq_lib::lemma_concat_associative(head + pf + cid, w, u + (p + rest));
    vstd::seq_lib::lemma_concat_associative(head + pf, cid, w + (u + (p + rest)));
    vstd::seq_lib::lemma_concat_associative(head, pf, cid + (w + (u + (p + rest))));
    assert(d == head + (pf + (cid + (w + (u + (p + rest))))));
    assert(head.len() == 10);
    assert(d.subrange(0, 6) =~= protocol_name_bytes());
    assert(d[6] == 5u8);
    assert(d[7] == f);
    crate::packet::connect_common::lemma_skip_head(head, pf + (cid + (w + (u + (p + rest)))));
    lemma_props_at_roundtrip(d, 10, c.props@, cid + (w + (u + (p + rest))), PropertySet::Connect);
    let c0 = 10 + pf.len();
    crate::packet::connect_common::lemma_client_id_roundtrip(d, c0, c.client_id_buf, w + (u + (p + rest)));
    let c1 = c0 + cid.len();
    lemma_will_credentials_roundtrip(d, f, c1, c, rest);
}

} // verus!
