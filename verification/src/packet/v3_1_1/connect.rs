use vstd::prelude::*;
use vstd::string::StringSliceAdditionalSpecFns;
use crate::packet::bytes::{append_bytes, be16, be16_value, lemma_be16_of_value, lemma_be16_roundtrip, u16_from_be, u16_to_be};
use crate::packet::connect_common::{
    client_id_result, connect_header_result, credentials_result, flag_clean, flag_password,
    flag_user_name, flag_will, flag_will_qos, flag_will_retain, lemma_subrange_concat, opt_bytes,
    parse_client_id, parse_connect_header, parse_credentials, parse_will_fields,
    protocol_name_bytes, will_fields_result,
};
use crate::packet::error::MqttError;
use crate::packet::mqtt_binary::MqttBinary;
use crate::packet::mqtt_string::MqttString;
use crate::packet::packet_type::PacketType;
use crate::packet::qos::Qos;
use crate::packet::variable_byte_integer::{vbi_encode, vbi_size, VariableByteInteger, VBI_MAX};

verus! {

/// Outcome of parsing the variable header and payload of a v3.1.1 CONNECT
/// packet from `d`: the number of bytes taken, or the error.
pub open spec fn connect_result(d: Seq<u8>) -> Result<nat, MqttError> {
    match connect_header_result(d, 4) {
        Err(e) => Err(e),
        Ok(_) => match client_id_result(d, 10) {
            Err(e) => Err(e),
            Ok(c1) => match will_fields_result(d, d[7], c1) {
                Err(e) => Err(e),
                Ok(c2) => credentials_result(d, d[7], c2),
            },
        },
    }
}

/// Variable header and payload of a v3.1.1 CONNECT packet with flags `f`:
/// every field, the optional ones when their flag is set.
pub open spec fn connect_body(
    f: u8,
    keep_alive: Seq<u8>,
    client_id: Seq<u8>,
    will_topic: Seq<u8>,
    will_payload: Seq<u8>,
    user_name: Seq<u8>,
    password: Seq<u8>,
) -> Seq<u8> {
    protocol_name_bytes() + seq![4u8] + seq![f] + keep_alive + client_id + opt_bytes(
        flag_will(f),
        will_topic + will_payload,
    ) + opt_bytes(flag_user_name(f), user_name) + opt_bytes(flag_password(f), password)
}

/// MQTT v3.1.1 CONNECT packet.
#[derive(PartialEq, Eq, Debug)]
pub struct Connect {
    fixed_header: [u8; 1],
    remaining_length: VariableByteInteger,
    protocol_name: [u8; 6],
    protocol_version_buf: [u8; 1],
    connect_flags_buf: [u8; 1],
    keep_alive_buf: [u8; 2],
    client_id_buf: MqttString,
    will_topic_buf: MqttString,
    will_payload_buf: MqttBinary,
    user_name_buf: MqttString,
    password_buf: MqttBinary,
}

impl Connect {
    #[verifier::type_invariant]
    pub closed spec fn inv(self) -> bool {
        &&& self.fixed_header@ == seq![0x10u8]
        &&& self.protocol_name@ == protocol_name_bytes()
        &&& self.protocol_version_buf@ == seq![4u8]
        &&& self.client_id_buf.wf()
        &&& self.will_topic_buf.wf()
        &&& self.will_payload_buf.wf()
        &&& self.user_name_buf.wf()
        &&& self.password_buf.wf()
        &&& self.remaining_length@ == self.spec_body().len()
    }

    pub closed spec fn spec_flags(self) -> u8 {
        self.connect_flags_buf@[0]
    }

    pub closed spec fn spec_keep_alive(self) -> nat {
        be16_value(self.keep_alive_buf@[0], self.keep_alive_buf@[1])
    }

    pub closed spec fn spec_client_id(self) -> Seq<char> {
        self.client_id_buf@
    }

    pub closed spec fn spec_will_topic(self) -> Seq<char> {
        self.will_topic_buf@
    }

    pub closed spec fn spec_will_payload(self) -> Seq<u8> {
        self.will_payload_buf@
    }

    pub closed spec fn spec_user_name(self) -> Seq<char> {
        self.user_name_buf@
    }

    pub closed spec fn spec_password(self) -> Seq<u8> {
        self.password_buf@
    }

    pub closed spec fn spec_remaining_length(self) -> nat {
        self.remaining_length@
    }

    /// Variable header and payload: every field, the optional ones when their
    /// flag is set.
    pub closed spec fn spec_body(self) -> Seq<u8> {
        connect_body(
            self.connect_flags_buf@[0],
            self.keep_alive_buf@,
            self.client_id_buf.encoded(),
            self.will_topic_buf.encoded(),
            self.will_payload_buf.encoded(),
            self.user_name_buf.encoded(),
            self.password_buf.encoded(),
        )
    }

    /// The whole packet: fixed header, remaining length, body.
    pub open spec fn spec_bytes(self) -> Seq<u8> {
        seq![0x10u8] + vbi_encode(self.spec_remaining_length()) + self.spec_body()
    }

    /// Create a new ConnectBuilder
    pub fn builder() -> (r: ConnectBuilder)
        ensures
            r.is_empty(),
    {
        ConnectBuilder::default()
    }

    pub fn packet_type() -> (r: PacketType)
        ensures
            r == PacketType::Connect,
    {
        PacketType::Connect
    }

    pub fn protocol_name(&self) -> (r: &'static str)
        ensures
            r@ == "MQTT"@,
    {
        "MQTT"
    }

    pub fn protocol_version(&self) -> (r: u8)
        ensures
            r == 4,
    {
        proof { use_type_invariant(self); }
        self.protocol_version_buf[0]
    }

    pub fn clean_session(&self) -> (r: bool)
        ensures
            r == flag_clean(self.spec_flags()),
    {
        (self.connect_flags_buf[0] & 0x02) != 0
    }

    /// Same as `clean_session`, under its v5.0 name.
    pub fn clean_start(&self) -> (r: bool)
        ensures
            r == flag_clean(self.spec_flags()),
    {
        self.clean_session()
    }

    pub fn will_flag(&self) -> (r: bool)
        ensures
            r == flag_will(self.spec_flags()),
    {
        (self.connect_flags_buf[0] & 0x04) != 0
    }

    pub fn will_qos(&self) -> (r: Qos)
        ensures
            r == flag_will_qos(self.spec_flags()),
    {
        let v = (self.connect_flags_buf[0] >> 3) & 0x03;
        if v == 1 {
            Qos::AtLeastOnce
        } else if v == 2 {
            Qos::ExactlyOnce
        } else {
            Qos::AtMostOnce
        }
    }

    pub fn will_retain(&self) -> (r: bool)
        ensures
            r == flag_will_retain(self.spec_flags()),
    {
        (self.connect_flags_buf[0] & 0x20) != 0
    }

    pub fn password_flag(&self) -> (r: bool)
        ensures
            r == flag_password(self.spec_flags()),
    {
        (self.connect_flags_buf[0] & 0x40) != 0
    }

    pub fn user_name_flag(&self) -> (r: bool)
        ensures
            r == flag_user_name(self.spec_flags()),
    {
        (self.connect_flags_buf[0] & 0x80) != 0
    }

    pub fn keep_alive(&self) -> (r: u16)
        ensures
            r as nat == self.spec_keep_alive(),
    {
        u16_from_be(self.keep_alive_buf[0], self.keep_alive_buf[1])
    }

    pub fn client_id(&self) -> (r: &str)
        ensures
            r@ == self.spec_client_id(),
    {
        proof { use_type_invariant(self); }
        self.client_id_buf.as_str()
    }

    /// The will topic, when the will flag is set.
    pub fn will_topic(&self) -> (r: Option<&str>)
        ensures
            flag_will(self.spec_flags()) <==> r is Some,
            r matches Some(s) ==> s@ == self.spec_will_topic(),
    {
        proof { use_type_invariant(self); }
        if self.will_flag() {
            Some(self.will_topic_buf.as_str())
        } else {
            None
        }
    }

    /// The will payload, when the will flag is set.
    pub fn will_payload(&self) -> (r: Option<&[u8]>)
        ensures
            flag_will(self.spec_flags()) <==> r is Some,
            r matches Some(s) ==> s@ == self.spec_will_payload(),
    {
        proof { use_type_invariant(self); }
        if self.will_flag() {
            Some(self.will_payload_buf.as_slice())
        } else {
            None
        }
    }

    /// The user name, when its flag is set.
    pub fn user_name(&self) -> (r: Option<&str>)
        ensures
            flag_user_name(self.spec_flags()) <==> r is Some,
            r matches Some(s) ==> s@ == self.spec_user_name(),
    {
        proof { use_type_invariant(self); }
        if self.user_name_flag() {
            Some(self.user_name_buf.as_str())
        } else {
            None
        }
    }

    /// The password, when its flag is set.
    pub fn password(&self) -> (r: Option<&[u8]>)
        ensures
            flag_password(self.spec_flags()) <==> r is Some,
            r matches Some(s) ==> s@ == self.spec_password(),
    {
        proof { use_type_invariant(self); }
        if self.password_flag() {
            Some(self.password_buf.as_slice())
        } else {
            None
        }
    }

    /// Total size of the packet in bytes.
    pub fn size(&self) -> (r: usize)
        ensures
            r == self.spec_bytes().len(),
            r == 1 + vbi_size(self.spec_remaining_length()) + self.spec_remaining_length(),
    {
        proof {
            use_type_invariant(self);
            crate::packet::variable_byte_integer::lemma_vbi_roundtrip(self.remaining_length@, Seq::<u8>::empty());
        }
        let rl = self.remaining_length.to_u32();
        1 + self.remaining_length.size() + rl as usize
    }

    /// Appends the fields that are present whatever the flags.
    fn write_fixed_fields(&self, buf: &mut Vec<u8>)
        ensures
            final(buf)@ == old(buf)@ + self.protocol_name@ + self.protocol_version_buf@
                + self.connect_flags_buf@ + self.keep_alive_buf@ + self.client_id_buf.encoded(),
    {
        proof { use_type_invariant(self); }
        let ghost start = buf@;
        append_bytes(buf, &self.protocol_name);
        append_bytes(buf, &self.protocol_version_buf);
        append_bytes(buf, &self.connect_flags_buf);
        append_bytes(buf, &self.keep_alive_buf);
        append_bytes(buf, self.client_id_buf.as_bytes());
    }

    /// Appends the will message, user name and password, each when its flag is set.
    fn write_optional_fields(&self, buf: &mut Vec<u8>)
        ensures
            final(buf)@ == old(buf)@ + opt_bytes(
                flag_will(self.spec_flags()),
                self.will_topic_buf.encoded() + self.will_payload_buf.encoded(),
            ) + opt_bytes(flag_user_name(self.spec_flags()), self.user_name_buf.encoded()) + opt_bytes(
                flag_password(self.spec_flags()),
                self.password_buf.encoded(),
            ),
    {
        proof { use_type_invariant(self); }
        let ghost f = self.spec_flags();
        let ghost b0 = buf@;
        if self.will_flag() {
            append_bytes(buf, self.will_topic_buf.as_bytes());
            append_bytes(buf, self.will_payload_buf.as_bytes());
        }
        let ghost b1 = buf@;
        assert(b1 =~= b0 + opt_bytes(flag_will(f), self.will_topic_buf.encoded() + self.will_payload_buf.encoded()));
        if self.user_name_flag() {
            append_bytes(buf, self.user_name_buf.as_bytes());
        }
        let ghost b2 = buf@;
        assert(b2 =~= b1 + opt_bytes(flag_user_name(f), self.user_name_buf.encoded()));
        if self.password_flag() {
            append_bytes(buf, self.password_buf.as_bytes());
        }
        assert(buf@ =~= b2 + opt_bytes(flag_password(f), self.password_buf.encoded()));
        assert(buf@ =~= b0 + opt_bytes(flag_will(f), self.will_topic_buf.encoded() + self.will_payload_buf.encoded())
            + opt_bytes(flag_user_name(f), self.user_name_buf.encoded()) + opt_bytes(flag_password(f), self.password_buf.encoded()));
    }

    /// The encoded packet.
    pub fn to_continuous_buffer(&self) -> (r: Vec<u8>)
        ensures
            r@ == self.spec_bytes(),
    {
        proof { use_type_invariant(self); }
        let mut buf: Vec<u8> = Vec::new();
        buf.push(self.fixed_header[0]);
        let rl = self.remaining_length.to_continuous_buffer();
        append_bytes(&mut buf, rl.as_slice());
        let ghost head = buf@;
        self.write_fixed_fields(&mut buf);
        let ghost mid = buf@;
        self.write_optional_fields(&mut buf);
        proof {
            assert(head =~= seq![0x10u8] + vbi_encode(self.spec_remaining_length()));
            assert(buf@ =~= self.spec_bytes());
        }
        buf
    }

    /// A packet from its fields, with the remaining length computed from them.
    fn assemble(
        flags: u8,
        keep_alive_buf: [u8; 2],
        client_id_buf: MqttString,
        will_topic_buf: MqttString,
        will_payload_buf: MqttBinary,
        user_name_buf: MqttString,
        password_buf: MqttBinary,
    ) -> (r: Connect)
        requires
            client_id_buf.wf(),
            will_topic_buf.wf(),
            will_payload_buf.wf(),
            user_name_buf.wf(),
            password_buf.wf(),
        ensures
            r.spec_flags() == flags,
            r.keep_alive_buf@ == keep_alive_buf@,
            r.client_id_buf.encoded() == client_id_buf.encoded(),
            r.client_id_buf@ == client_id_buf@,
            r.will_topic_buf@ == will_topic_buf@,
            r.will_payload_buf@ == will_payload_buf@,
            r.user_name_buf@ == user_name_buf@,
            r.password_buf@ == password_buf@,
            r.spec_body() == connect_body(
                flags,
                keep_alive_buf@,
                client_id_buf.encoded(),
                will_topic_buf.encoded(),
                will_payload_buf.encoded(),
                user_name_buf.encoded(),
                password_buf.encoded(),
            ),
    {
        let mut remaining: usize = 10;
        remaining = remaining + client_id_buf.size();
        if (flags & 0x04) != 0 {
            remaining = remaining + will_topic_buf.size();
            remaining = remaining + will_payload_buf.size();
        }
        if (flags & 0x80) != 0 {
            remaining = remaining + user_name_buf.size();
        }
        if (flags & 0x40) != 0 {
            remaining = remaining + password_buf.size();
        }
        proof {
            client_id_buf.lemma_encoded();
            will_topic_buf.lemma_encoded();
            will_payload_buf.lemma_encoded();
            user_name_buf.lemma_encoded();
            password_buf.lemma_encoded();
        }
        let remaining_length = match VariableByteInteger::from_u32(remaining as u32) {
            Some(v) => v,
            None => {
                assert(false);
                VariableByteInteger::from_u32(0).unwrap()
            },
        };
        let fixed_header: [u8; 1] = [0x10];
        let protocol_name: [u8; 6] = [0x00, 0x04, 0x4D, 0x51, 0x54, 0x54];
        let protocol_version_buf: [u8; 1] = [0x04];
        let connect_flags_buf: [u8; 1] = [flags];
        proof {
            assert(protocol_name@ =~= protocol_name_bytes());
            assert(fixed_header@ =~= seq![0x10u8]);
            assert(protocol_version_buf@ =~= seq![4u8]);
            assert(connect_flags_buf@ =~= seq![flags]);
            assert(connect_body(flags, keep_alive_buf@, client_id_buf.encoded(), will_topic_buf.encoded(),
                will_payload_buf.encoded(), user_name_buf.encoded(), password_buf.encoded()).len()
                == remaining);
        }
        let c = Connect {
            fixed_header,
            remaining_length,
            protocol_name,
            protocol_version_buf,
            connect_flags_buf,
            keep_alive_buf,
            client_id_buf,
            will_topic_buf,
            will_payload_buf,
            user_name_buf,
            password_buf,
        };
        c
    }

    /// Parses the variable header and payload of a v3.1.1 CONNECT packet.
    pub fn parse(data: &[u8]) -> (r: Result<(Connect, usize), MqttError>)
        ensures
            r is Ok <==> connect_result(data@) is Ok,
            r matches Ok((c, n)) ==> connect_result(data@) == Ok::<nat, MqttError>(n as nat)
                && c.spec_body() == data@.subrange(0, n as int) && c.spec_remaining_length() == n,
            r matches Err(e) ==> connect_result(data@) == Err::<nat, MqttError>(e),
    {
        parse_connect_header(data, 4)?;
        let connect_flags = data[7];
        let keep_alive_buf = [data[8], data[9]];
        let (client_id_buf, c1) = parse_client_id(data, 10)?;
        let (will_topic_buf, will_payload_buf, c2) = parse_will_fields(data, connect_flags, c1)?;
        let (user_name_buf, password_buf, c3) = parse_credentials(data, connect_flags, c2)?;
        proof {
            assert(data@.subrange(0, 6) == protocol_name_bytes());
            assert(protocol_name_bytes() + seq![4u8] + seq![connect_flags] + keep_alive_buf@
                =~= data@.subrange(0, 10));
            lemma_subrange_concat(data@, 0, 10, c1 as int);
            lemma_subrange_concat(data@, 0, c1 as int, c2 as int);
            lemma_subrange_concat(data@, 0, c2 as int, c3 as int);
            assert(connect_body(connect_flags, keep_alive_buf@, client_id_buf.encoded(),
                will_topic_buf.encoded(), will_payload_buf.encoded(), user_name_buf.encoded(),
                password_buf.encoded()) =~= data@.subrange(0, c3 as int));
        }
        let connect = Connect::assemble(
            connect_flags,
            keep_alive_buf,
            client_id_buf,
            will_topic_buf,
            will_payload_buf,
            user_name_buf,
            password_buf,
        );
        proof { use_type_invariant(&connect); }
        Ok((connect, c3))
    }
}

/// What a `ConnectBuilder` has been given so far.
pub ghost struct ConnectBuilderView {
    pub flags: Option<u8>,
    pub keep_alive: Option<nat>,
    pub client_id: Option<Seq<char>>,
    pub will_topic: Option<Seq<char>>,
    pub will_payload: Option<Seq<u8>>,
    pub user_name: Option<Seq<char>>,
    pub password: Option<Seq<u8>>,
}

/// Builder of a v3.1.1 CONNECT packet.
#[derive(Debug)]
pub struct ConnectBuilder {
    connect_flags_buf: Option<[u8; 1]>,
    keep_alive_buf: Option<[u8; 2]>,
    client_id_buf: Option<MqttString>,
    will_topic_buf: Option<MqttString>,
    will_payload_buf: Option<MqttBinary>,
    user_name_buf: Option<MqttString>,
    password_buf: Option<MqttBinary>,
}

/// The flags a built CONNECT carries: those set so far, or Clean Session alone.
pub open spec fn flags_or_default(f: Option<u8>) -> u8 {
    match f {
        Some(v) => v,
        None => 0x02u8,
    }
}

impl View for ConnectBuilder {
    type V = ConnectBuilderView;

    closed spec fn view(&self) -> ConnectBuilderView {
        ConnectBuilderView {
            flags: match self.connect_flags_buf {
                Some(b) => Some(b@[0]),
                None => None,
            },
            keep_alive: match self.keep_alive_buf {
                Some(b) => Some(be16_value(b@[0], b@[1])),
                None => None,
            },
            client_id: match self.client_id_buf {
                Some(s) => Some(s@),
                None => None,
            },
            will_topic: match self.will_topic_buf {
                Some(s) => Some(s@),
                None => None,
            },
            will_payload: match self.will_payload_buf {
                Some(s) => Some(s@),
                None => None,
            },
            user_name: match self.user_name_buf {
                Some(s) => Some(s@),
                None => None,
            },
            password: match self.password_buf {
                Some(s) => Some(s@),
                None => None,
            },
        }
    }
}

impl Default for ConnectBuilder {
    fn default() -> (r: ConnectBuilder)
        ensures
            r.is_empty(),
    {
        ConnectBuilder {
            connect_flags_buf: None,
            keep_alive_buf: None,
            client_id_buf: None,
            will_topic_buf: None,
            will_payload_buf: None,
            user_name_buf: None,
            password_buf: None,
        }
    }
}

impl ConnectBuilder {
    #[verifier::type_invariant]
    pub closed spec fn inv(self) -> bool {
        &&& (self.client_id_buf matches Some(s) ==> s.wf())
        &&& (self.will_topic_buf matches Some(s) ==> s.wf())
        &&& (self.will_payload_buf matches Some(s) ==> s.wf())
        &&& (self.user_name_buf matches Some(s) ==> s.wf())
        &&& (self.password_buf matches Some(s) ==> s.wf())
    }

    /// Nothing has been set.
    pub open spec fn is_empty(self) -> bool {
        &&& self@.flags is None
        &&& self@.keep_alive is None
        &&& self@.client_id is None
        &&& self@.will_topic is None
        &&& self@.will_payload is None
        &&& self@.user_name is None
        &&& self@.password is None
    }

    /// Sets the client identifier; `MalformedPacket` when it is longer than
    /// 65,535 bytes.
    pub fn client_id(self, id: &str) -> (r: Result<ConnectBuilder, MqttError>)
        ensures
            id.spec_bytes().len() <= 65535 <==> r is Ok,
            r matches Ok(b) ==> b@ == (ConnectBuilderView { client_id: Some(id@), ..self@ }),
            r matches Err(e) ==> e == MqttError::MalformedPacket,
    {
        let mqtt_str = MqttString::new(id)?;
        let mut b = self;
        proof { use_type_invariant(&b); }
        b.client_id_buf = Some(mqtt_str);
        Ok(b)
    }

    /// Sets or clears the Clean Session flag.
    pub fn clean_session(self, clean: bool) -> (r: ConnectBuilder)
        ensures
            r@ == (ConnectBuilderView {
                flags: Some(
                    if clean {
                        flags_or_zero(self@.flags) | 0x02
                    } else {
                        flags_or_zero(self@.flags) & !0x02u8
                    },
                ),
                ..self@
            }),
    {
        let mut flags = match self.connect_flags_buf {
            Some(b) => b[0],
            None => 0,
        };
        if clean {
            flags = flags | 0x02;
        } else {
            flags = flags & !0x02u8;
        }
        let mut b = self;
        proof { use_type_invariant(&b); }
        b.connect_flags_buf = Some([flags]);
        b
    }

    /// Same as `clean_session`, under its v5.0 name.
    pub fn clean_start(self, clean: bool) -> (r: ConnectBuilder)
        ensures
            r@ == (ConnectBuilderView {
                flags: Some(
                    if clean {
                        flags_or_zero(self@.flags) | 0x02
                    } else {
                        flags_or_zero(self@.flags) & !0x02u8
                    },
                ),
                ..self@
            }),
    {
        self.clean_session(clean)
    }

    /// Sets the will message; `MalformedPacket` when the topic or payload is
    /// longer than 65,535 bytes.
    pub fn will_message(self, topic: &str, payload: &[u8], qos: Qos, retain: bool) -> (r: Result<
        ConnectBuilder,
        MqttError,
    >)
        ensures
            (topic.spec_bytes().len() <= 65535 && payload@.len() <= 65535) <==> r is Ok,
            r matches Ok(b) ==> b@ == (ConnectBuilderView {
                flags: Some(
                    (flags_or_default(self@.flags) | 0x04 | ((qos.spec_to_u8() << 3u8) as u8) | (if retain {
                        0x20u8
                    } else {
                        0u8
                    })) as u8,
                ),
                will_topic: Some(topic@),
                will_payload: Some(payload@),
                ..self@
            }),
            r matches Err(e) ==> e == MqttError::MalformedPacket,
    {
        let will_topic = MqttString::new(topic)?;
        let will_payload = MqttBinary::new(payload)?;
        let mut flags = match self.connect_flags_buf {
            Some(b) => b[0],
            None => 0x02,
        };
        flags = flags | 0x04;
        flags = flags | (qos.to_u8() << 3u8);
        if retain {
            flags = flags | 0x20;
        } else {
            flags = flags | 0u8;
        }
        let mut b = self;
        proof { use_type_invariant(&b); }
        b.will_topic_buf = Some(will_topic);
        b.will_payload_buf = Some(will_payload);
        b.connect_flags_buf = Some([flags]);
        Ok(b)
    }

    /// Sets the user name; `MalformedPacket` when it is longer than 65,535 bytes.
    pub fn user_name(self, name: &str) -> (r: Result<ConnectBuilder, MqttError>)
        ensures
            name.spec_bytes().len() <= 65535 <==> r is Ok,
            r matches Ok(b) ==> b@ == (ConnectBuilderView {
                flags: Some(flags_or_default(self@.flags) | 0x80),
                user_name: Some(name@),
                ..self@
            }),
            r matches Err(e) ==> e == MqttError::MalformedPacket,
    {
        let mqtt_str = MqttString::new(name)?;
        let flags = match self.connect_flags_buf {
            Some(b) => b[0],
            None => 0x02,
        };
        let mut b = self;
        proof { use_type_invariant(&b); }
        b.user_name_buf = Some(mqtt_str);
        b.connect_flags_buf = Some([flags | 0x80]);
        Ok(b)
    }

    /// Sets the password; `MalformedPacket` when it is longer than 65,535 bytes.
    pub fn password(self, pwd: &[u8]) -> (r: Result<ConnectBuilder, MqttError>)
        ensures
            pwd@.len() <= 65535 <==> r is Ok,
            r matches Ok(b) ==> b@ == (ConnectBuilderView {
                flags: Some(flags_or_default(self@.flags) | 0x40),
                password: Some(pwd@),
                ..self@
            }),
            r matches Err(e) ==> e == MqttError::MalformedPacket,
    {
        let mqtt_bin = MqttBinary::new(pwd)?;
        let flags = match self.connect_flags_buf {
            Some(b) => b[0],
            None => 0x02,
        };
        let mut b = self;
        proof { use_type_invariant(&b); }
        b.password_buf = Some(mqtt_bin);
        b.connect_flags_buf = Some([flags | 0x40]);
        Ok(b)
    }

    /// Sets the keep alive interval in seconds.
    pub fn keep_alive(self, seconds: u16) -> (r: ConnectBuilder)
        ensures
            r@ == (ConnectBuilderView { keep_alive: Some(seconds as nat), ..self@ }),
    {
        let kb = u16_to_be(seconds);
        proof { lemma_be16_roundtrip(seconds as nat); }
        let mut b = self;
        proof { use_type_invariant(&b); }
        b.keep_alive_buf = Some(kb);
        b
    }

    fn validate(&self) -> (r: Result<(), MqttError>)
        ensures
            r == build_check(self@),
    {
        let flags = match self.connect_flags_buf {
            Some(b) => b[0],
            None => 0x02,
        };
        if (flags & 0x40) != 0 && (flags & 0x80) == 0 {
            return Err(MqttError::ProtocolError);
        }
        if (flags & 0x04) != 0 {
            if self.will_topic_buf.is_none() || self.will_payload_buf.is_none() {
                return Err(MqttError::MalformedPacket);
            }
        }
        Ok(())
    }

    /// Builds the packet; `ProtocolError` when a password is set without a
    /// user name, `MalformedPacket` when the will flag is set without a will
    /// message. Unset fields take their defaults (Clean Session set, keep
    /// alive 0, empty client identifier).
    pub fn build(self) -> (r: Result<Connect, MqttError>)
        ensures
            build_check(self@) is Ok <==> r is Ok,
            r matches Err(e) ==> build_check(self@) == Err::<(), MqttError>(e),
            r matches Ok(c) ==> {
                &&& c.spec_flags() == flags_or_default(self@.flags)
                &&& c.spec_keep_alive() == opt_nat(self@.keep_alive)
                &&& c.spec_client_id() == opt_chars(self@.client_id)
                &&& c.spec_will_topic() == opt_chars(self@.will_topic)
                &&& c.spec_will_payload() == opt_bytes_val(self@.will_payload)
                &&& c.spec_user_name() == opt_chars(self@.user_name)
                &&& c.spec_password() == opt_bytes_val(self@.password)
                &&& c.spec_remaining_length() == c.spec_body().len()
            },
    {
        self.validate()?;
        proof { use_type_invariant(&self); }
        let connect_flags_buf = match self.connect_flags_buf {
            Some(b) => b,
            None => [0x02],
        };
        let connect_flags = connect_flags_buf[0];
        let keep_alive_buf = match self.keep_alive_buf {
            Some(b) => b,
            None => [0, 0],
        };
        let client_id_buf = match self.client_id_buf {
            Some(s) => s,
            None => MqttString::default(),
        };
        let will_topic_buf = match self.will_topic_buf {
            Some(s) => s,
            None => MqttString::default(),
        };
        let will_payload_buf = match self.will_payload_buf {
            Some(s) => s,
            None => MqttBinary::default(),
        };
        let user_name_buf = match self.user_name_buf {
            Some(s) => s,
            None => MqttString::default(),
        };
        let password_buf = match self.password_buf {
            Some(s) => s,
            None => MqttBinary::default(),
        };
        proof {
            lemma_be16_of_value(keep_alive_buf@[0], keep_alive_buf@[1]);
        }
        let c = Connect::assemble(
            connect_flags,
            keep_alive_buf,
            client_id_buf,
            will_topic_buf,
            will_payload_buf,
            user_name_buf,
            password_buf,
        );
        proof { use_type_invariant(&c); }
        Ok(c)
    }
}

/// The flags set so far, or none.
pub open spec fn flags_or_zero(f: Option<u8>) -> u8 {
    match f {
        Some(v) => v,
        None => 0u8,
    }
}

pub open spec fn opt_nat(v: Option<nat>) -> nat {
    match v {
        Some(x) => x,
        None => 0,
    }
}

pub open spec fn opt_chars(v: Option<Seq<char>>) -> Seq<char> {
    match v {
        Some(x) => x,
        None => Seq::<char>::empty(),
    }
}

pub open spec fn opt_bytes_val(v: Option<Seq<u8>>) -> Seq<u8> {
    match v {
        Some(x) => x,
        None => Seq::<u8>::empty(),
    }
}

/// The checks `build` makes before building.
pub open spec fn build_check(b: ConnectBuilderView) -> Result<(), MqttError> {
    let f = flags_or_default(b.flags);
    if flag_password(f) && !flag_user_name(f) {
        Err(MqttError::ProtocolError)
    } else if flag_will(f) && (b.will_topic is None || b.will_payload is None) {
        Err(MqttError::MalformedPacket)
    } else {
        Ok(())
    }
}

/// Parsing the body of a v3.1.1 CONNECT packet gives back the whole body,
/// whatever follows it, unless the flags announce a password without a user
/// name.
pub proof fn lemma_connect_roundtrip(c: Connect, rest: Seq<u8>)
    requires
        c.inv(),
        !(flag_password(c.spec_flags()) && !flag_user_name(c.spec_flags())),
    ensures
        connect_result(c.spec_body() + rest) == Ok::<nat, MqttError>(c.spec_body().len()),
{
    let f = c.spec_flags();
    let d = c.spec_body() + rest;
    let cid = c.client_id_buf.encoded();
    let w = opt_bytes(flag_will(f), c.will_topic_buf.encoded() + c.will_payload_buf.encoded());
    let u = opt_bytes(flag_user_name(f), c.user_name_buf.encoded());
    let p = opt_bytes(flag_password(f), c.password_buf.encoded());
    let ka = c.keep_alive_buf@;
    let head = protocol_name_bytes() + seq![4u8] + seq![f] + ka;
    assert(c.spec_body() == head + cid + w + u + p);
    vstd::seq_lib::lemma_concat_associative(head + cid + w + u, p, rest);
    vstd::seq_lib::lemma_concat_associative(head + cid + w, u, p + rest);
    vstd::seq_lib::lemma_concat_associative(head + cid, w, u + (p + rest));
    vstd::seq_lib::lemma_concat_associative(head, cid, w + (u + (p + rest)));
    assert(d == head + (cid + (w + (u + (p + rest)))));
    assert(head.len() == 10);
    assert(d.subrange(0, 6) =~= protocol_name_bytes());
    assert(d[6] == 4u8);
    assert(d[7] == f);
    crate::packet::connect_common::lemma_skip_head(head, cid + (w + (u + (p + rest))));
    crate::packet::connect_common::lemma_client_id_roundtrip(d, 10, c.client_id_buf, w + (u + (p + rest)));
    let c1 = 10 + cid.len();
    vstd::seq_lib::lemma_concat_associative(u, p, rest);
    crate::packet::connect_common::lemma_will_fields_roundtrip(d, f, c1, c.will_topic_buf, c.will_payload_buf, u + p + rest);
    let c2 = c1 + w.len();
    crate::packet::connect_common::lemma_credentials_roundtrip(d, f, c2, c.user_name_buf, c.password_buf, rest);
}

} // verus!
