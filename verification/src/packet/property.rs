use vstd::prelude::*;
use vstd::utf8::valid_utf8;
use vstd::string::StringSliceAdditionalSpecFns;
use crate::packet::bytes::{append_bytes, be16, be16_value, be32, be32_value, lemma_be16_of_value, lemma_be16_roundtrip, lemma_be32_of_value, lemma_be32_roundtrip, tail, u16_from_be, u16_to_be, u32_from_be, u32_to_be};
use crate::packet::error::MqttError;
use crate::packet::mqtt_binary::{has_length_prefixed, length_prefixed, length_prefixed_data, length_prefixed_size, lemma_binary_roundtrip, MqttBinary};
use crate::packet::mqtt_string::{lemma_string_roundtrip, MqttString};
use crate::packet::variable_byte_integer::{lemma_vbi_roundtrip, vbi_decode_len, vbi_encode, vbi_size, vbi_value, DecodeResult, VariableByteInteger, VBI_MAX};

verus! {

/// Identifiers of MQTT v5.0 properties.
#[derive(Debug, PartialEq, Eq, Copy, Clone, Structural)]
pub enum PropertyId {
    PayloadFormatIndicator,
    MessageExpiryInterval,
    ContentType,
    ResponseTopic,
    CorrelationData,
    SubscriptionIdentifier,
    SessionExpiryInterval,
    AssignedClientIdentifier,
    ServerKeepAlive,
    AuthenticationMethod,
    AuthenticationData,
    RequestProblemInformation,
    WillDelayInterval,
    RequestResponseInformation,
    ResponseInformation,
    ServerReference,
    ReasonString,
    ReceiveMaximum,
    TopicAliasMaximum,
    TopicAlias,
    MaximumQos,
    RetainAvailable,
    UserProperty,
    MaximumPacketSize,
    WildcardSubscriptionAvailable,
    SubscriptionIdentifierAvailable,
    SharedSubscriptionAvailable,
}

impl PropertyId {
    /// The wire value of the identifier.
    pub open spec fn spec_as_u8(self) -> u8 {
        match self {
            PropertyId::PayloadFormatIndicator => 1,
            PropertyId::MessageExpiryInterval => 2,
            PropertyId::ContentType => 3,
            PropertyId::ResponseTopic => 8,
            PropertyId::CorrelationData => 9,
            PropertyId::SubscriptionIdentifier => 11,
            PropertyId::SessionExpiryInterval => 17,
            PropertyId::AssignedClientIdentifier => 18,
            PropertyId::ServerKeepAlive => 19,
            PropertyId::AuthenticationMethod => 21,
            PropertyId::AuthenticationData => 22,
            PropertyId::RequestProblemInformation => 23,
            PropertyId::WillDelayInterval => 24,
            PropertyId::RequestResponseInformation => 25,
            PropertyId::ResponseInformation => 26,
            PropertyId::ServerReference => 28,
            PropertyId::ReasonString => 31,
            PropertyId::ReceiveMaximum => 33,
            PropertyId::TopicAliasMaximum => 34,
            PropertyId::TopicAlias => 35,
            PropertyId::MaximumQos => 36,
            PropertyId::RetainAvailable => 37,
            PropertyId::UserProperty => 38,
            PropertyId::MaximumPacketSize => 39,
            PropertyId::WildcardSubscriptionAvailable => 40,
            PropertyId::SubscriptionIdentifierAvailable => 41,
            PropertyId::SharedSubscriptionAvailable => 42,
        }
    }

    /// The identifier with wire value `v`.
    pub open spec fn spec_from_u8(v: u8) -> Option<PropertyId> {
        if v == 1 {
            Some(PropertyId::PayloadFormatIndicator)
        } else if v == 2 {
            Some(PropertyId::MessageExpiryInterval)
        } else if v == 3 {
            Some(PropertyId::ContentType)
        } else if v == 8 {
            Some(PropertyId::ResponseTopic)
        } else if v == 9 {
            Some(PropertyId::CorrelationData)
        } else if v == 11 {
            Some(PropertyId::SubscriptionIdentifier)
        } else if v == 17 {
            Some(PropertyId::SessionExpiryInterval)
        } else if v == 18 {
            Some(PropertyId::AssignedClientIdentifier)
        } else if v == 19 {
            Some(PropertyId::ServerKeepAlive)
        } else if v == 21 {
            Some(PropertyId::AuthenticationMethod)
        } else if v == 22 {
            Some(PropertyId::AuthenticationData)
        } else if v == 23 {
            Some(PropertyId::RequestProblemInformation)
        } else if v == 24 {
            Some(PropertyId::WillDelayInterval)
        } else if v == 25 {
            Some(PropertyId::RequestResponseInformation)
        } else if v == 26 {
            Some(PropertyId::ResponseInformation)
        } else if v == 28 {
            Some(PropertyId::ServerReference)
        } else if v == 31 {
            Some(PropertyId::ReasonString)
        } else if v == 33 {
            Some(PropertyId::ReceiveMaximum)
        } else if v == 34 {
            Some(PropertyId::TopicAliasMaximum)
        } else if v == 35 {
            Some(PropertyId::TopicAlias)
        } else if v == 36 {
            Some(PropertyId::MaximumQos)
        } else if v == 37 {
            Some(PropertyId::RetainAvailable)
        } else if v == 38 {
            Some(PropertyId::UserProperty)
        } else if v == 39 {
            Some(PropertyId::MaximumPacketSize)
        } else if v == 40 {
            Some(PropertyId::WildcardSubscriptionAvailable)
        } else if v == 41 {
            Some(PropertyId::SubscriptionIdentifierAvailable)
        } else if v == 42 {
            Some(PropertyId::SharedSubscriptionAvailable)
        } else {
            None
        }
    }

    /// Get the numeric identifier value
    pub fn as_u8(self) -> (r: u8)
        ensures
            r == self.spec_as_u8(),
    {
        match self {
            PropertyId::PayloadFormatIndicator => 1,
            PropertyId::MessageExpiryInterval => 2,
            PropertyId::ContentType => 3,
            PropertyId::ResponseTopic => 8,
            PropertyId::CorrelationData => 9,
            PropertyId::SubscriptionIdentifier => 11,
            PropertyId::SessionExpiryInterval => 17,
            PropertyId::AssignedClientIdentifier => 18,
            PropertyId::ServerKeepAlive => 19,
            PropertyId::AuthenticationMethod => 21,
            PropertyId::AuthenticationData => 22,
            PropertyId::RequestProblemInformation => 23,
            PropertyId::WillDelayInterval => 24,
            PropertyId::RequestResponseInformation => 25,
            PropertyId::ResponseInformation => 26,
            PropertyId::ServerReference => 28,
            PropertyId::ReasonString => 31,
            PropertyId::ReceiveMaximum => 33,
            PropertyId::TopicAliasMaximum => 34,
            PropertyId::TopicAlias => 35,
            PropertyId::MaximumQos => 36,
            PropertyId::RetainAvailable => 37,
            PropertyId::UserProperty => 38,
            PropertyId::MaximumPacketSize => 39,
            PropertyId::WildcardSubscriptionAvailable => 40,
            PropertyId::SubscriptionIdentifierAvailable => 41,
            PropertyId::SharedSubscriptionAvailable => 42,
        }
    }

    /// The identifier with wire value `v`; `None` for an unassigned value.
    pub fn from_u8(v: u8) -> (r: Option<PropertyId>)
        ensures
            r == PropertyId::spec_from_u8(v),
    {
        match v {
            1 => Some(PropertyId::PayloadFormatIndicator),
            2 => Some(PropertyId::MessageExpiryInterval),
            3 => Some(PropertyId::ContentType),
            8 => Some(PropertyId::ResponseTopic),
            9 => Some(PropertyId::CorrelationData),
            11 => Some(PropertyId::SubscriptionIdentifier),
            17 => Some(PropertyId::SessionExpiryInterval),
            18 => Some(PropertyId::AssignedClientIdentifier),
            19 => Some(PropertyId::ServerKeepAlive),
            21 => Some(PropertyId::AuthenticationMethod),
            22 => Some(PropertyId::AuthenticationData),
            23 => Some(PropertyId::RequestProblemInformation),
            24 => Some(PropertyId::WillDelayInterval),
            25 => Some(PropertyId::RequestResponseInformation),
            26 => Some(PropertyId::ResponseInformation),
            28 => Some(PropertyId::ServerReference),
            31 => Some(PropertyId::ReasonString),
            33 => Some(PropertyId::ReceiveMaximum),
            34 => Some(PropertyId::TopicAliasMaximum),
            35 => Some(PropertyId::TopicAlias),
            36 => Some(PropertyId::MaximumQos),
            37 => Some(PropertyId::RetainAvailable),
            38 => Some(PropertyId::UserProperty),
            39 => Some(PropertyId::MaximumPacketSize),
            40 => Some(PropertyId::WildcardSubscriptionAvailable),
            41 => Some(PropertyId::SubscriptionIdentifierAvailable),
            42 => Some(PropertyId::SharedSubscriptionAvailable),
            _ => None,
        }
    }

    /// Get the property name as used in JSON output
    pub fn as_str(&self) -> (r: &'static str)
        ensures
            r@ == match self {
                PropertyId::PayloadFormatIndicator => "payload_format_indicator"@,
                PropertyId::MessageExpiryInterval => "message_expiry_interval"@,
                PropertyId::ContentType => "content_type"@,
                PropertyId::ResponseTopic => "response_topic"@,
                PropertyId::CorrelationData => "correlation_data"@,
                PropertyId::SubscriptionIdentifier => "subscription_identifier"@,
                PropertyId::SessionExpiryInterval => "session_expiry_interval"@,
                PropertyId::AssignedClientIdentifier => "assigned_client_identifier"@,
                PropertyId::ServerKeepAlive => "server_keep_alive"@,
                PropertyId::AuthenticationMethod => "authentication_method"@,
                PropertyId::AuthenticationData => "authentication_data"@,
                PropertyId::RequestProblemInformation => "request_problem_information"@,
                PropertyId::WillDelayInterval => "will_delay_interval"@,
                PropertyId::RequestResponseInformation => "request_response_information"@,
                PropertyId::ResponseInformation => "response_information"@,
                PropertyId::ServerReference => "server_reference"@,
                PropertyId::ReasonString => "reason_string"@,
                PropertyId::ReceiveMaximum => "receive_maximum"@,
                PropertyId::TopicAliasMaximum => "topic_alias_maximum"@,
                PropertyId::TopicAlias => "topic_alias"@,
                PropertyId::MaximumQos => "maximum_qos"@,
                PropertyId::RetainAvailable => "retain_available"@,
                PropertyId::UserProperty => "user_property"@,
                PropertyId::MaximumPacketSize => "maximum_packet_size"@,
                PropertyId::WildcardSubscriptionAvailable => "wildcard_subscription_available"@,
                PropertyId::SubscriptionIdentifierAvailable => "subscription_identifier_available"@,
                PropertyId::SharedSubscriptionAvailable => "shared_subscription_available"@,
            },
    {
        match self {
            PropertyId::PayloadFormatIndicator => "payload_format_indicator",
            PropertyId::MessageExpiryInterval => "message_expiry_interval",
            PropertyId::ContentType => "content_type",
            PropertyId::ResponseTopic => "response_topic",
            PropertyId::CorrelationData => "correlation_data",
            PropertyId::SubscriptionIdentifier => "subscription_identifier",
            PropertyId::SessionExpiryInterval => "session_expiry_interval",
            PropertyId::AssignedClientIdentifier => "assigned_client_identifier",
            PropertyId::ServerKeepAlive => "server_keep_alive",
            PropertyId::AuthenticationMethod => "authentication_method",
            PropertyId::AuthenticationData => "authentication_data",
            PropertyId::RequestProblemInformation => "request_problem_information",
            PropertyId::WillDelayInterval => "will_delay_interval",
            PropertyId::RequestResponseInformation => "request_response_information",
            PropertyId::ResponseInformation => "response_information",
            PropertyId::ServerReference => "server_reference",
            PropertyId::ReasonString => "reason_string",
            PropertyId::ReceiveMaximum => "receive_maximum",
            PropertyId::TopicAliasMaximum => "topic_alias_maximum",
            PropertyId::TopicAlias => "topic_alias",
            PropertyId::MaximumQos => "maximum_qos",
            PropertyId::RetainAvailable => "retain_available",
            PropertyId::UserProperty => "user_property",
            PropertyId::MaximumPacketSize => "maximum_packet_size",
            PropertyId::WildcardSubscriptionAvailable => "wildcard_subscription_available",
            PropertyId::SubscriptionIdentifierAvailable => "subscription_identifier_available",
            PropertyId::SharedSubscriptionAvailable => "shared_subscription_available",
        }
    }
}

pub proof fn lemma_property_id_roundtrip(id: PropertyId)
    ensures
        PropertyId::spec_from_u8(id.spec_as_u8()) == Some(id),
{
}

/// Payload format of a PUBLISH payload.
#[derive(Debug, PartialEq, Eq, Copy, Clone, Structural)]
pub enum PayloadFormat {
    Binary,
    String,
}

impl PayloadFormat {
    pub open spec fn spec_to_u8(self) -> u8 {
        match self {
            PayloadFormat::Binary => 0,
            PayloadFormat::String => 1,
        }
    }
}

/// Outcome of parsing a one-byte property value from `b`: the number of
/// bytes taken, or the error.
pub open spec fn u8_field_result(b: Seq<u8>, at_most_one: bool) -> Result<nat, MqttError> {
    if b.len() < 1 {
        Err(MqttError::MalformedPacket)
    } else if at_most_one && b[0] > 1 {
        Err(MqttError::ProtocolError)
    } else {
        Ok(1)
    }
}

/// Outcome of parsing a two-byte property value.
pub open spec fn u16_field_result(b: Seq<u8>, non_zero: bool) -> Result<nat, MqttError> {
    if b.len() < 2 {
        Err(MqttError::MalformedPacket)
    } else if non_zero && be16_value(b[0], b[1]) == 0 {
        Err(MqttError::ProtocolError)
    } else {
        Ok(2)
    }
}

/// Outcome of parsing a four-byte property value.
pub open spec fn u32_field_result(b: Seq<u8>, non_zero: bool) -> Result<nat, MqttError> {
    if b.len() < 4 {
        Err(MqttError::MalformedPacket)
    } else if non_zero && be32_value(b[0], b[1], b[2], b[3]) == 0 {
        Err(MqttError::ProtocolError)
    } else {
        Ok(4)
    }
}

/// Outcome of parsing a Variable Byte Integer property value.
pub open spec fn vbi_field_result(b: Seq<u8>, non_zero: bool) -> Result<nat, MqttError> {
    match vbi_decode_len(b) {
        None => Err(MqttError::MalformedPacket),
        Some(n) => if non_zero && vbi_value(b, n) == 0 {
            Err(MqttError::ProtocolError)
        } else {
            Ok(n)
        },
    }
}

/// Outcome of parsing a UTF-8 string property value.
pub open spec fn string_field_result(b: Seq<u8>) -> Result<nat, MqttError> {
    if has_length_prefixed(b) && valid_utf8(length_prefixed_data(b)) {
        Ok(length_prefixed_size(b))
    } else {
        Err(MqttError::MalformedPacket)
    }
}

/// Outcome of parsing a binary property value.
pub open spec fn binary_field_result(b: Seq<u8>) -> Result<nat, MqttError> {
    if has_length_prefixed(b) {
        Ok(length_prefixed_size(b))
    } else {
        Err(MqttError::MalformedPacket)
    }
}

/// Outcome of parsing a string pair property value.
pub open spec fn pair_field_result(b: Seq<u8>) -> Result<nat, MqttError> {
    match string_field_result(b) {
        Err(e) => Err(e),
        Ok(k) => match string_field_result(b.subrange(k as int, b.len() as int)) {
            Err(e) => Err(e),
            Ok(v) => Ok(k + v),
        },
    }
}

fn parse_u8_field(b: &[u8], at_most_one: bool) -> (r: Result<u8, MqttError>)
    ensures
        r is Ok <==> u8_field_result(b@, at_most_one) is Ok,
        r matches Ok(v) ==> v == b@[0],
        r matches Err(e) ==> u8_field_result(b@, at_most_one) == Err::<nat, MqttError>(e),
{
    if b.len() < 1 {
        return Err(MqttError::MalformedPacket);
    }
    if at_most_one && b[0] > 1 {
        return Err(MqttError::ProtocolError);
    }
    Ok(b[0])
}

fn parse_u16_field(b: &[u8], non_zero: bool) -> (r: Result<u16, MqttError>)
    ensures
        r is Ok <==> u16_field_result(b@, non_zero) is Ok,
        r matches Ok(v) ==> v as nat == be16_value(b@[0], b@[1]),
        r matches Err(e) ==> u16_field_result(b@, non_zero) == Err::<nat, MqttError>(e),
{
    if b.len() < 2 {
        return Err(MqttError::MalformedPacket);
    }
    let v = u16_from_be(b[0], b[1]);
    if non_zero && v == 0 {
        return Err(MqttError::ProtocolError);
    }
    Ok(v)
}

fn parse_u32_field(b: &[u8], non_zero: bool) -> (r: Result<u32, MqttError>)
    ensures
        r is Ok <==> u32_field_result(b@, non_zero) is Ok,
        r matches Ok(v) ==> v as nat == be32_value(b@[0], b@[1], b@[2], b@[3]),
        r matches Err(e) ==> u32_field_result(b@, non_zero) == Err::<nat, MqttError>(e),
{
    if b.len() < 4 {
        return Err(MqttError::MalformedPacket);
    }
    let v = u32_from_be(b[0], b[1], b[2], b[3]);
    if non_zero && v == 0 {
        return Err(MqttError::ProtocolError);
    }
    Ok(v)
}

fn parse_vbi_field(b: &[u8], non_zero: bool) -> (r: Result<(VariableByteInteger, usize), MqttError>)
    ensures
        r is Ok <==> vbi_field_result(b@, non_zero) is Ok,
        r matches Ok((v, n)) ==> vbi_field_result(b@, non_zero) == Ok::<nat, MqttError>(n as nat)
            && v@ == vbi_value(b@, n as nat) && 1 <= n <= 4 && v@ <= VBI_MAX,
        r matches Err(e) ==> vbi_field_result(b@, non_zero) == Err::<nat, MqttError>(e),
{
    match VariableByteInteger::decode_stream(b) {
        DecodeResult::Decoded(v, n) => {
            let x = v.to_u32();
            if non_zero && x == 0 {
                return Err(MqttError::ProtocolError);
            }
            Ok((v, n))
        },
        DecodeResult::Incomplete => Err(MqttError::MalformedPacket),
        DecodeResult::Invalid(_) => Err(MqttError::MalformedPacket),
    }
}

fn parse_string_field(b: &[u8]) -> (r: Result<(MqttString, usize), MqttError>)
    ensures
        r is Ok <==> string_field_result(b@) is Ok,
        r matches Ok((v, n)) ==> string_field_result(b@) == Ok::<nat, MqttError>(n as nat) && v.wf()
            && v.bytes() == length_prefixed_data(b@) && v.encoded() == b@.subrange(0, n as int),
        r matches Err(e) ==> string_field_result(b@) == Err::<nat, MqttError>(e),
{
    match MqttString::decode(b) {
        Ok((v, n)) => {
            proof {
                crate::packet::mqtt_binary::lemma_length_prefixed_of_prefix(b@);
                v.lemma_encoded();
            }
            Ok((v, n))
        },
        Err(e) => Err(e),
    }
}

fn parse_binary_field(b: &[u8]) -> (r: Result<(MqttBinary, usize), MqttError>)
    ensures
        r is Ok <==> binary_field_result(b@) is Ok,
        r matches Ok((v, n)) ==> binary_field_result(b@) == Ok::<nat, MqttError>(n as nat) && v.wf()
            && v@ == length_prefixed_data(b@) && v.encoded() == b@.subrange(0, n as int),
        r matches Err(e) ==> binary_field_result(b@) == Err::<nat, MqttError>(e),
{
    match MqttBinary::decode(b) {
        Ok((v, n)) => {
            proof {
                crate::packet::mqtt_binary::lemma_length_prefixed_of_prefix(b@);
                v.lemma_encoded();
            }
            Ok((v, n))
        },
        Err(e) => Err(e),
    }
}

/// The payload format indicator property (identifier 1).
#[derive(Debug, PartialEq, Eq, Clone, Copy)]
pub struct PayloadFormatIndicator {
    value: u8,
}

impl PayloadFormatIndicator {
    #[verifier::type_invariant]
    pub closed spec fn inv(self) -> bool {
        self.value <= 1
    }

    /// The property's value.
    pub closed spec fn spec_val(self) -> u8 {
        self.value
    }

    /// The property's encoding: identifier followed by the value.
    pub closed spec fn spec_bytes(self) -> Seq<u8> {
        seq![1u8] + seq![self.value]
    }

    pub fn id(&self) -> (r: PropertyId)
        ensures
            r == PropertyId::PayloadFormatIndicator,
    {
        PropertyId::PayloadFormatIndicator
    }

    /// Parses the value that follows the identifier byte.
    pub fn parse(bytes: &[u8]) -> (r: Result<(PayloadFormatIndicator, usize), MqttError>)
        ensures
            r is Ok <==> u8_field_result(bytes@, true) is Ok,
            r matches Ok((p, c)) ==> u8_field_result(bytes@, true) == Ok::<nat, MqttError>(c as nat)
                && p.spec_bytes() == seq![1u8] + bytes@.subrange(0, c as int),
            r matches Err(e) ==> u8_field_result(bytes@, true) == Err::<nat, MqttError>(e),
    {
        let v = parse_u8_field(bytes, true)?;
        proof { assert(seq![v] =~= bytes@.subrange(0, 1)); }
        Ok((PayloadFormatIndicator { value: v }, 1))
    }

    /// The identifier byte followed by the value bytes.
    pub fn to_continuous_buffer(&self) -> (r: Vec<u8>)
        ensures
            r@ == self.spec_bytes(),
    {
        let mut buf: Vec<u8> = Vec::new();
        buf.push(1u8);
        buf.push(self.value);
        assert(buf@ =~= self.spec_bytes());
        buf
    }

    pub fn val(&self) -> (r: u8)
        ensures
            r == self.spec_val(),
    {
        self.value
    }

    /// Encoded size: identifier byte plus value bytes.
    pub fn size(&self) -> (r: usize)
        ensures
            r == self.spec_bytes().len(),
            r == 2,
    {
        2
    }

    /// A payload format indicator for the given format.
    pub fn new(v: PayloadFormat) -> (r: Result<PayloadFormatIndicator, MqttError>)
        ensures
            r matches Ok(p) && p.spec_val() == v.spec_to_u8(),
    {
        let value: u8 = match v {
            PayloadFormat::Binary => 0,
            PayloadFormat::String => 1,
        };
        Ok(PayloadFormatIndicator { value })
    }
}

/// The message expiry interval property (identifier 2).
#[derive(Debug, PartialEq, Eq, Clone, Copy)]
pub struct MessageExpiryInterval {
    value: u32,
}

impl MessageExpiryInterval {
    #[verifier::type_invariant]
    pub closed spec fn inv(self) -> bool {
        true
    }

    /// The property's value.
    pub closed spec fn spec_val(self) -> u32 {
        self.value
    }

    /// The property's encoding: identifier followed by the value.
    pub closed spec fn spec_bytes(self) -> Seq<u8> {
        seq![2u8] + be32(self.value as nat)
    }

    pub fn id(&self) -> (r: PropertyId)
        ensures
            r == PropertyId::MessageExpiryInterval,
    {
        PropertyId::MessageExpiryInterval
    }

    /// Parses the value that follows the identifier byte.
    pub fn parse(bytes: &[u8]) -> (r: Result<(MessageExpiryInterval, usize), MqttError>)
        ensures
            r is Ok <==> u32_field_result(bytes@, false) is Ok,
            r matches Ok((p, c)) ==> u32_field_result(bytes@, false) == Ok::<nat, MqttError>(c as nat)
                && p.spec_bytes() == seq![2u8] + bytes@.subrange(0, c as int),
            r matches Err(e) ==> u32_field_result(bytes@, false) == Err::<nat, MqttError>(e),
    {
        let v = parse_u32_field(bytes, false)?;
        proof {
            lemma_be32_of_value(bytes@[0], bytes@[1], bytes@[2], bytes@[3]);
            assert(seq![bytes@[0], bytes@[1], bytes@[2], bytes@[3]] =~= bytes@.subrange(0, 4));
        }
        Ok((MessageExpiryInterval { value: v }, 4))
    }

    /// The identifier byte followed by the value bytes.
    pub fn to_continuous_buffer(&self) -> (r: Vec<u8>)
        ensures
            r@ == self.spec_bytes(),
    {
        let mut buf: Vec<u8> = Vec::new();
        buf.push(2u8);
        let b = u32_to_be(self.value);
        buf.push(b[0]);
        buf.push(b[1]);
        buf.push(b[2]);
        buf.push(b[3]);
        assert(buf@ =~= self.spec_bytes());
        buf
    }

    pub fn val(&self) -> (r: u32)
        ensures
            r == self.spec_val(),
    {
        self.value
    }

    /// Encoded size: identifier byte plus value bytes.
    pub fn size(&self) -> (r: usize)
        ensures
            r == self.spec_bytes().len(),
            r == 5,
    {
        5
    }

    /// The property with value `v`; `ProtocolError` when the value is not allowed.
    pub fn new(v: u32) -> (r: Result<MessageExpiryInterval, MqttError>)
        ensures
            true <==> r is Ok,
            r matches Ok(p) ==> p.spec_val() == v,
            r matches Err(e) ==> e == MqttError::ProtocolError,
    {
        Ok(MessageExpiryInterval { value: v })
    }
}

/// The content type property (identifier 3).
#[derive(Debug, PartialEq, Eq)]
pub struct ContentType {
    value: MqttString,
}

impl ContentType {
    #[verifier::type_invariant]
    pub closed spec fn inv(self) -> bool {
        self.value.wf()
    }

    /// The property's value.
    pub closed spec fn spec_val(self) -> Seq<char> {
        self.value@
    }

    /// The property's encoding: identifier followed by the length-prefixed value.
    pub closed spec fn spec_bytes(self) -> Seq<u8> {
        seq![3u8] + self.value.encoded()
    }

    pub fn id(&self) -> (r: PropertyId)
        ensures
            r == PropertyId::ContentType,
    {
        PropertyId::ContentType
    }

    /// The property with value `s`; `MalformedPacket` when it is longer than
    /// 65,535 bytes.
    pub fn new(s: &str) -> (r: Result<ContentType, MqttError>)
        ensures
            s.spec_bytes().len() <= 65535 <==> r is Ok,
            r matches Ok(p) ==> p.spec_val() == s@,
            r matches Err(e) ==> e == MqttError::MalformedPacket,
    {
        let value = MqttString::new(s)?;
        Ok(ContentType { value })
    }

    /// Parses the value that follows the identifier byte.
    pub fn parse(bytes: &[u8]) -> (r: Result<(ContentType, usize), MqttError>)
        ensures
            r is Ok <==> string_field_result(bytes@) is Ok,
            r matches Ok((p, c)) ==> string_field_result(bytes@) == Ok::<nat, MqttError>(c as nat)
                && p.spec_bytes() == seq![3u8] + bytes@.subrange(0, c as int),
            r matches Err(e) ==> string_field_result(bytes@) == Err::<nat, MqttError>(e),
    {
        let (value, c) = parse_string_field(bytes)?;
        Ok((ContentType { value }, c))
    }

    /// The identifier byte followed by the value bytes.
    pub fn to_continuous_buffer(&self) -> (r: Vec<u8>)
        ensures
            r@ == self.spec_bytes(),
    {
        proof { use_type_invariant(self); }
        let mut buf: Vec<u8> = Vec::new();
        buf.push(3u8);
        append_bytes(&mut buf, self.value.as_bytes());
        assert(buf@ =~= self.spec_bytes());
        buf
    }

    pub fn val(&self) -> (r: &str)
        ensures
            r@ == self.spec_val(),
    {
        proof { use_type_invariant(self); }
        self.value.as_str()
    }

    /// Encoded size: identifier byte plus the length-prefixed value.
    pub fn size(&self) -> (r: usize)
        ensures
            r == self.spec_bytes().len(),
    {
        proof { use_type_invariant(self); }
        1 + self.value.size()
    }

    /// A copy with the same contents.
    pub fn duplicate(&self) -> (r: ContentType)
        ensures
            r.spec_bytes() == self.spec_bytes(),
            r.spec_val() == self.spec_val(),
    {
        proof { use_type_invariant(self); }
        ContentType { value: self.value.duplicate() }
    }
}

/// The response topic property (identifier 8).
#[derive(Debug, PartialEq, Eq)]
pub struct ResponseTopic {
    value: MqttString,
}

impl ResponseTopic {
    #[verifier::type_invariant]
    pub closed spec fn inv(self) -> bool {
        self.value.wf()
    }

    /// The property's value.
    pub closed spec fn spec_val(self) -> Seq<char> {
        self.value@
    }

    /// The property's encoding: identifier followed by the length-prefixed value.
    pub closed spec fn spec_bytes(self) -> Seq<u8> {
        seq![8u8] + self.value.encoded()
    }

    pub fn id(&self) -> (r: PropertyId)
        ensures
            r == PropertyId::ResponseTopic,
    {
        PropertyId::ResponseTopic
    }

    /// The property with value `s`; `MalformedPacket` when it is longer than
    /// 65,535 bytes.
    pub fn new(s: &str) -> (r: Result<ResponseTopic, MqttError>)
        ensures
            s.spec_bytes().len() <= 65535 <==> r is Ok,
            r matches Ok(p) ==> p.spec_val() == s@,
            r matches Err(e) ==> e == MqttError::MalformedPacket,
    {
        let value = MqttString::new(s)?;
        Ok(ResponseTopic { value })
    }

    /// Parses the value that follows the identifier byte.
    pub fn parse(bytes: &[u8]) -> (r: Result<(ResponseTopic, usize), MqttError>)
        ensures
            r is Ok <==> string_field_result(bytes@) is Ok,
            r matches Ok((p, c)) ==> string_field_result(bytes@) == Ok::<nat, MqttError>(c as nat)
                && p.spec_bytes() == seq![8u8] + bytes@.subrange(0, c as int),
            r matches Err(e) ==> string_field_result(bytes@) == Err::<nat, MqttError>(e),
    {
        let (value, c) = parse_string_field(bytes)?;
        Ok((ResponseTopic { value }, c))
    }

    /// The identifier byte followed by the value bytes.
    pub fn to_continuous_buffer(&self) -> (r: Vec<u8>)
        ensures
            r@ == self.spec_bytes(),
    {
        proof { use_type_invariant(self); }
        let mut buf: Vec<u8> = Vec::new();
        buf.push(8u8);
        append_bytes(&mut buf, self.value.as_bytes());
        assert(buf@ =~= self.spec_bytes());
        buf
    }

    pub fn val(&self) -> (r: &str)
        ensures
            r@ == self.spec_val(),
    {
        proof { use_type_invariant(self); }
        self.value.as_str()
    }

    /// Encoded size: identifier byte plus the length-prefixed value.
    pub fn size(&self) -> (r: usize)
        ensures
            r == self.spec_bytes().len(),
    {
        proof { use_type_invariant(self); }
        1 + self.value.size()
    }

    /// A copy with the same contents.
    pub fn duplicate(&self) -> (r: ResponseTopic)
        ensures
            r.spec_bytes() == self.spec_bytes(),
            r.spec_val() == self.spec_val(),
    {
        proof { use_type_invariant(self); }
        ResponseTopic { value: self.value.duplicate() }
    }
}

/// The correlation data property (identifier 9).
#[derive(Debug, PartialEq, Eq)]
pub struct CorrelationData {
    value: MqttBinary,
}

impl CorrelationData {
    #[verifier::type_invariant]
    pub closed spec fn inv(self) -> bool {
        self.value.wf()
    }

    /// The property's value.
    pub closed spec fn spec_val(self) -> Seq<u8> {
        self.value@
    }

    /// The property's encoding: identifier followed by the length-prefixed value.
    pub closed spec fn spec_bytes(self) -> Seq<u8> {
        seq![9u8] + self.value.encoded()
    }

    pub fn id(&self) -> (r: PropertyId)
        ensures
            r == PropertyId::CorrelationData,
    {
        PropertyId::CorrelationData
    }

    /// The property with value `s`; `MalformedPacket` when it is longer than
    /// 65,535 bytes.
    pub fn new(s: &[u8]) -> (r: Result<CorrelationData, MqttError>)
        ensures
            s@.len() <= 65535 <==> r is Ok,
            r matches Ok(p) ==> p.spec_val() == s@,
            r matches Err(e) ==> e == MqttError::MalformedPacket,
    {
        let value = MqttBinary::new(s)?;
        Ok(CorrelationData { value })
    }

    /// Parses the value that follows the identifier byte.
    pub fn parse(bytes: &[u8]) -> (r: Result<(CorrelationData, usize), MqttError>)
        ensures
            r is Ok <==> binary_field_result(bytes@) is Ok,
            r matches Ok((p, c)) ==> binary_field_result(bytes@) == Ok::<nat, MqttError>(c as nat)
                && p.spec_bytes() == seq![9u8] + bytes@.subrange(0, c as int),
            r matches Err(e) ==> binary_field_result(bytes@) == Err::<nat, MqttError>(e),
    {
        let (value, c) = parse_binary_field(bytes)?;
        Ok((CorrelationData { value }, c))
    }

    /// The identifier byte followed by the value bytes.
    pub fn to_continuous_buffer(&self) -> (r: Vec<u8>)
        ensures
            r@ == self.spec_bytes(),
    {
        proof { use_type_invariant(self); }
        let mut buf: Vec<u8> = Vec::new();
        buf.push(9u8);
        append_bytes(&mut buf, self.value.as_bytes());
        assert(buf@ =~= self.spec_bytes());
        buf
    }

    pub fn val(&self) -> (r: &[u8])
        ensures
            r@ == self.spec_val(),
    {
        proof { use_type_invariant(self); }
        self.value.as_slice()
    }

    /// Encoded size: identifier byte plus the length-prefixed value.
    pub fn size(&self) -> (r: usize)
        ensures
            r == self.spec_bytes().len(),
    {
        proof { use_type_invariant(self); }
        1 + self.value.size()
    }

    /// A copy with the same contents.
    pub fn duplicate(&self) -> (r: CorrelationData)
        ensures
            r.spec_bytes() == self.spec_bytes(),
            r.spec_val() == self.spec_val(),
    {
        proof { use_type_invariant(self); }
        CorrelationData { value: self.value.duplicate() }
    }
}

/// The subscription identifier property (identifier 11).
#[derive(Debug, PartialEq, Eq, Clone, Copy)]
pub struct SubscriptionIdentifier {
    value: VariableByteInteger,
}

impl SubscriptionIdentifier {
    #[verifier::type_invariant]
    pub closed spec fn inv(self) -> bool {
        self.value@ != 0 && self.value@ <= VBI_MAX
    }

    /// The property's value.
    pub closed spec fn spec_val(self) -> nat {
        self.value@
    }

    /// The property's encoding: identifier followed by the minimal Variable
    /// Byte Integer encoding of the value.
    pub closed spec fn spec_bytes(self) -> Seq<u8> {
        seq![11u8] + vbi_encode(self.value@)
    }

    pub fn id(&self) -> (r: PropertyId)
        ensures
            r == PropertyId::SubscriptionIdentifier,
    {
        PropertyId::SubscriptionIdentifier
    }

    /// The property with value `v`; `ValueOutOfRange` above 268,435,455 and
    /// `ProtocolError` for zero.
    pub fn new(v: u32) -> (r: Result<SubscriptionIdentifier, MqttError>)
        ensures
            (v != 0 && v <= VBI_MAX) <==> r is Ok,
            r matches Ok(p) ==> p.spec_val() == v as nat,
            r matches Err(e) ==> (v > VBI_MAX && e == MqttError::ValueOutOfRange) || (v == 0
                && e == MqttError::ProtocolError),
    {
        let vbi = match VariableByteInteger::from_u32(v) {
            Some(x) => x,
            None => return Err(MqttError::ValueOutOfRange),
        };
        if v == 0 {
            return Err(MqttError::ProtocolError);
        }
        Ok(SubscriptionIdentifier { value: vbi })
    }

    /// Parses the value that follows the identifier byte. A value encoded with
    /// more bytes than needed is accepted.
    pub fn parse(bytes: &[u8]) -> (r: Result<(SubscriptionIdentifier, usize), MqttError>)
        ensures
            r is Ok <==> vbi_field_result(bytes@, true) is Ok,
            r matches Ok((p, c)) ==> vbi_field_result(bytes@, true) == Ok::<nat, MqttError>(c as nat)
                && p.spec_val() == vbi_value(bytes@, c as nat),
            r matches Err(e) ==> vbi_field_result(bytes@, true) == Err::<nat, MqttError>(e),
    {
        let (v, c) = parse_vbi_field(bytes, true)?;
        Ok((SubscriptionIdentifier { value: v }, c))
    }

    /// The identifier byte followed by the value bytes.
    pub fn to_continuous_buffer(&self) -> (r: Vec<u8>)
        ensures
            r@ == self.spec_bytes(),
    {
        let mut buf: Vec<u8> = Vec::new();
        buf.push(11u8);
        let b = self.value.to_continuous_buffer();
        append_bytes(&mut buf, b.as_slice());
        assert(buf@ =~= self.spec_bytes());
        buf
    }

    pub fn val(&self) -> (r: u32)
        ensures
            r as nat == self.spec_val(),
    {
        self.value.to_u32()
    }

    /// Encoded size: identifier byte plus value bytes.
    pub fn size(&self) -> (r: usize)
        ensures
            r == self.spec_bytes().len(),
    {
        let v = self.value.to_u32();
        proof { lemma_vbi_roundtrip(self.value@, Seq::<u8>::empty()); }
        1 + self.value.size()
    }
}

/// The session expiry interval property (identifier 17).
#[derive(Debug, PartialEq, Eq, Clone, Copy)]
pub struct SessionExpiryInterval {
    value: u32,
}

impl SessionExpiryInterval {
    #[verifier::type_invariant]
    pub closed spec fn inv(self) -> bool {
        true
    }

    /// The property's value.
    pub closed spec fn spec_val(self) -> u32 {
        self.value
    }

    /// The property's encoding: identifier followed by the value.
    pub closed spec fn spec_bytes(self) -> Seq<u8> {
        seq![17u8] + be32(self.value as nat)
    }

    pub fn id(&self) -> (r: PropertyId)
        ensures
            r == PropertyId::SessionExpiryInterval,
    {
        PropertyId::SessionExpiryInterval
    }

    /// Parses the value that follows the identifier byte.
    pub fn parse(bytes: &[u8]) -> (r: Result<(SessionExpiryInterval, usize), MqttError>)
        ensures
            r is Ok <==> u32_field_result(bytes@, false) is Ok,
            r matches Ok((p, c)) ==> u32_field_result(bytes@, false) == Ok::<nat, MqttError>(c as nat)
                && p.spec_bytes() == seq![17u8] + bytes@.subrange(0, c as int),
            r matches Err(e) ==> u32_field_result(bytes@, false) == Err::<nat, MqttError>(e),
    {
        let v = parse_u32_field(bytes, false)?;
        proof {
            lemma_be32_of_value(bytes@[0], bytes@[1], bytes@[2], bytes@[3]);
            assert(seq![bytes@[0], bytes@[1], bytes@[2], bytes@[3]] =~= bytes@.subrange(0, 4));
        }
        Ok((SessionExpiryInterval { value: v }, 4))
    }

    /// The identifier byte followed by the value bytes.
    pub fn to_continuous_buffer(&self) -> (r: Vec<u8>)
        ensures
            r@ == self.spec_bytes(),
    {
        let mut buf: Vec<u8> = Vec::new();
        buf.push(17u8);
        let b = u32_to_be(self.value);
        buf.push(b[0]);
        buf.push(b[1]);
        buf.push(b[2]);
        buf.push(b[3]);
        assert(buf@ =~= self.spec_bytes());
        buf
    }

    pub fn val(&self) -> (r: u32)
        ensures
            r == self.spec_val(),
    {
        self.value
    }

    /// Encoded size: identifier byte plus value bytes.
    pub fn size(&self) -> (r: usize)
        ensures
            r == self.spec_bytes().len(),
            r == 5,
    {
        5
    }

    /// The property with value `v`; `ProtocolError` when the value is not allowed.
    pub fn new(v: u32) -> (r: Result<SessionExpiryInterval, MqttError>)
        ensures
            true <==> r is Ok,
            r matches Ok(p) ==> p.spec_val() == v,
            r matches Err(e) ==> e == MqttError::ProtocolError,
    {
        Ok(SessionExpiryInterval { value: v })
    }
}

/// The assigned client identifier property (identifier 18).
#[derive(Debug, PartialEq, Eq)]
pub struct AssignedClientIdentifier {
    value: MqttString,
}

impl AssignedClientIdentifier {
    #[verifier::type_invariant]
    pub closed spec fn inv(self) -> bool {
        self.value.wf()
    }

    /// The property's value.
    pub closed spec fn spec_val(self) -> Seq<char> {
        self.value@
    }

    /// The property's encoding: identifier followed by the length-prefixed value.
    pub closed spec fn spec_bytes(self) -> Seq<u8> {
        seq![18u8] + self.value.encoded()
    }

    pub fn id(&self) -> (r: PropertyId)
        ensures
            r == PropertyId::AssignedClientIdentifier,
    {
        PropertyId::AssignedClientIdentifier
    }

    /// The property with value `s`; `MalformedPacket` when it is longer than
    /// 65,535 bytes.
    pub fn new(s: &str) -> (r: Result<AssignedClientIdentifier, MqttError>)
        ensures
            s.spec_bytes().len() <= 65535 <==> r is Ok,
            r matches Ok(p) ==> p.spec_val() == s@,
            r matches Err(e) ==> e == MqttError::MalformedPacket,
    {
        let value = MqttString::new(s)?;
        Ok(AssignedClientIdentifier { value })
    }

    /// Parses the value that follows the identifier byte.
    pub fn parse(bytes: &[u8]) -> (r: Result<(AssignedClientIdentifier, usize), MqttError>)
        ensures
            r is Ok <==> string_field_result(bytes@) is Ok,
            r matches Ok((p, c)) ==> string_field_result(bytes@) == Ok::<nat, MqttError>(c as nat)
                && p.spec_bytes() == seq![18u8] + bytes@.subrange(0, c as int),
            r matches Err(e) ==> string_field_result(bytes@) == Err::<nat, MqttError>(e),
    {
        let (value, c) = parse_string_field(bytes)?;
        Ok((AssignedClientIdentifier { value }, c))
    }

    /// The identifier byte followed by the value bytes.
    pub fn to_continuous_buffer(&self) -> (r: Vec<u8>)
        ensures
            r@ == self.spec_bytes(),
    {
        proof { use_type_invariant(self); }
        let mut buf: Vec<u8> = Vec::new();
        buf.push(18u8);
        append_bytes(&mut buf, self.value.as_bytes());
        assert(buf@ =~= self.spec_bytes());
        buf
    }

    pub fn val(&self) -> (r: &str)
        ensures
            r@ == self.spec_val(),
    {
        proof { use_type_invariant(self); }
        self.value.as_str()
    }

    /// Encoded size: identifier byte plus the length-prefixed value.
    pub fn size(&self) -> (r: usize)
        ensures
            r == self.spec_bytes().len(),
    {
        proof { use_type_invariant(self); }
        1 + self.value.size()
    }

    /// A copy with the same contents.
    pub fn duplicate(&self) -> (r: AssignedClientIdentifier)
        ensures
            r.spec_bytes() == self.spec_bytes(),
            r.spec_val() == self.spec_val(),
    {
        proof { use_type_invariant(self); }
        AssignedClientIdentifier { value: self.value.duplicate() }
    }
}

/// The server keep alive property (identifier 19).
#[derive(Debug, PartialEq, Eq, Clone, Copy)]
pub struct ServerKeepAlive {
    value: u16,
}

impl ServerKeepAlive {
    #[verifier::type_invariant]
    pub closed spec fn inv(self) -> bool {
        true
    }

    /// The property's value.
    pub closed spec fn spec_val(self) -> u16 {
        self.value
    }

    /// The property's encoding: identifier followed by the value.
    pub closed spec fn spec_bytes(self) -> Seq<u8> {
        seq![19u8] + be16(self.value as nat)
    }

    pub fn id(&self) -> (r: PropertyId)
        ensures
            r == PropertyId::ServerKeepAlive,
    {
        PropertyId::ServerKeepAlive
    }

    /// Parses the value that follows the identifier byte.
    pub fn parse(bytes: &[u8]) -> (r: Result<(ServerKeepAlive, usize), MqttError>)
        ensures
            r is Ok <==> u16_field_result(bytes@, false) is Ok,
            r matches Ok((p, c)) ==> u16_field_result(bytes@, false) == Ok::<nat, MqttError>(c as nat)
                && p.spec_bytes() == seq![19u8] + bytes@.subrange(0, c as int),
            r matches Err(e) ==> u16_field_result(bytes@, false) == Err::<nat, MqttError>(e),
    {
        let v = parse_u16_field(bytes, false)?;
        proof {
            lemma_be16_of_value(bytes@[0], bytes@[1]);
            assert(seq![bytes@[0], bytes@[1]] =~= bytes@.subrange(0, 2));
        }
        Ok((ServerKeepAlive { value: v }, 2))
    }

    /// The identifier byte followed by the value bytes.
    pub fn to_continuous_buffer(&self) -> (r: Vec<u8>)
        ensures
            r@ == self.spec_bytes(),
    {
        let mut buf: Vec<u8> = Vec::new();
        buf.push(19u8);
        let b = u16_to_be(self.value);
        buf.push(b[0]);
        buf.push(b[1]);
        assert(buf@ =~= self.spec_bytes());
        buf
    }

    pub fn val(&self) -> (r: u16)
        ensures
            r == self.spec_val(),
    {
        self.value
    }

    /// Encoded size: identifier byte plus value bytes.
    pub fn size(&self) -> (r: usize)
        ensures
            r == self.spec_bytes().len(),
            r == 3,
    {
        3
    }

    /// The property with value `v`; `ProtocolError` when the value is not allowed.
    pub fn new(v: u16) -> (r: Result<ServerKeepAlive, MqttError>)
        ensures
            true <==> r is Ok,
            r matches Ok(p) ==> p.spec_val() == v,
            r matches Err(e) ==> e == MqttError::ProtocolError,
    {
        Ok(ServerKeepAlive { value: v })
    }
}

/// The authentication method property (identifier 21).
#[derive(Debug, PartialEq, Eq)]
pub struct AuthenticationMethod {
    value: MqttString,
}

impl AuthenticationMethod {
    #[verifier::type_invariant]
    pub closed spec fn inv(self) -> bool {
        self.value.wf()
    }

    /// The property's value.
    pub closed spec fn spec_val(self) -> Seq<char> {
        self.value@
    }

    /// The property's encoding: identifier followed by the length-prefixed value.
    pub closed spec fn spec_bytes(self) -> Seq<u8> {
        seq![21u8] + self.value.encoded()
    }

    pub fn id(&self) -> (r: PropertyId)
        ensures
            r == PropertyId::AuthenticationMethod,
    {
        PropertyId::AuthenticationMethod
    }

    /// The property with value `s`; `MalformedPacket` when it is longer than
    /// 65,535 bytes.
    pub fn new(s: &str) -> (r: Result<AuthenticationMethod, MqttError>)
        ensures
            s.spec_bytes().len() <= 65535 <==> r is Ok,
            r matches Ok(p) ==> p.spec_val() == s@,
            r matches Err(e) ==> e == MqttError::MalformedPacket,
    {
        let value = MqttString::new(s)?;
        Ok(AuthenticationMethod { value })
    }

    /// Parses the value that follows the identifier byte.
    pub fn parse(bytes: &[u8]) -> (r: Result<(AuthenticationMethod, usize), MqttError>)
        ensures
            r is Ok <==> string_field_result(bytes@) is Ok,
            r matches Ok((p, c)) ==> string_field_result(bytes@) == Ok::<nat, MqttError>(c as nat)
                && p.spec_bytes() == seq![21u8] + bytes@.subrange(0, c as int),
            r matches Err(e) ==> string_field_result(bytes@) == Err::<nat, MqttError>(e),
    {
        let (value, c) = parse_string_field(bytes)?;
        Ok((AuthenticationMethod { value }, c))
    }

    /// The identifier byte followed by the value bytes.
    pub fn to_continuous_buffer(&self) -> (r: Vec<u8>)
        ensures
            r@ == self.spec_bytes(),
    {
        proof { use_type_invariant(self); }
        let mut buf: Vec<u8> = Vec::new();
        buf.push(21u8);
        append_bytes(&mut buf, self.value.as_bytes());
        assert(buf@ =~= self.spec_bytes());
        buf
    }

    pub fn val(&self) -> (r: &str)
        ensures
            r@ == self.spec_val(),
    {
        proof { use_type_invariant(self); }
        self.value.as_str()
    }

    /// Encoded size: identifier byte plus the length-prefixed value.
    pub fn size(&self) -> (r: usize)
        ensures
            r == self.spec_bytes().len(),
    {
        proof { use_type_invariant(self); }
        1 + self.value.size()
    }

    /// A copy with the same contents.
    pub fn duplicate(&self) -> (r: AuthenticationMethod)
        ensures
            r.spec_bytes() == self.spec_bytes(),
            r.spec_val() == self.spec_val(),
    {
        proof { use_type_invariant(self); }
        AuthenticationMethod { value: self.value.duplicate() }
    }
}

/// The authentication data property (identifier 22).
#[derive(Debug, PartialEq, Eq)]
pub struct AuthenticationData {
    value: MqttBinary,
}

impl AuthenticationData {
    #[verifier::type_invariant]
    pub closed spec fn inv(self) -> bool {
        self.value.wf()
    }

    /// The property's value.
    pub closed spec fn spec_val(self) -> Seq<u8> {
        self.value@
    }

    /// The property's encoding: identifier followed by the length-prefixed value.
    pub closed spec fn spec_bytes(self) -> Seq<u8> {
        seq![22u8] + self.value.encoded()
    }

    pub fn id(&self) -> (r: PropertyId)
        ensures
            r == PropertyId::AuthenticationData,
    {
        PropertyId::AuthenticationData
    }

    /// The property with value `s`; `MalformedPacket` when it is longer than
    /// 65,535 bytes.
    pub fn new(s: &[u8]) -> (r: Result<AuthenticationData, MqttError>)
        ensures
            s@.len() <= 65535 <==> r is Ok,
            r matches Ok(p) ==> p.spec_val() == s@,
            r matches Err(e) ==> e == MqttError::MalformedPacket,
    {
        let value = MqttBinary::new(s)?;
        Ok(AuthenticationData { value })
    }

    /// Parses the value that follows the identifier byte.
    pub fn parse(bytes: &[u8]) -> (r: Result<(AuthenticationData, usize), MqttError>)
        ensures
            r is Ok <==> binary_field_result(bytes@) is Ok,
            r matches Ok((p, c)) ==> binary_field_result(bytes@) == Ok::<nat, MqttError>(c as nat)
                && p.spec_bytes() == seq![22u8] + bytes@.subrange(0, c as int),
            r matches Err(e) ==> binary_field_result(bytes@) == Err::<nat, MqttError>(e),
    {
        let (value, c) = parse_binary_field(bytes)?;
        Ok((AuthenticationData { value }, c))
    }

    /// The identifier byte followed by the value bytes.
    pub fn to_continuous_buffer(&self) -> (r: Vec<u8>)
        ensures
            r@ == self.spec_bytes(),
    {
        proof { use_type_invariant(self); }
        let mut buf: Vec<u8> = Vec::new();
        buf.push(22u8);
        append_bytes(&mut buf, self.value.as_bytes());
        assert(buf@ =~= self.spec_bytes());
        buf
    }

    pub fn val(&self) -> (r: &[u8])
        ensures
            r@ == self.spec_val(),
    {
        proof { use_type_invariant(self); }
        self.value.as_slice()
    }

    /// Encoded size: identifier byte plus the length-prefixed value.
    pub fn size(&self) -> (r: usize)
        ensures
            r == self.spec_bytes().len(),
    {
        proof { use_type_invariant(self); }
        1 + self.value.size()
    }

    /// A copy with the same contents.
    pub fn duplicate(&self) -> (r: AuthenticationData)
        ensures
            r.spec_bytes() == self.spec_bytes(),
            r.spec_val() == self.spec_val(),
    {
        proof { use_type_invariant(self); }
        AuthenticationData { value: self.value.duplicate() }
    }
}

/// The request problem information property (identifier 23).
#[derive(Debug, PartialEq, Eq, Clone, Copy)]
pub struct RequestProblemInformation {
    value: u8,
}

impl RequestProblemInformation {
    #[verifier::type_invariant]
    pub closed spec fn inv(self) -> bool {
        self.value <= 1
    }

    /// The property's value.
    pub closed spec fn spec_val(self) -> u8 {
        self.value
    }

    /// The property's encoding: identifier followed by the value.
    pub closed spec fn spec_bytes(self) -> Seq<u8> {
        seq![23u8] + seq![self.value]
    }

    pub fn id(&self) -> (r: PropertyId)
        ensures
            r == PropertyId::RequestProblemInformation,
    {
        PropertyId::RequestProblemInformation
    }

    /// Parses the value that follows the identifier byte.
    pub fn parse(bytes: &[u8]) -> (r: Result<(RequestProblemInformation, usize), MqttError>)
        ensures
            r is Ok <==> u8_field_result(bytes@, true) is Ok,
            r matches Ok((p, c)) ==> u8_field_result(bytes@, true) == Ok::<nat, MqttError>(c as nat)
                && p.spec_bytes() == seq![23u8] + bytes@.subrange(0, c as int),
            r matches Err(e) ==> u8_field_result(bytes@, true) == Err::<nat, MqttError>(e),
    {
        let v = parse_u8_field(bytes, true)?;
        proof { assert(seq![v] =~= bytes@.subrange(0, 1)); }
        Ok((RequestProblemInformation { value: v }, 1))
    }

    /// The identifier byte followed by the value bytes.
    pub fn to_continuous_buffer(&self) -> (r: Vec<u8>)
        ensures
            r@ == self.spec_bytes(),
    {
        let mut buf: Vec<u8> = Vec::new();
        buf.push(23u8);
        buf.push(self.value);
        assert(buf@ =~= self.spec_bytes());
        buf
    }

    pub fn val(&self) -> (r: u8)
        ensures
            r == self.spec_val(),
    {
        self.value
    }

    /// Encoded size: identifier byte plus value bytes.
    pub fn size(&self) -> (r: usize)
        ensures
            r == self.spec_bytes().len(),
            r == 2,
    {
        2
    }

    /// The property with value `v`; `ProtocolError` when the value is not allowed.
    pub fn new(v: u8) -> (r: Result<RequestProblemInformation, MqttError>)
        ensures
            v <= 1 <==> r is Ok,
            r matches Ok(p) ==> p.spec_val() == v,
            r matches Err(e) ==> e == MqttError::ProtocolError,
    {
        if v > 1 {
            return Err(MqttError::ProtocolError);
        }
        Ok(RequestProblemInformation { value: v })
    }
}

/// The will delay interval property (identifier 24).
#[derive(Debug, PartialEq, Eq, Clone, Copy)]
pub struct WillDelayInterval {
    value: u32,
}

impl WillDelayInterval {
    #[verifier::type_invariant]
    pub closed spec fn inv(self) -> bool {
        true
    }

    /// The property's value.
    pub closed spec fn spec_val(self) -> u32 {
        self.value
    }

    /// The property's encoding: identifier followed by the value.
    pub closed spec fn spec_bytes(self) -> Seq<u8> {
        seq![24u8] + be32(self.value as nat)
    }

    pub fn id(&self) -> (r: PropertyId)
        ensures
            r == PropertyId::WillDelayInterval,
    {
        PropertyId::WillDelayInterval
    }

    /// Parses the value that follows the identifier byte.
    pub fn parse(bytes: &[u8]) -> (r: Result<(WillDelayInterval, usize), MqttError>)
        ensures
            r is Ok <==> u32_field_result(bytes@, false) is Ok,
            r matches Ok((p, c)) ==> u32_field_result(bytes@, false) == Ok::<nat, MqttError>(c as nat)
                && p.spec_bytes() == seq![24u8] + bytes@.subrange(0, c as int),
            r matches Err(e) ==> u32_field_result(bytes@, false) == Err::<nat, MqttError>(e),
    {
        let v = parse_u32_field(bytes, false)?;
        proof {
            lemma_be32_of_value(bytes@[0], bytes@[1], bytes@[2], bytes@[3]);
            assert(seq![bytes@[0], bytes@[1], bytes@[2], bytes@[3]] =~= bytes@.subrange(0, 4));
        }
        Ok((WillDelayInterval { value: v }, 4))
    }

    /// The identifier byte followed by the value bytes.
    pub fn to_continuous_buffer(&self) -> (r: Vec<u8>)
        ensures
            r@ == self.spec_bytes(),
    {
        let mut buf: Vec<u8> = Vec::new();
        buf.push(24u8);
        let b = u32_to_be(self.value);
        buf.push(b[0]);
        buf.push(b[1]);
        buf.push(b[2]);
        buf.push(b[3]);
        assert(buf@ =~= self.spec_bytes());
        buf
    }

    pub fn val(&self) -> (r: u32)
        ensures
            r == self.spec_val(),
    {
        self.value
    }

    /// Encoded size: identifier byte plus value bytes.
    pub fn size(&self) -> (r: usize)
        ensures
            r == self.spec_bytes().len(),
            r == 5,
    {
        5
    }

    /// The property with value `v`; `ProtocolError` when the value is not allowed.
    pub fn new(v: u32) -> (r: Result<WillDelayInterval, MqttError>)
        ensures
            true <==> r is Ok,
            r matches Ok(p) ==> p.spec_val() == v,
            r matches Err(e) ==> e == MqttError::ProtocolError,
    {
        Ok(WillDelayInterval { value: v })
    }
}

/// The request response information property (identifier 25).
#[derive(Debug, PartialEq, Eq, Clone, Copy)]
pub struct RequestResponseInformation {
    value: u8,
}

impl RequestResponseInformation {
    #[verifier::type_invariant]
    pub closed spec fn inv(self) -> bool {
        self.value <= 1
    }

    /// The property's value.
    pub closed spec fn spec_val(self) -> u8 {
        self.value
    }

    /// The property's encoding: identifier followed by the value.
    pub closed spec fn spec_bytes(self) -> Seq<u8> {
        seq![25u8] + seq![self.value]
    }

    pub fn id(&self) -> (r: PropertyId)
        ensures
            r == PropertyId::RequestResponseInformation,
    {
        PropertyId::RequestResponseInformation
    }

    /// Parses the value that follows the identifier byte.
    pub fn parse(bytes: &[u8]) -> (r: Result<(RequestResponseInformation, usize), MqttError>)
        ensures
            r is Ok <==> u8_field_result(bytes@, true) is Ok,
            r matches Ok((p, c)) ==> u8_field_result(bytes@, true) == Ok::<nat, MqttError>(c as nat)
                && p.spec_bytes() == seq![25u8] + bytes@.subrange(0, c as int),
            r matches Err(e) ==> u8_field_result(bytes@, true) == Err::<nat, MqttError>(e),
    {
        let v = parse_u8_field(bytes, true)?;
        proof { assert(seq![v] =~= bytes@.subrange(0, 1)); }
        Ok((RequestResponseInformation { value: v }, 1))
    }

    /// The identifier byte followed by the value bytes.
    pub fn to_continuous_buffer(&self) -> (r: Vec<u8>)
        ensures
            r@ == self.spec_bytes(),
    {
        let mut buf: Vec<u8> = Vec::new();
        buf.push(25u8);
        buf.push(self.value);
        assert(buf@ =~= self.spec_bytes());
        buf
    }

    pub fn val(&self) -> (r: u8)
        ensures
            r == self.spec_val(),
    {
        self.value
    }

    /// Encoded size: identifier byte plus value bytes.
    pub fn size(&self) -> (r: usize)
        ensures
            r == self.spec_bytes().len(),
            r == 2,
    {
        2
    }

    /// The property with value `v`; `ProtocolError` when the value is not allowed.
    pub fn new(v: u8) -> (r: Result<RequestResponseInformation, MqttError>)
        ensures
            v <= 1 <==> r is Ok,
            r matches Ok(p) ==> p.spec_val() == v,
            r matches Err(e) ==> e == MqttError::ProtocolError,
    {
        if v > 1 {
            return Err(MqttError::ProtocolError);
        }
        Ok(RequestResponseInformation { value: v })
    }
}

/// The response information property (identifier 26).
#[derive(Debug, PartialEq, Eq)]
pub struct ResponseInformation {
    value: MqttString,
}

impl ResponseInformation {
    #[verifier::type_invariant]
    pub closed spec fn inv(self) -> bool {
        self.value.wf()
    }

    /// The property's value.
    pub closed spec fn spec_val(self) -> Seq<char> {
        self.value@
    }

    /// The property's encoding: identifier followed by the length-prefixed value.
    pub closed spec fn spec_bytes(self) -> Seq<u8> {
        seq![26u8] + self.value.encoded()
    }

    pub fn id(&self) -> (r: PropertyId)
        ensures
            r == PropertyId::ResponseInformation,
    {
        PropertyId::ResponseInformation
    }

    /// The property with value `s`; `MalformedPacket` when it is longer than
    /// 65,535 bytes.
    pub fn new(s: &str) -> (r: Result<ResponseInformation, MqttError>)
        ensures
            s.spec_bytes().len() <= 65535 <==> r is Ok,
            r matches Ok(p) ==> p.spec_val() == s@,
            r matches Err(e) ==> e == MqttError::MalformedPacket,
    {
        let value = MqttString::new(s)?;
        Ok(ResponseInformation { value })
    }

    /// Parses the value that follows the identifier byte.
    pub fn parse(bytes: &[u8]) -> (r: Result<(ResponseInformation, usize), MqttError>)
        ensures
            r is Ok <==> string_field_result(bytes@) is Ok,
            r matches Ok((p, c)) ==> string_field_result(bytes@) == Ok::<nat, MqttError>(c as nat)
                && p.spec_bytes() == seq![26u8] + bytes@.subrange(0, c as int),
            r matches Err(e) ==> string_field_result(bytes@) == Err::<nat, MqttError>(e),
    {
        let (value, c) = parse_string_field(bytes)?;
        Ok((ResponseInformation { value }, c))
    }

    /// The identifier byte followed by the value bytes.
    pub fn to_continuous_buffer(&self) -> (r: Vec<u8>)
        ensures
            r@ == self.spec_bytes(),
    {
        proof { use_type_invariant(self); }
        let mut buf: Vec<u8> = Vec::new();
        buf.push(26u8);
        append_bytes(&mut buf, self.value.as_bytes());
        assert(buf@ =~= self.spec_bytes());
        buf
    }

    pub fn val(&self) -> (r: &str)
        ensures
            r@ == self.spec_val(),
    {
        proof { use_type_invariant(self); }
        self.value.as_str()
    }

    /// Encoded size: identifier byte plus the length-prefixed value.
    pub fn size(&self) -> (r: usize)
        ensures
            r == self.spec_bytes().len(),
    {
        proof { use_type_invariant(self); }
        1 + self.value.size()
    }

    /// A copy with the same contents.
    pub fn duplicate(&self) -> (r: ResponseInformation)
        ensures
            r.spec_bytes() == self.spec_bytes(),
            r.spec_val() == self.spec_val(),
    {
        proof { use_type_invariant(self); }
        ResponseInformation { value: self.value.duplicate() }
    }
}

/// The server reference property (identifier 28).
#[derive(Debug, PartialEq, Eq)]
pub struct ServerReference {
    value: MqttString,
}

impl ServerReference {
    #[verifier::type_invariant]
    pub closed spec fn inv(self) -> bool {
        self.value.wf()
    }

    /// The property's value.
    pub closed spec fn spec_val(self) -> Seq<char> {
        self.value@
    }

    /// The property's encoding: identifier followed by the length-prefixed value.
    pub closed spec fn spec_bytes(self) -> Seq<u8> {
        seq![28u8] + self.value.encoded()
    }

    pub fn id(&self) -> (r: PropertyId)
        ensures
            r == PropertyId::ServerReference,
    {
        PropertyId::ServerReference
    }

    /// The property with value `s`; `MalformedPacket` when it is longer than
    /// 65,535 bytes.
    pub fn new(s: &str) -> (r: Result<ServerReference, MqttError>)
        ensures
            s.spec_bytes().len() <= 65535 <==> r is Ok,
            r matches Ok(p) ==> p.spec_val() == s@,
            r matches Err(e) ==> e == MqttError::MalformedPacket,
    {
        let value = MqttString::new(s)?;
        Ok(ServerReference { value })
    }

    /// Parses the value that follows the identifier byte.
    pub fn parse(bytes: &[u8]) -> (r: Result<(ServerReference, usize), MqttError>)
        ensures
            r is Ok <==> string_field_result(bytes@) is Ok,
            r matches Ok((p, c)) ==> string_field_result(bytes@) == Ok::<nat, MqttError>(c as nat)
                && p.spec_bytes() == seq![28u8] + bytes@.subrange(0, c as int),
            r matches Err(e) ==> string_field_result(bytes@) == Err::<nat, MqttError>(e),
    {
        let (value, c) = parse_string_field(bytes)?;
        Ok((ServerReference { value }, c))
    }

    /// The identifier byte followed by the value bytes.
    pub fn to_continuous_buffer(&self) -> (r: Vec<u8>)
        ensures
            r@ == self.spec_bytes(),
    {
        proof { use_type_invariant(self); }
        let mut buf: Vec<u8> = Vec::new();
        buf.push(28u8);
        append_bytes(&mut buf, self.value.as_bytes());
        assert(buf@ =~= self.spec_bytes());
        buf
    }

    pub fn val(&self) -> (r: &str)
        ensures
            r@ == self.spec_val(),
    {
        proof { use_type_invariant(self); }
        self.value.as_str()
    }

    /// Encoded size: identifier byte plus the length-prefixed value.
    pub fn size(&self) -> (r: usize)
        ensures
            r == self.spec_bytes().len(),
    {
        proof { use_type_invariant(self); }
        1 + self.value.size()
    }

    /// A copy with the same contents.
    pub fn duplicate(&self) -> (r: ServerReference)
        ensures
            r.spec_bytes() == self.spec_bytes(),
            r.spec_val() == self.spec_val(),
    {
        proof { use_type_invariant(self); }
        ServerReference { value: self.value.duplicate() }
    }
}

/// The reason string property (identifier 31).
#[derive(Debug, PartialEq, Eq)]
pub struct ReasonString {
    value: MqttString,
}

impl ReasonString {
    #[verifier::type_invariant]
    pub closed spec fn inv(self) -> bool {
        self.value.wf()
    }

    /// The property's value.
    pub closed spec fn spec_val(self) -> Seq<char> {
        self.value@
    }

    /// The property's encoding: identifier followed by the length-prefixed value.
    pub closed spec fn spec_bytes(self) -> Seq<u8> {
        seq![31u8] + self.value.encoded()
    }

    pub fn id(&self) -> (r: PropertyId)
        ensures
            r == PropertyId::ReasonString,
    {
        PropertyId::ReasonString
    }

    /// The property with value `s`; `MalformedPacket` when it is longer than
    /// 65,535 bytes.
    pub fn new(s: &str) -> (r: Result<ReasonString, MqttError>)
        ensures
            s.spec_bytes().len() <= 65535 <==> r is Ok,
            r matches Ok(p) ==> p.spec_val() == s@,
            r matches Err(e) ==> e == MqttError::MalformedPacket,
    {
        let value = MqttString::new(s)?;
        Ok(ReasonString { value })
    }

    /// Parses the value that follows the identifier byte.
    pub fn parse(bytes: &[u8]) -> (r: Result<(ReasonString, usize), MqttError>)
        ensures
            r is Ok <==> string_field_result(bytes@) is Ok,
            r matches Ok((p, c)) ==> string_field_result(bytes@) == Ok::<nat, MqttError>(c as nat)
                && p.spec_bytes() == seq![31u8] + bytes@.subrange(0, c as int),
            r matches Err(e) ==> string_field_result(bytes@) == Err::<nat, MqttError>(e),
    {
        let (value, c) = parse_string_field(bytes)?;
        Ok((ReasonString { value }, c))
    }

    /// The identifier byte followed by the value bytes.
    pub fn to_continuous_buffer(&self) -> (r: Vec<u8>)
        ensures
            r@ == self.spec_bytes(),
    {
        proof { use_type_invariant(self); }
        let mut buf: Vec<u8> = Vec::new();
        buf.push(31u8);
        append_bytes(&mut buf, self.value.as_bytes());
        assert(buf@ =~= self.spec_bytes());
        buf
    }

    pub fn val(&self) -> (r: &str)
        ensures
            r@ == self.spec_val(),
    {
        proof { use_type_invariant(self); }
        self.value.as_str()
    }

    /// Encoded size: identifier byte plus the length-prefixed value.
    pub fn size(&self) -> (r: usize)
        ensures
            r == self.spec_bytes().len(),
    {
        proof { use_type_invariant(self); }
        1 + self.value.size()
    }

    /// A copy with the same contents.
    pub fn duplicate(&self) -> (r: ReasonString)
        ensures
            r.spec_bytes() == self.spec_bytes(),
            r.spec_val() == self.spec_val(),
    {
        proof { use_type_invariant(self); }
        ReasonString { value: self.value.duplicate() }
    }
}

/// The receive maximum property (identifier 33).
#[derive(Debug, PartialEq, Eq, Clone, Copy)]
pub struct ReceiveMaximum {
    value: u16,
}

impl ReceiveMaximum {
    #[verifier::type_invariant]
    pub closed spec fn inv(self) -> bool {
        self.value != 0
    }

    /// The property's value.
    pub closed spec fn spec_val(self) -> u16 {
        self.value
    }

    /// The property's encoding: identifier followed by the value.
    pub closed spec fn spec_bytes(self) -> Seq<u8> {
        seq![33u8] + be16(self.value as nat)
    }

    pub fn id(&self) -> (r: PropertyId)
        ensures
            r == PropertyId::ReceiveMaximum,
    {
        PropertyId::ReceiveMaximum
    }

    /// Parses the value that follows the identifier byte.
    pub fn parse(bytes: &[u8]) -> (r: Result<(ReceiveMaximum, usize), MqttError>)
        ensures
            r is Ok <==> u16_field_result(bytes@, true) is Ok,
            r matches Ok((p, c)) ==> u16_field_result(bytes@, true) == Ok::<nat, MqttError>(c as nat)
                && p.spec_bytes() == seq![33u8] + bytes@.subrange(0, c as int),
            r matches Err(e) ==> u16_field_result(bytes@, true) == Err::<nat, MqttError>(e),
    {
        let v = parse_u16_field(bytes, true)?;
        proof {
            lemma_be16_of_value(bytes@[0], bytes@[1]);
            assert(seq![bytes@[0], bytes@[1]] =~= bytes@.subrange(0, 2));
        }
        Ok((ReceiveMaximum { value: v }, 2))
    }

    /// The identifier byte followed by the value bytes.
    pub fn to_continuous_buffer(&self) -> (r: Vec<u8>)
        ensures
            r@ == self.spec_bytes(),
    {
        let mut buf: Vec<u8> = Vec::new();
        buf.push(33u8);
        let b = u16_to_be(self.value);
        buf.push(b[0]);
        buf.push(b[1]);
        assert(buf@ =~= self.spec_bytes());
        buf
    }

    pub fn val(&self) -> (r: u16)
        ensures
            r == self.spec_val(),
    {
        self.value
    }

    /// Encoded size: identifier byte plus value bytes.
    pub fn size(&self) -> (r: usize)
        ensures
            r == self.spec_bytes().len(),
            r == 3,
    {
        3
    }

    /// The property with value `v`; `ProtocolError` when the value is not allowed.
    pub fn new(v: u16) -> (r: Result<ReceiveMaximum, MqttError>)
        ensures
            v != 0 <==> r is Ok,
            r matches Ok(p) ==> p.spec_val() == v,
            r matches Err(e) ==> e == MqttError::ProtocolError,
    {
        if v == 0 {
            return Err(MqttError::ProtocolError);
        }
        Ok(ReceiveMaximum { value: v })
    }
}

/// The topic alias maximum property (identifier 34).
#[derive(Debug, PartialEq, Eq, Clone, Copy)]
pub struct TopicAliasMaximum {
    value: u16,
}

impl TopicAliasMaximum {
    #[verifier::type_invariant]
    pub closed spec fn inv(self) -> bool {
        true
    }

    /// The property's value.
    pub closed spec fn spec_val(self) -> u16 {
        self.value
    }

    /// The property's encoding: identifier followed by the value.
    pub closed spec fn spec_bytes(self) -> Seq<u8> {
        seq![34u8] + be16(self.value as nat)
    }

    pub fn id(&self) -> (r: PropertyId)
        ensures
            r == PropertyId::TopicAliasMaximum,
    {
        PropertyId::TopicAliasMaximum
    }

    /// Parses the value that follows the identifier byte.
    pub fn parse(bytes: &[u8]) -> (r: Result<(TopicAliasMaximum, usize), MqttError>)
        ensures
            r is Ok <==> u16_field_result(bytes@, false) is Ok,
            r matches Ok((p, c)) ==> u16_field_result(bytes@, false) == Ok::<nat, MqttError>(c as nat)
                && p.spec_bytes() == seq![34u8] + bytes@.subrange(0, c as int),
            r matches Err(e) ==> u16_field_result(bytes@, false) == Err::<nat, MqttError>(e),
    {
        let v = parse_u16_field(bytes, false)?;
        proof {
            lemma_be16_of_value(bytes@[0], bytes@[1]);
            assert(seq![bytes@[0], bytes@[1]] =~= bytes@.subrange(0, 2));
        }
        Ok((TopicAliasMaximum { value: v }, 2))
    }

    /// The identifier byte followed by the value bytes.
    pub fn to_continuous_buffer(&self) -> (r: Vec<u8>)
        ensures
            r@ == self.spec_bytes(),
    {
        let mut buf: Vec<u8> = Vec::new();
        buf.push(34u8);
        let b = u16_to_be(self.value);
        buf.push(b[0]);
        buf.push(b[1]);
        assert(buf@ =~= self.spec_bytes());
        buf
    }

    pub fn val(&self) -> (r: u16)
        ensures
            r == self.spec_val(),
    {
        self.value
    }

    /// Encoded size: identifier byte plus value bytes.
    pub fn size(&self) -> (r: usize)
        ensures
            r == self.spec_bytes().len(),
            r == 3,
    {
        3
    }

    /// The property with value `v`; `ProtocolError` when the value is not allowed.
    pub fn new(v: u16) -> (r: Result<TopicAliasMaximum, MqttError>)
        ensures
            true <==> r is Ok,
            r matches Ok(p) ==> p.spec_val() == v,
            r matches Err(e) ==> e == MqttError::ProtocolError,
    {
        Ok(TopicAliasMaximum { value: v })
    }
}

/// The topic alias property (identifier 35).
#[derive(Debug, PartialEq, Eq, Clone, Copy)]
pub struct TopicAlias {
    value: u16,
}

impl TopicAlias {
    #[verifier::type_invariant]
    pub closed spec fn inv(self) -> bool {
        self.value != 0
    }

    /// The property's value.
    pub closed spec fn spec_val(self) -> u16 {
        self.value
    }

    /// The property's encoding: identifier followed by the value.
    pub closed spec fn spec_bytes(self) -> Seq<u8> {
        seq![35u8] + be16(self.value as nat)
    }

    pub fn id(&self) -> (r: PropertyId)
        ensures
            r == PropertyId::TopicAlias,
    {
        PropertyId::TopicAlias
    }

    /// Parses the value that follows the identifier byte.
    pub fn parse(bytes: &[u8]) -> (r: Result<(TopicAlias, usize), MqttError>)
        ensures
            r is Ok <==> u16_field_result(bytes@, true) is Ok,
            r matches Ok((p, c)) ==> u16_field_result(bytes@, true) == Ok::<nat, MqttError>(c as nat)
                && p.spec_bytes() == seq![35u8] + bytes@.subrange(0, c as int),
            r matches Err(e) ==> u16_field_result(bytes@, true) == Err::<nat, MqttError>(e),
    {
        let v = parse_u16_field(bytes, true)?;
        proof {
            lemma_be16_of_value(bytes@[0], bytes@[1]);
            assert(seq![bytes@[0], bytes@[1]] =~= bytes@.subrange(0, 2));
        }
        Ok((TopicAlias { value: v }, 2))
    }

    /// The identifier byte followed by the value bytes.
    pub fn to_continuous_buffer(&self) -> (r: Vec<u8>)
        ensures
            r@ == self.spec_bytes(),
    {
        let mut buf: Vec<u8> = Vec::new();
        buf.push(35u8);
        let b = u16_to_be(self.value);
        buf.push(b[0]);
        buf.push(b[1]);
        assert(buf@ =~= self.spec_bytes());
        buf
    }

    pub fn val(&self) -> (r: u16)
        ensures
            r == self.spec_val(),
    {
        self.value
    }

    /// Encoded size: identifier byte plus value bytes.
    pub fn size(&self) -> (r: usize)
        ensures
            r == self.spec_bytes().len(),
            r == 3,
    {
        3
    }

    /// The property with value `v`; `ProtocolError` when the value is not allowed.
    pub fn new(v: u16) -> (r: Result<TopicAlias, MqttError>)
        ensures
            v != 0 <==> r is Ok,
            r matches Ok(p) ==> p.spec_val() == v,
            r matches Err(e) ==> e == MqttError::ProtocolError,
    {
        if v == 0 {
            return Err(MqttError::ProtocolError);
        }
        Ok(TopicAlias { value: v })
    }
}

/// The maximum qos property (identifier 36).
#[derive(Debug, PartialEq, Eq, Clone, Copy)]
pub struct MaximumQos {
    value: u8,
}

impl MaximumQos {
    #[verifier::type_invariant]
    pub closed spec fn inv(self) -> bool {
        self.value <= 1
    }

    /// The property's value.
    pub closed spec fn spec_val(self) -> u8 {
        self.value
    }

    /// The property's encoding: identifier followed by the value.
    pub closed spec fn spec_bytes(self) -> Seq<u8> {
        seq![36u8] + seq![self.value]
    }

    pub fn id(&self) -> (r: PropertyId)
        ensures
            r == PropertyId::MaximumQos,
    {
        PropertyId::MaximumQos
    }

    /// Parses the value that follows the identifier byte.
    pub fn parse(bytes: &[u8]) -> (r: Result<(MaximumQos, usize), MqttError>)
        ensures
            r is Ok <==> u8_field_result(bytes@, true) is Ok,
            r matches Ok((p, c)) ==> u8_field_result(bytes@, true) == Ok::<nat, MqttError>(c as nat)
                && p.spec_bytes() == seq![36u8] + bytes@.subrange(0, c as int),
            r matches Err(e) ==> u8_field_result(bytes@, true) == Err::<nat, MqttError>(e),
    {
        let v = parse_u8_field(bytes, true)?;
        proof { assert(seq![v] =~= bytes@.subrange(0, 1)); }
        Ok((MaximumQos { value: v }, 1))
    }

    /// The identifier byte followed by the value bytes.
    pub fn to_continuous_buffer(&self) -> (r: Vec<u8>)
        ensures
            r@ == self.spec_bytes(),
    {
        let mut buf: Vec<u8> = Vec::new();
        buf.push(36u8);
        buf.push(self.value);
        assert(buf@ =~= self.spec_bytes());
        buf
    }

    pub fn val(&self) -> (r: u8)
        ensures
            r == self.spec_val(),
    {
        self.value
    }

    /// Encoded size: identifier byte plus value bytes.
    pub fn size(&self) -> (r: usize)
        ensures
            r == self.spec_bytes().len(),
            r == 2,
    {
        2
    }

    /// The property with value `v`; `ProtocolError` when the value is not allowed.
    pub fn new(v: u8) -> (r: Result<MaximumQos, MqttError>)
        ensures
            v <= 1 <==> r is Ok,
            r matches Ok(p) ==> p.spec_val() == v,
            r matches Err(e) ==> e == MqttError::ProtocolError,
    {
        if v > 1 {
            return Err(MqttError::ProtocolError);
        }
        Ok(MaximumQos { value: v })
    }
}

/// The retain available property (identifier 37).
#[derive(Debug, PartialEq, Eq, Clone, Copy)]
pub struct RetainAvailable {
    value: u8,
}

impl RetainAvailable {
    #[verifier::type_invariant]
    pub closed spec fn inv(self) -> bool {
        self.value <= 1
    }

    /// The property's value.
    pub closed spec fn spec_val(self) -> u8 {
        self.value
    }

    /// The property's encoding: identifier followed by the value.
    pub closed spec fn spec_bytes(self) -> Seq<u8> {
        seq![37u8] + seq![self.value]
    }

    pub fn id(&self) -> (r: PropertyId)
        ensures
            r == PropertyId::RetainAvailable,
    {
        PropertyId::RetainAvailable
    }

    /// Parses the value that follows the identifier byte.
    pub fn parse(bytes: &[u8]) -> (r: Result<(RetainAvailable, usize), MqttError>)
        ensures
            r is Ok <==> u8_field_result(bytes@, true) is Ok,
            r matches Ok((p, c)) ==> u8_field_result(bytes@, true) == Ok::<nat, MqttError>(c as nat)
                && p.spec_bytes() == seq![37u8] + bytes@.subrange(0, c as int),
            r matches Err(e) ==> u8_field_result(bytes@, true) == Err::<nat, MqttError>(e),
    {
        let v = parse_u8_field(bytes, true)?;
        proof { assert(seq![v] =~= bytes@.subrange(0, 1)); }
        Ok((RetainAvailable { value: v }, 1))
    }

    /// The identifier byte followed by the value bytes.
    pub fn to_continuous_buffer(&self) -> (r: Vec<u8>)
        ensures
            r@ == self.spec_bytes(),
    {
        let mut buf: Vec<u8> = Vec::new();
        buf.push(37u8);
        buf.push(self.value);
        assert(buf@ =~= self.spec_bytes());
        buf
    }

    pub fn val(&self) -> (r: u8)
        ensures
            r == self.spec_val(),
    {
        self.value
    }

    /// Encoded size: identifier byte plus value bytes.
    pub fn size(&self) -> (r: usize)
        ensures
            r == self.spec_bytes().len(),
            r == 2,
    {
        2
    }

    /// The property with value `v`; `ProtocolError` when the value is not allowed.
    pub fn new(v: u8) -> (r: Result<RetainAvailable, MqttError>)
        ensures
            v <= 1 <==> r is Ok,
            r matches Ok(p) ==> p.spec_val() == v,
            r matches Err(e) ==> e == MqttError::ProtocolError,
    {
        if v > 1 {
            return Err(MqttError::ProtocolError);
        }
        Ok(RetainAvailable { value: v })
    }
}

/// The user property property (identifier 38).
#[derive(Debug, PartialEq, Eq)]
pub struct UserProperty {
    key: MqttString,
    value: MqttString,
}

impl UserProperty {
    #[verifier::type_invariant]
    pub closed spec fn inv(self) -> bool {
        self.key.wf() && self.value.wf()
    }

    /// The property's key.
    pub closed spec fn spec_key(self) -> Seq<char> {
        self.key@
    }

    /// The property's value.
    pub closed spec fn spec_val(self) -> Seq<char> {
        self.value@
    }

    /// The property's encoding: identifier, length-prefixed key, length-prefixed value.
    pub closed spec fn spec_bytes(self) -> Seq<u8> {
        seq![38u8] + self.key.encoded() + self.value.encoded()
    }

    pub fn id(&self) -> (r: PropertyId)
        ensures
            r == PropertyId::UserProperty,
    {
        PropertyId::UserProperty
    }

    /// The pair `(key, val)`; `MalformedPacket` when either is longer than
    /// 65,535 bytes.
    pub fn new(key: &str, val: &str) -> (r: Result<UserProperty, MqttError>)
        ensures
            (key.spec_bytes().len() <= 65535 && val.spec_bytes().len() <= 65535) <==> r is Ok,
            r matches Ok(p) ==> p.spec_key() == key@ && p.spec_val() == val@,
            r matches Err(e) ==> e == MqttError::MalformedPacket,
    {
        let key_mqtt = MqttString::new(key)?;
        let val_mqtt = MqttString::new(val)?;
        Ok(UserProperty { key: key_mqtt, value: val_mqtt })
    }

    /// Parses the key and value that follow the identifier byte.
    pub fn parse(bytes: &[u8]) -> (r: Result<(UserProperty, usize), MqttError>)
        ensures
            r is Ok <==> pair_field_result(bytes@) is Ok,
            r matches Ok((p, c)) ==> pair_field_result(bytes@) == Ok::<nat, MqttError>(c as nat)
                && p.spec_bytes() == seq![38u8] + bytes@.subrange(0, c as int),
            r matches Err(e) ==> pair_field_result(bytes@) == Err::<nat, MqttError>(e),
    {
        let (key, key_consumed) = parse_string_field(bytes)?;
        let (val, val_consumed) = parse_string_field(tail(bytes, key_consumed))?;
        proof {
            assert(bytes@.subrange(0, key_consumed + val_consumed) =~= bytes@.subrange(0, key_consumed as int)
                + bytes@.subrange(key_consumed as int, bytes@.len() as int).subrange(0, val_consumed as int));
        }
        Ok((UserProperty { key, value: val }, key_consumed + val_consumed))
    }

    /// The identifier byte followed by the key and value bytes.
    pub fn to_continuous_buffer(&self) -> (r: Vec<u8>)
        ensures
            r@ == self.spec_bytes(),
    {
        proof { use_type_invariant(self); }
        let mut buf: Vec<u8> = Vec::new();
        buf.push(38u8);
        append_bytes(&mut buf, self.key.as_bytes());
        append_bytes(&mut buf, self.value.as_bytes());
        assert(buf@ =~= self.spec_bytes());
        buf
    }

    pub fn key(&self) -> (r: &str)
        ensures
            r@ == self.spec_key(),
    {
        proof { use_type_invariant(self); }
        self.key.as_str()
    }

    pub fn val(&self) -> (r: &str)
        ensures
            r@ == self.spec_val(),
    {
        proof { use_type_invariant(self); }
        self.value.as_str()
    }

    /// Encoded size: identifier byte plus key and value.
    pub fn size(&self) -> (r: usize)
        ensures
            r == self.spec_bytes().len(),
    {
        proof { use_type_invariant(self); }
        1 + self.key.size() + self.value.size()
    }

    /// A copy with the same contents.
    pub fn duplicate(&self) -> (r: UserProperty)
        ensures
            r.spec_bytes() == self.spec_bytes(),
            r.spec_key() == self.spec_key(),
            r.spec_val() == self.spec_val(),
    {
        proof { use_type_invariant(self); }
        UserProperty { key: self.key.duplicate(), value: self.value.duplicate() }
    }
}

/// The maximum packet size property (identifier 39).
#[derive(Debug, PartialEq, Eq, Clone, Copy)]
pub struct MaximumPacketSize {
    value: u32,
}

impl MaximumPacketSize {
    #[verifier::type_invariant]
    pub closed spec fn inv(self) -> bool {
        self.value != 0
    }

    /// The property's value.
    pub closed spec fn spec_val(self) -> u32 {
        self.value
    }

    /// The property's encoding: identifier followed by the value.
    pub closed spec fn spec_bytes(self) -> Seq<u8> {
        seq![39u8] + be32(self.value as nat)
    }

    pub fn id(&self) -> (r: PropertyId)
        ensures
            r == PropertyId::MaximumPacketSize,
    {
        PropertyId::MaximumPacketSize
    }

    /// Parses the value that follows the identifier byte.
    pub fn parse(bytes: &[u8]) -> (r: Result<(MaximumPacketSize, usize), MqttError>)
        ensures
            r is Ok <==> u32_field_result(bytes@, true) is Ok,
            r matches Ok((p, c)) ==> u32_field_result(bytes@, true) == Ok::<nat, MqttError>(c as nat)
                && p.spec_bytes() == seq![39u8] + bytes@.subrange(0, c as int),
            r matches Err(e) ==> u32_field_result(bytes@, true) == Err::<nat, MqttError>(e),
    {
        let v = parse_u32_field(bytes, true)?;
        proof {
            lemma_be32_of_value(bytes@[0], bytes@[1], bytes@[2], bytes@[3]);
            assert(seq![bytes@[0], bytes@[1], bytes@[2], bytes@[3]] =~= bytes@.subrange(0, 4));
        }
        Ok((MaximumPacketSize { value: v }, 4))
    }

    /// The identifier byte followed by the value bytes.
    pub fn to_continuous_buffer(&self) -> (r: Vec<u8>)
        ensures
            r@ == self.spec_bytes(),
    {
        let mut buf: Vec<u8> = Vec::new();
        buf.push(39u8);
        let b = u32_to_be(self.value);
        buf.push(b[0]);
        buf.push(b[1]);
        buf.push(b[2]);
        buf.push(b[3]);
        assert(buf@ =~= self.spec_bytes());
        buf
    }

    pub fn val(&self) -> (r: u32)
        ensures
            r == self.spec_val(),
    {
        self.value
    }

    /// Encoded size: identifier byte plus value bytes.
    pub fn size(&self) -> (r: usize)
        ensures
            r == self.spec_bytes().len(),
            r == 5,
    {
        5
    }

    /// The property with value `v`; `ProtocolError` when the value is not allowed.
    pub fn new(v: u32) -> (r: Result<MaximumPacketSize, MqttError>)
        ensures
            v != 0 <==> r is Ok,
            r matches Ok(p) ==> p.spec_val() == v,
            r matches Err(e) ==> e == MqttError::ProtocolError,
    {
        if v == 0 {
            return Err(MqttError::ProtocolError);
        }
        Ok(MaximumPacketSize { value: v })
    }
}

/// The wildcard subscription available property (identifier 40).
#[derive(Debug, PartialEq, Eq, Clone, Copy)]
pub struct WildcardSubscriptionAvailable {
    value: u8,
}

impl WildcardSubscriptionAvailable {
    #[verifier::type_invariant]
    pub closed spec fn inv(self) -> bool {
        self.value <= 1
    }

    /// The property's value.
    pub closed spec fn spec_val(self) -> u8 {
        self.value
    }

    /// The property's encoding: identifier followed by the value.
    pub closed spec fn spec_bytes(self) -> Seq<u8> {
        seq![40u8] + seq![self.value]
    }

    pub fn id(&self) -> (r: PropertyId)
        ensures
            r == PropertyId::WildcardSubscriptionAvailable,
    {
        PropertyId::WildcardSubscriptionAvailable
    }

    /// Parses the value that follows the identifier byte.
    pub fn parse(bytes: &[u8]) -> (r: Result<(WildcardSubscriptionAvailable, usize), MqttError>)
        ensures
            r is Ok <==> u8_field_result(bytes@, true) is Ok,
            r matches Ok((p, c)) ==> u8_field_result(bytes@, true) == Ok::<nat, MqttError>(c as nat)
                && p.spec_bytes() == seq![40u8] + bytes@.subrange(0, c as int),
            r matches Err(e) ==> u8_field_result(bytes@, true) == Err::<nat, MqttError>(e),
    {
        let v = parse_u8_field(bytes, true)?;
        proof { assert(seq![v] =~= bytes@.subrange(0, 1)); }
        Ok((WildcardSubscriptionAvailable { value: v }, 1))
    }

    /// The identifier byte followed by the value bytes.
    pub fn to_continuous_buffer(&self) -> (r: Vec<u8>)
        ensures
            r@ == self.spec_bytes(),
    {
        let mut buf: Vec<u8> = Vec::new();
        buf.push(40u8);
        buf.push(self.value);
        assert(buf@ =~= self.spec_bytes());
        buf
    }

    pub fn val(&self) -> (r: u8)
        ensures
            r == self.spec_val(),
    {
        self.value
    }

    /// Encoded size: identifier byte plus value bytes.
    pub fn size(&self) -> (r: usize)
        ensures
            r == self.spec_bytes().len(),
            r == 2,
    {
        2
    }

    /// The property with value `v`; `ProtocolError` when the value is not allowed.
    pub fn new(v: u8) -> (r: Result<WildcardSubscriptionAvailable, MqttError>)
        ensures
            v <= 1 <==> r is Ok,
            r matches Ok(p) ==> p.spec_val() == v,
            r matches Err(e) ==> e == MqttError::ProtocolError,
    {
        if v > 1 {
            return Err(MqttError::ProtocolError);
        }
        Ok(WildcardSubscriptionAvailable { value: v })
    }
}

/// The subscription identifier available property (identifier 41).
#[derive(Debug, PartialEq, Eq, Clone, Copy)]
pub struct SubscriptionIdentifierAvailable {
    value: u8,
}

impl SubscriptionIdentifierAvailable {
    #[verifier::type_invariant]
    pub closed spec fn inv(self) -> bool {
        self.value <= 1
    }

    /// The property's value.
    pub closed spec fn spec_val(self) -> u8 {
        self.value
    }

    /// The property's encoding: identifier followed by the value.
    pub closed spec fn spec_bytes(self) -> Seq<u8> {
        seq![41u8] + seq![self.value]
    }

    pub fn id(&self) -> (r: PropertyId)
        ensures
            r == PropertyId::SubscriptionIdentifierAvailable,
    {
        PropertyId::SubscriptionIdentifierAvailable
    }

    /// Parses the value that follows the identifier byte.
    pub fn parse(bytes: &[u8]) -> (r: Result<(SubscriptionIdentifierAvailable, usize), MqttError>)
        ensures
            r is Ok <==> u8_field_result(bytes@, true) is Ok,
            r matches Ok((p, c)) ==> u8_field_result(bytes@, true) == Ok::<nat, MqttError>(c as nat)
                && p.spec_bytes() == seq![41u8] + bytes@.subrange(0, c as int),
            r matches Err(e) ==> u8_field_result(bytes@, true) == Err::<nat, MqttError>(e),
    {
        let v = parse_u8_field(bytes, true)?;
        proof { assert(seq![v] =~= bytes@.subrange(0, 1)); }
        Ok((SubscriptionIdentifierAvailable { value: v }, 1))
    }

    /// The identifier byte followed by the value bytes.
    pub fn to_continuous_buffer(&self) -> (r: Vec<u8>)
        ensures
            r@ == self.spec_bytes(),
    {
        let mut buf: Vec<u8> = Vec::new();
        buf.push(41u8);
        buf.push(self.value);
        assert(buf@ =~= self.spec_bytes());
        buf
    }

    pub fn val(&self) -> (r: u8)
        ensures
            r == self.spec_val(),
    {
        self.value
    }

    /// Encoded size: identifier byte plus value bytes.
    pub fn size(&self) -> (r: usize)
        ensures
            r == self.spec_bytes().len(),
            r == 2,
    {
        2
    }

    /// The property with value `v`; `ProtocolError` when the value is not allowed.
    pub fn new(v: u8) -> (r: Result<SubscriptionIdentifierAvailable, MqttError>)
        ensures
            v <= 1 <==> r is Ok,
            r matches Ok(p) ==> p.spec_val() == v,
            r matches Err(e) ==> e == MqttError::ProtocolError,
    {
        if v > 1 {
            return Err(MqttError::ProtocolError);
        }
        Ok(SubscriptionIdentifierAvailable { value: v })
    }
}

/// The shared subscription available property (identifier 42).
#[derive(Debug, PartialEq, Eq, Clone, Copy)]
pub struct SharedSubscriptionAvailable {
    value: u8,
}

impl SharedSubscriptionAvailable {
    #[verifier::type_invariant]
    pub closed spec fn inv(self) -> bool {
        self.value <= 1
    }

    /// The property's value.
    pub closed spec fn spec_val(self) -> u8 {
        self.value
    }

    /// The property's encoding: identifier followed by the value.
    pub closed spec fn spec_bytes(self) -> Seq<u8> {
        seq![42u8] + seq![self.value]
    }

    pub fn id(&self) -> (r: PropertyId)
        ensures
            r == PropertyId::SharedSubscriptionAvailable,
    {
        PropertyId::SharedSubscriptionAvailable
    }

    /// Parses the value that follows the identifier byte.
    pub fn parse(bytes: &[u8]) -> (r: Result<(SharedSubscriptionAvailable, usize), MqttError>)
        ensures
            r is Ok <==> u8_field_result(bytes@, true) is Ok,
            r matches Ok((p, c)) ==> u8_field_result(bytes@, true) == Ok::<nat, MqttError>(c as nat)
                && p.spec_bytes() == seq![42u8] + bytes@.subrange(0, c as int),
            r matches Err(e) ==> u8_field_result(bytes@, true) == Err::<nat, MqttError>(e),
    {
        let v = parse_u8_field(bytes, true)?;
        proof { assert(seq![v] =~= bytes@.subrange(0, 1)); }
        Ok((SharedSubscriptionAvailable { value: v }, 1))
    }

    /// The identifier byte followed by the value bytes.
    pub fn to_continuous_buffer(&self) -> (r: Vec<u8>)
        ensures
            r@ == self.spec_bytes(),
    {
        let mut buf: Vec<u8> = Vec::new();
        buf.push(42u8);
        buf.push(self.value);
        assert(buf@ =~= self.spec_bytes());
        buf
    }

    pub fn val(&self) -> (r: u8)
        ensures
            r == self.spec_val(),
    {
        self.value
    }

    /// Encoded size: identifier byte plus value bytes.
    pub fn size(&self) -> (r: usize)
        ensures
            r == self.spec_bytes().len(),
            r == 2,
    {
        2
    }

    /// The property with value `v`; `ProtocolError` when the value is not allowed.
    pub fn new(v: u8) -> (r: Result<SharedSubscriptionAvailable, MqttError>)
        ensures
            v <= 1 <==> r is Ok,
            r matches Ok(p) ==> p.spec_val() == v,
            r matches Err(e) ==> e == MqttError::ProtocolError,
    {
        if v > 1 {
            return Err(MqttError::ProtocolError);
        }
        Ok(SharedSubscriptionAvailable { value: v })
    }
}

impl Clone for ContentType {
    fn clone(&self) -> (r: ContentType)
        ensures
            r.spec_bytes() == self.spec_bytes(),
    {
        self.duplicate()
    }
}

impl Clone for ResponseTopic {
    fn clone(&self) -> (r: ResponseTopic)
        ensures
            r.spec_bytes() == self.spec_bytes(),
    {
        self.duplicate()
    }
}

impl Clone for CorrelationData {
    fn clone(&self) -> (r: CorrelationData)
        ensures
            r.spec_bytes() == self.spec_bytes(),
    {
        self.duplicate()
    }
}

impl Clone for AssignedClientIdentifier {
    fn clone(&self) -> (r: AssignedClientIdentifier)
        ensures
            r.spec_bytes() == self.spec_bytes(),
    {
        self.duplicate()
    }
}

impl Clone for AuthenticationMethod {
    fn clone(&self) -> (r: AuthenticationMethod)
        ensures
            r.spec_bytes() == self.spec_bytes(),
    {
        self.duplicate()
    }
}

impl Clone for AuthenticationData {
    fn clone(&self) -> (r: AuthenticationData)
        ensures
            r.spec_bytes() == self.spec_bytes(),
    {
        self.duplicate()
    }
}

impl Clone for ResponseInformation {
    fn clone(&self) -> (r: ResponseInformation)
        ensures
            r.spec_bytes() == self.spec_bytes(),
    {
        self.duplicate()
    }
}

impl Clone for ServerReference {
    fn clone(&self) -> (r: ServerReference)
        ensures
            r.spec_bytes() == self.spec_bytes(),
    {
        self.duplicate()
    }
}

impl Clone for ReasonString {
    fn clone(&self) -> (r: ReasonString)
        ensures
            r.spec_bytes() == self.spec_bytes(),
    {
        self.duplicate()
    }
}

impl Clone for UserProperty {
    fn clone(&self) -> (r: UserProperty)
        ensures
            r.spec_bytes() == self.spec_bytes(),
    {
        self.duplicate()
    }
}

/// An MQTT v5.0 property.
#[derive(Debug, PartialEq, Eq)]
pub enum Property {
    PayloadFormatIndicator(PayloadFormatIndicator),
    MessageExpiryInterval(MessageExpiryInterval),
    ContentType(ContentType),
    ResponseTopic(ResponseTopic),
    CorrelationData(CorrelationData),
    SubscriptionIdentifier(SubscriptionIdentifier),
    SessionExpiryInterval(SessionExpiryInterval),
    AssignedClientIdentifier(AssignedClientIdentifier),
    ServerKeepAlive(ServerKeepAlive),
    AuthenticationMethod(AuthenticationMethod),
    AuthenticationData(AuthenticationData),
    RequestProblemInformation(RequestProblemInformation),
    WillDelayInterval(WillDelayInterval),
    RequestResponseInformation(RequestResponseInformation),
    ResponseInformation(ResponseInformation),
    ServerReference(ServerReference),
    ReasonString(ReasonString),
    ReceiveMaximum(ReceiveMaximum),
    TopicAliasMaximum(TopicAliasMaximum),
    TopicAlias(TopicAlias),
    MaximumQos(MaximumQos),
    RetainAvailable(RetainAvailable),
    UserProperty(UserProperty),
    MaximumPacketSize(MaximumPacketSize),
    WildcardSubscriptionAvailable(WildcardSubscriptionAvailable),
    SubscriptionIdentifierAvailable(SubscriptionIdentifierAvailable),
    SharedSubscriptionAvailable(SharedSubscriptionAvailable),
}

/// Outcome of parsing the value of a property with identifier `id` from `b`.
pub open spec fn property_value_result(id: PropertyId, b: Seq<u8>) -> Result<nat, MqttError> {
    match id {
        PropertyId::PayloadFormatIndicator => u8_field_result(b, true),
        PropertyId::MessageExpiryInterval => u32_field_result(b, false),
        PropertyId::ContentType => string_field_result(b),
        PropertyId::ResponseTopic => string_field_result(b),
        PropertyId::CorrelationData => binary_field_result(b),
        PropertyId::SubscriptionIdentifier => vbi_field_result(b, true),
        PropertyId::SessionExpiryInterval => u32_field_result(b, false),
        PropertyId::AssignedClientIdentifier => string_field_result(b),
        PropertyId::ServerKeepAlive => u16_field_result(b, false),
        PropertyId::AuthenticationMethod => string_field_result(b),
        PropertyId::AuthenticationData => binary_field_result(b),
        PropertyId::RequestProblemInformation => u8_field_result(b, true),
        PropertyId::WillDelayInterval => u32_field_result(b, false),
        PropertyId::RequestResponseInformation => u8_field_result(b, true),
        PropertyId::ResponseInformation => string_field_result(b),
        PropertyId::ServerReference => string_field_result(b),
        PropertyId::ReasonString => string_field_result(b),
        PropertyId::ReceiveMaximum => u16_field_result(b, true),
        PropertyId::TopicAliasMaximum => u16_field_result(b, false),
        PropertyId::TopicAlias => u16_field_result(b, true),
        PropertyId::MaximumQos => u8_field_result(b, true),
        PropertyId::RetainAvailable => u8_field_result(b, true),
        PropertyId::UserProperty => pair_field_result(b),
        PropertyId::MaximumPacketSize => u32_field_result(b, true),
        PropertyId::WildcardSubscriptionAvailable => u8_field_result(b, true),
        PropertyId::SubscriptionIdentifierAvailable => u8_field_result(b, true),
        PropertyId::SharedSubscriptionAvailable => u8_field_result(b, true),
    }
}

/// Outcome of parsing one property (identifier and value) from the front of
/// `b`: the number of bytes it takes, or the error.
pub open spec fn property_result(b: Seq<u8>) -> Result<nat, MqttError> {
    if b.len() == 0 {
        Err(MqttError::MalformedPacket)
    } else {
        match PropertyId::spec_from_u8(b[0]) {
            None => Err(MqttError::MalformedPacket),
            Some(id) => match property_value_result(id, b.subrange(1, b.len() as int)) {
                Ok(n) => Ok(n + 1),
                Err(e) => Err(e),
            },
        }
    }
}

impl Property {
    /// Every value held by the property is well formed.
    pub open spec fn inv(self) -> bool {
        match self {
            Property::PayloadFormatIndicator(p) => p.inv(),
            Property::MessageExpiryInterval(p) => p.inv(),
            Property::ContentType(p) => p.inv(),
            Property::ResponseTopic(p) => p.inv(),
            Property::CorrelationData(p) => p.inv(),
            Property::SubscriptionIdentifier(p) => p.inv(),
            Property::SessionExpiryInterval(p) => p.inv(),
            Property::AssignedClientIdentifier(p) => p.inv(),
            Property::ServerKeepAlive(p) => p.inv(),
            Property::AuthenticationMethod(p) => p.inv(),
            Property::AuthenticationData(p) => p.inv(),
            Property::RequestProblemInformation(p) => p.inv(),
            Property::WillDelayInterval(p) => p.inv(),
            Property::RequestResponseInformation(p) => p.inv(),
            Property::ResponseInformation(p) => p.inv(),
            Property::ServerReference(p) => p.inv(),
            Property::ReasonString(p) => p.inv(),
            Property::ReceiveMaximum(p) => p.inv(),
            Property::TopicAliasMaximum(p) => p.inv(),
            Property::TopicAlias(p) => p.inv(),
            Property::MaximumQos(p) => p.inv(),
            Property::RetainAvailable(p) => p.inv(),
            Property::UserProperty(p) => p.inv(),
            Property::MaximumPacketSize(p) => p.inv(),
            Property::WildcardSubscriptionAvailable(p) => p.inv(),
            Property::SubscriptionIdentifierAvailable(p) => p.inv(),
            Property::SharedSubscriptionAvailable(p) => p.inv(),
        }
    }

    /// The property's encoding (identifier followed by its value).
    pub open spec fn spec_bytes(self) -> Seq<u8> {
        match self {
            Property::PayloadFormatIndicator(p) => p.spec_bytes(),
            Property::MessageExpiryInterval(p) => p.spec_bytes(),
            Property::ContentType(p) => p.spec_bytes(),
            Property::ResponseTopic(p) => p.spec_bytes(),
            Property::CorrelationData(p) => p.spec_bytes(),
            Property::SubscriptionIdentifier(p) => p.spec_bytes(),
            Property::SessionExpiryInterval(p) => p.spec_bytes(),
            Property::AssignedClientIdentifier(p) => p.spec_bytes(),
            Property::ServerKeepAlive(p) => p.spec_bytes(),
            Property::AuthenticationMethod(p) => p.spec_bytes(),
            Property::AuthenticationData(p) => p.spec_bytes(),
            Property::RequestProblemInformation(p) => p.spec_bytes(),
            Property::WillDelayInterval(p) => p.spec_bytes(),
            Property::RequestResponseInformation(p) => p.spec_bytes(),
            Property::ResponseInformation(p) => p.spec_bytes(),
            Property::ServerReference(p) => p.spec_bytes(),
            Property::ReasonString(p) => p.spec_bytes(),
            Property::ReceiveMaximum(p) => p.spec_bytes(),
            Property::TopicAliasMaximum(p) => p.spec_bytes(),
            Property::TopicAlias(p) => p.spec_bytes(),
            Property::MaximumQos(p) => p.spec_bytes(),
            Property::RetainAvailable(p) => p.spec_bytes(),
            Property::UserProperty(p) => p.spec_bytes(),
            Property::MaximumPacketSize(p) => p.spec_bytes(),
            Property::WildcardSubscriptionAvailable(p) => p.spec_bytes(),
            Property::SubscriptionIdentifierAvailable(p) => p.spec_bytes(),
            Property::SharedSubscriptionAvailable(p) => p.spec_bytes(),
        }
    }

    pub open spec fn spec_id(self) -> PropertyId {
        match self {
            Property::PayloadFormatIndicator(_) => PropertyId::PayloadFormatIndicator,
            Property::MessageExpiryInterval(_) => PropertyId::MessageExpiryInterval,
            Property::ContentType(_) => PropertyId::ContentType,
            Property::ResponseTopic(_) => PropertyId::ResponseTopic,
            Property::CorrelationData(_) => PropertyId::CorrelationData,
            Property::SubscriptionIdentifier(_) => PropertyId::SubscriptionIdentifier,
            Property::SessionExpiryInterval(_) => PropertyId::SessionExpiryInterval,
            Property::AssignedClientIdentifier(_) => PropertyId::AssignedClientIdentifier,
            Property::ServerKeepAlive(_) => PropertyId::ServerKeepAlive,
            Property::AuthenticationMethod(_) => PropertyId::AuthenticationMethod,
            Property::AuthenticationData(_) => PropertyId::AuthenticationData,
            Property::RequestProblemInformation(_) => PropertyId::RequestProblemInformation,
            Property::WillDelayInterval(_) => PropertyId::WillDelayInterval,
            Property::RequestResponseInformation(_) => PropertyId::RequestResponseInformation,
            Property::ResponseInformation(_) => PropertyId::ResponseInformation,
            Property::ServerReference(_) => PropertyId::ServerReference,
            Property::ReasonString(_) => PropertyId::ReasonString,
            Property::ReceiveMaximum(_) => PropertyId::ReceiveMaximum,
            Property::TopicAliasMaximum(_) => PropertyId::TopicAliasMaximum,
            Property::TopicAlias(_) => PropertyId::TopicAlias,
            Property::MaximumQos(_) => PropertyId::MaximumQos,
            Property::RetainAvailable(_) => PropertyId::RetainAvailable,
            Property::UserProperty(_) => PropertyId::UserProperty,
            Property::MaximumPacketSize(_) => PropertyId::MaximumPacketSize,
            Property::WildcardSubscriptionAvailable(_) => PropertyId::WildcardSubscriptionAvailable,
            Property::SubscriptionIdentifierAvailable(_) => PropertyId::SubscriptionIdentifierAvailable,
            Property::SharedSubscriptionAvailable(_) => PropertyId::SharedSubscriptionAvailable,
        }
    }

    /// The property was parsed from the first `n` bytes of `b`: its encoding
    /// is those bytes, except that a subscription identifier may have been
    /// encoded with more bytes than needed, in which case its value is the one
    /// those bytes carry.
    pub open spec fn parsed_from(self, b: Seq<u8>, n: nat) -> bool {
        &&& b.len() > 0
        &&& PropertyId::spec_from_u8(b[0]) == Some(self.spec_id())
        &&& match self {
            Property::SubscriptionIdentifier(p) => p.spec_val() == vbi_value(
                b.subrange(1, b.len() as int),
                (n - 1) as nat,
            ),
            _ => self.spec_bytes() == b.subrange(0, n as int),
        }
    }

    pub fn id(&self) -> (r: PropertyId)
        ensures
            r == self.spec_id(),
    {
        match self {
            Property::PayloadFormatIndicator(p) => p.id(),
            Property::MessageExpiryInterval(p) => p.id(),
            Property::ContentType(p) => p.id(),
            Property::ResponseTopic(p) => p.id(),
            Property::CorrelationData(p) => p.id(),
            Property::SubscriptionIdentifier(p) => p.id(),
            Property::SessionExpiryInterval(p) => p.id(),
            Property::AssignedClientIdentifier(p) => p.id(),
            Property::ServerKeepAlive(p) => p.id(),
            Property::AuthenticationMethod(p) => p.id(),
            Property::AuthenticationData(p) => p.id(),
            Property::RequestProblemInformation(p) => p.id(),
            Property::WillDelayInterval(p) => p.id(),
            Property::RequestResponseInformation(p) => p.id(),
            Property::ResponseInformation(p) => p.id(),
            Property::ServerReference(p) => p.id(),
            Property::ReasonString(p) => p.id(),
            Property::ReceiveMaximum(p) => p.id(),
            Property::TopicAliasMaximum(p) => p.id(),
            Property::TopicAlias(p) => p.id(),
            Property::MaximumQos(p) => p.id(),
            Property::RetainAvailable(p) => p.id(),
            Property::UserProperty(p) => p.id(),
            Property::MaximumPacketSize(p) => p.id(),
            Property::WildcardSubscriptionAvailable(p) => p.id(),
            Property::SubscriptionIdentifierAvailable(p) => p.id(),
            Property::SharedSubscriptionAvailable(p) => p.id(),
        }
    }

    /// Encoded size of the property.
    pub fn size(&self) -> (r: usize)
        ensures
            r == self.spec_bytes().len(),
    {
        match self {
            Property::PayloadFormatIndicator(p) => p.size(),
            Property::MessageExpiryInterval(p) => p.size(),
            Property::ContentType(p) => p.size(),
            Property::ResponseTopic(p) => p.size(),
            Property::CorrelationData(p) => p.size(),
            Property::SubscriptionIdentifier(p) => p.size(),
            Property::SessionExpiryInterval(p) => p.size(),
            Property::AssignedClientIdentifier(p) => p.size(),
            Property::ServerKeepAlive(p) => p.size(),
            Property::AuthenticationMethod(p) => p.size(),
            Property::AuthenticationData(p) => p.size(),
            Property::RequestProblemInformation(p) => p.size(),
            Property::WillDelayInterval(p) => p.size(),
            Property::RequestResponseInformation(p) => p.size(),
            Property::ResponseInformation(p) => p.size(),
            Property::ServerReference(p) => p.size(),
            Property::ReasonString(p) => p.size(),
            Property::ReceiveMaximum(p) => p.size(),
            Property::TopicAliasMaximum(p) => p.size(),
            Property::TopicAlias(p) => p.size(),
            Property::MaximumQos(p) => p.size(),
            Property::RetainAvailable(p) => p.size(),
            Property::UserProperty(p) => p.size(),
            Property::MaximumPacketSize(p) => p.size(),
            Property::WildcardSubscriptionAvailable(p) => p.size(),
            Property::SubscriptionIdentifierAvailable(p) => p.size(),
            Property::SharedSubscriptionAvailable(p) => p.size(),
        }
    }

    /// The encoded property.
    pub fn to_continuous_buffer(&self) -> (r: Vec<u8>)
        ensures
            r@ == self.spec_bytes(),
    {
        match self {
            Property::PayloadFormatIndicator(p) => p.to_continuous_buffer(),
            Property::MessageExpiryInterval(p) => p.to_continuous_buffer(),
            Property::ContentType(p) => p.to_continuous_buffer(),
            Property::ResponseTopic(p) => p.to_continuous_buffer(),
            Property::CorrelationData(p) => p.to_continuous_buffer(),
            Property::SubscriptionIdentifier(p) => p.to_continuous_buffer(),
            Property::SessionExpiryInterval(p) => p.to_continuous_buffer(),
            Property::AssignedClientIdentifier(p) => p.to_continuous_buffer(),
            Property::ServerKeepAlive(p) => p.to_continuous_buffer(),
            Property::AuthenticationMethod(p) => p.to_continuous_buffer(),
            Property::AuthenticationData(p) => p.to_continuous_buffer(),
            Property::RequestProblemInformation(p) => p.to_continuous_buffer(),
            Property::WillDelayInterval(p) => p.to_continuous_buffer(),
            Property::RequestResponseInformation(p) => p.to_continuous_buffer(),
            Property::ResponseInformation(p) => p.to_continuous_buffer(),
            Property::ServerReference(p) => p.to_continuous_buffer(),
            Property::ReasonString(p) => p.to_continuous_buffer(),
            Property::ReceiveMaximum(p) => p.to_continuous_buffer(),
            Property::TopicAliasMaximum(p) => p.to_continuous_buffer(),
            Property::TopicAlias(p) => p.to_continuous_buffer(),
            Property::MaximumQos(p) => p.to_continuous_buffer(),
            Property::RetainAvailable(p) => p.to_continuous_buffer(),
            Property::UserProperty(p) => p.to_continuous_buffer(),
            Property::MaximumPacketSize(p) => p.to_continuous_buffer(),
            Property::WildcardSubscriptionAvailable(p) => p.to_continuous_buffer(),
            Property::SubscriptionIdentifierAvailable(p) => p.to_continuous_buffer(),
            Property::SharedSubscriptionAvailable(p) => p.to_continuous_buffer(),
        }
    }

    /// A copy with the same encoding.
    pub fn duplicate(&self) -> (r: Property)
        ensures
            r.spec_bytes() == self.spec_bytes(),
            r.spec_id() == self.spec_id(),
    {
        match self {
            Property::PayloadFormatIndicator(p) => Property::PayloadFormatIndicator(*p),
            Property::MessageExpiryInterval(p) => Property::MessageExpiryInterval(*p),
            Property::ContentType(p) => Property::ContentType(p.duplicate()),
            Property::ResponseTopic(p) => Property::ResponseTopic(p.duplicate()),
            Property::CorrelationData(p) => Property::CorrelationData(p.duplicate()),
            Property::SubscriptionIdentifier(p) => Property::SubscriptionIdentifier(*p),
            Property::SessionExpiryInterval(p) => Property::SessionExpiryInterval(*p),
            Property::AssignedClientIdentifier(p) => Property::AssignedClientIdentifier(p.duplicate()),
            Property::ServerKeepAlive(p) => Property::ServerKeepAlive(*p),
            Property::AuthenticationMethod(p) => Property::AuthenticationMethod(p.duplicate()),
            Property::AuthenticationData(p) => Property::AuthenticationData(p.duplicate()),
            Property::RequestProblemInformation(p) => Property::RequestProblemInformation(*p),
            Property::WillDelayInterval(p) => Property::WillDelayInterval(*p),
            Property::RequestResponseInformation(p) => Property::RequestResponseInformation(*p),
            Property::ResponseInformation(p) => Property::ResponseInformation(p.duplicate()),
            Property::ServerReference(p) => Property::ServerReference(p.duplicate()),
            Property::ReasonString(p) => Property::ReasonString(p.duplicate()),
            Property::ReceiveMaximum(p) => Property::ReceiveMaximum(*p),
            Property::TopicAliasMaximum(p) => Property::TopicAliasMaximum(*p),
            Property::TopicAlias(p) => Property::TopicAlias(*p),
            Property::MaximumQos(p) => Property::MaximumQos(*p),
            Property::RetainAvailable(p) => Property::RetainAvailable(*p),
            Property::UserProperty(p) => Property::UserProperty(p.duplicate()),
            Property::MaximumPacketSize(p) => Property::MaximumPacketSize(*p),
            Property::WildcardSubscriptionAvailable(p) => Property::WildcardSubscriptionAvailable(*p),
            Property::SubscriptionIdentifierAvailable(p) => Property::SubscriptionIdentifierAvailable(*p),
            Property::SharedSubscriptionAvailable(p) => Property::SharedSubscriptionAvailable(*p),
        }
    }

    /// Parses one property from the front of `bytes`.
    pub fn parse(bytes: &[u8]) -> (r: Result<(Property, usize), MqttError>)
        ensures
            r is Ok <==> property_result(bytes@) is Ok,
            r matches Ok((p, n)) ==> property_result(bytes@) == Ok::<nat, MqttError>(n as nat)
                && p.parsed_from(bytes@, n as nat) && p.inv() && 2 <= n <= bytes@.len(),
            r matches Err(e) ==> property_result(bytes@) == Err::<nat, MqttError>(e),
    {
        if bytes.len() == 0 {
            return Err(MqttError::MalformedPacket);
        }
        let id = match PropertyId::from_u8(bytes[0]) {
            Some(id) => id,
            None => return Err(MqttError::MalformedPacket),
        };
        let rest = tail(bytes, 1);
        match id {
            PropertyId::PayloadFormatIndicator => {
                let (p, l) = PayloadFormatIndicator::parse(rest)?;
                proof { use_type_invariant(&p); lemma_split_first(bytes@, l as nat); }
                Ok((Property::PayloadFormatIndicator(p), l + 1))
            },
            PropertyId::MessageExpiryInterval => {
                let (p, l) = MessageExpiryInterval::parse(rest)?;
                proof { use_type_invariant(&p); lemma_split_first(bytes@, l as nat); }
                Ok((Property::MessageExpiryInterval(p), l + 1))
            },
            PropertyId::ContentType => {
                let (p, l) = ContentType::parse(rest)?;
                proof { use_type_invariant(&p); lemma_split_first(bytes@, l as nat); }
                Ok((Property::ContentType(p), l + 1))
            },
            PropertyId::ResponseTopic => {
                let (p, l) = ResponseTopic::parse(rest)?;
                proof { use_type_invariant(&p); lemma_split_first(bytes@, l as nat); }
                Ok((Property::ResponseTopic(p), l + 1))
            },
            PropertyId::CorrelationData => {
                let (p, l) = CorrelationData::parse(rest)?;
                proof { use_type_invariant(&p); lemma_split_first(bytes@, l as nat); }
                Ok((Property::CorrelationData(p), l + 1))
            },
            PropertyId::SubscriptionIdentifier => {
                let (p, l) = SubscriptionIdentifier::parse(rest)?;
                proof { use_type_invariant(&p); lemma_split_first(bytes@, l as nat); }
                Ok((Property::SubscriptionIdentifier(p), l + 1))
            },
            PropertyId::SessionExpiryInterval => {
                let (p, l) = SessionExpiryInterval::parse(rest)?;
                proof { use_type_invariant(&p); lemma_split_first(bytes@, l as nat); }
                Ok((Property::SessionExpiryInterval(p), l + 1))
            },
            PropertyId::AssignedClientIdentifier => {
                let (p, l) = AssignedClientIdentifier::parse(rest)?;
                proof { use_type_invariant(&p); lemma_split_first(bytes@, l as nat); }
                Ok((Property::AssignedClientIdentifier(p), l + 1))
            },
            PropertyId::ServerKeepAlive => {
                let (p, l) = ServerKeepAlive::parse(rest)?;
                proof { use_type_invariant(&p); lemma_split_first(bytes@, l as nat); }
                Ok((Property::ServerKeepAlive(p), l + 1))
            },
            PropertyId::AuthenticationMethod => {
                let (p, l) = AuthenticationMethod::parse(rest)?;
                proof { use_type_invariant(&p); lemma_split_first(bytes@, l as nat); }
                Ok((Property::AuthenticationMethod(p), l + 1))
            },
            PropertyId::AuthenticationData => {
                let (p, l) = AuthenticationData::parse(rest)?;
                proof { use_type_invariant(&p); lemma_split_first(bytes@, l as nat); }
                Ok((Property::AuthenticationData(p), l + 1))
            },
            PropertyId::RequestProblemInformation => {
                let (p, l) = RequestProblemInformation::parse(rest)?;
                proof { use_type_invariant(&p); lemma_split_first(bytes@, l as nat); }
                Ok((Property::RequestProblemInformation(p), l + 1))
            },
            PropertyId::WillDelayInterval => {
                let (p, l) = WillDelayInterval::parse(rest)?;
                proof { use_type_invariant(&p); lemma_split_first(bytes@, l as nat); }
                Ok((Property::WillDelayInterval(p), l + 1))
            },
            PropertyId::RequestResponseInformation => {
                let (p, l) = RequestResponseInformation::parse(rest)?;
                proof { use_type_invariant(&p); lemma_split_first(bytes@, l as nat); }
                Ok((Property::RequestResponseInformation(p), l + 1))
            },
            PropertyId::ResponseInformation => {
                let (p, l) = ResponseInformation::parse(rest)?;
                proof { use_type_invariant(&p); lemma_split_first(bytes@, l as nat); }
                Ok((Property::ResponseInformation(p), l + 1))
            },
            PropertyId::ServerReference => {
                let (p, l) = ServerReference::parse(rest)?;
                proof { use_type_invariant(&p); lemma_split_first(bytes@, l as nat); }
                Ok((Property::ServerReference(p), l + 1))
            },
            PropertyId::ReasonString => {
                let (p, l) = ReasonString::parse(rest)?;
                proof { use_type_invariant(&p); lemma_split_first(bytes@, l as nat); }
                Ok((Property::ReasonString(p), l + 1))
            },
            PropertyId::ReceiveMaximum => {
                let (p, l) = ReceiveMaximum::parse(rest)?;
                proof { use_type_invariant(&p); lemma_split_first(bytes@, l as nat); }
                Ok((Property::ReceiveMaximum(p), l + 1))
            },
            PropertyId::TopicAliasMaximum => {
                let (p, l) = TopicAliasMaximum::parse(rest)?;
                proof { use_type_invariant(&p); lemma_split_first(bytes@, l as nat); }
                Ok((Property::TopicAliasMaximum(p), l + 1))
            },
            PropertyId::TopicAlias => {
                let (p, l) = TopicAlias::parse(rest)?;
                proof { use_type_invariant(&p); lemma_split_first(bytes@, l as nat); }
                Ok((Property::TopicAlias(p), l + 1))
            },
            PropertyId::MaximumQos => {
                let (p, l) = MaximumQos::parse(rest)?;
                proof { use_type_invariant(&p); lemma_split_first(bytes@, l as nat); }
                Ok((Property::MaximumQos(p), l + 1))
            },
            PropertyId::RetainAvailable => {
                let (p, l) = RetainAvailable::parse(rest)?;
                proof { use_type_invariant(&p); lemma_split_first(bytes@, l as nat); }
                Ok((Property::RetainAvailable(p), l + 1))
            },
            PropertyId::UserProperty => {
                let (p, l) = UserProperty::parse(rest)?;
                proof { use_type_invariant(&p); lemma_split_first(bytes@, l as nat); }
                Ok((Property::UserProperty(p), l + 1))
            },
            PropertyId::MaximumPacketSize => {
                let (p, l) = MaximumPacketSize::parse(rest)?;
                proof { use_type_invariant(&p); lemma_split_first(bytes@, l as nat); }
                Ok((Property::MaximumPacketSize(p), l + 1))
            },
            PropertyId::WildcardSubscriptionAvailable => {
                let (p, l) = WildcardSubscriptionAvailable::parse(rest)?;
                proof { use_type_invariant(&p); lemma_split_first(bytes@, l as nat); }
                Ok((Property::WildcardSubscriptionAvailable(p), l + 1))
            },
            PropertyId::SubscriptionIdentifierAvailable => {
                let (p, l) = SubscriptionIdentifierAvailable::parse(rest)?;
                proof { use_type_invariant(&p); lemma_split_first(bytes@, l as nat); }
                Ok((Property::SubscriptionIdentifierAvailable(p), l + 1))
            },
            PropertyId::SharedSubscriptionAvailable => {
                let (p, l) = SharedSubscriptionAvailable::parse(rest)?;
                proof { use_type_invariant(&p); lemma_split_first(bytes@, l as nat); }
                Ok((Property::SharedSubscriptionAvailable(p), l + 1))
            },
        }
    }
}

proof fn lemma_payload_format_indicator_roundtrip(q: PayloadFormatIndicator, rest: Seq<u8>)
    requires
        q.inv(),
    ensures
        property_result(q.spec_bytes() + rest) == Ok::<nat, MqttError>(q.spec_bytes().len()),
        Property::PayloadFormatIndicator(q).parsed_from(q.spec_bytes() + rest, q.spec_bytes().len()),
{
    let b = q.spec_bytes() + rest;
    let t = b.subrange(1, b.len() as int);
    assert(t =~= seq![q.value] + rest);
    assert(b.subrange(0, q.spec_bytes().len() as int) =~= q.spec_bytes());
}

proof fn lemma_message_expiry_interval_roundtrip(q: MessageExpiryInterval, rest: Seq<u8>)
    requires
        q.inv(),
    ensures
        property_result(q.spec_bytes() + rest) == Ok::<nat, MqttError>(q.spec_bytes().len()),
        Property::MessageExpiryInterval(q).parsed_from(q.spec_bytes() + rest, q.spec_bytes().len()),
{
    let b = q.spec_bytes() + rest;
    let t = b.subrange(1, b.len() as int);
    assert(t =~= be32(q.value as nat) + rest);
    lemma_be32_roundtrip(q.value as nat);
    assert(b.subrange(0, q.spec_bytes().len() as int) =~= q.spec_bytes());
}

proof fn lemma_content_type_roundtrip(q: ContentType, rest: Seq<u8>)
    requires
        q.inv(),
    ensures
        property_result(q.spec_bytes() + rest) == Ok::<nat, MqttError>(q.spec_bytes().len()),
        Property::ContentType(q).parsed_from(q.spec_bytes() + rest, q.spec_bytes().len()),
{
    let b = q.spec_bytes() + rest;
    let t = b.subrange(1, b.len() as int);
    assert(t =~= q.value.encoded() + rest);
    lemma_string_roundtrip(q.value, rest);
    assert(b.subrange(0, q.spec_bytes().len() as int) =~= q.spec_bytes());
}

proof fn lemma_response_topic_roundtrip(q: ResponseTopic, rest: Seq<u8>)
    requires
        q.inv(),
    ensures
        property_result(q.spec_bytes() + rest) == Ok::<nat, MqttError>(q.spec_bytes().len()),
        Property::ResponseTopic(q).parsed_from(q.spec_bytes() + rest, q.spec_bytes().len()),
{
    let b = q.spec_bytes() + rest;
    let t = b.subrange(1, b.len() as int);
    assert(t =~= q.value.encoded() + rest);
    lemma_string_roundtrip(q.value, rest);
    assert(b.subrange(0, q.spec_bytes().len() as int) =~= q.spec_bytes());
}

proof fn lemma_correlation_data_roundtrip(q: CorrelationData, rest: Seq<u8>)
    requires
        q.inv(),
    ensures
        property_result(q.spec_bytes() + rest) == Ok::<nat, MqttError>(q.spec_bytes().len()),
        Property::CorrelationData(q).parsed_from(q.spec_bytes() + rest, q.spec_bytes().len()),
{
    let b = q.spec_bytes() + rest;
    let t = b.subrange(1, b.len() as int);
    assert(t =~= q.value.encoded() + rest);
    lemma_binary_roundtrip(q.value, rest);
    assert(b.subrange(0, q.spec_bytes().len() as int) =~= q.spec_bytes());
}

proof fn lemma_subscription_identifier_roundtrip(q: SubscriptionIdentifier, rest: Seq<u8>)
    requires
        q.inv(),
    ensures
        property_result(q.spec_bytes() + rest) == Ok::<nat, MqttError>(q.spec_bytes().len()),
        Property::SubscriptionIdentifier(q).parsed_from(q.spec_bytes() + rest, q.spec_bytes().len()),
{
    let b = q.spec_bytes() + rest;
    let t = b.subrange(1, b.len() as int);
    assert(t =~= vbi_encode(q.value@) + rest);
    lemma_vbi_roundtrip(q.value@, rest);
    assert(b.subrange(0, q.spec_bytes().len() as int) =~= q.spec_bytes());
}

proof fn lemma_session_expiry_interval_roundtrip(q: SessionExpiryInterval, rest: Seq<u8>)
    requires
        q.inv(),
    ensures
        property_result(q.spec_bytes() + rest) == Ok::<nat, MqttError>(q.spec_bytes().len()),
        Property::SessionExpiryInterval(q).parsed_from(q.spec_bytes() + rest, q.spec_bytes().len()),
{
    let b = q.spec_bytes() + rest;
    let t = b.subrange(1, b.len() as int);
    assert(t =~= be32(q.value as nat) + rest);
    lemma_be32_roundtrip(q.value as nat);
    assert(b.subrange(0, q.spec_bytes().len() as int) =~= q.spec_bytes());
}

proof fn lemma_assigned_client_identifier_roundtrip(q: AssignedClientIdentifier, rest: Seq<u8>)
    requires
        q.inv(),
    ensures
        property_result(q.spec_bytes() + rest) == Ok::<nat, MqttError>(q.spec_bytes().len()),
        Property::AssignedClientIdentifier(q).parsed_from(q.spec_bytes() + rest, q.spec_bytes().len()),
{
    let b = q.spec_bytes() + rest;
    let t = b.subrange(1, b.len() as int);
    assert(t =~= q.value.encoded() + rest);
    lemma_string_roundtrip(q.value, rest);
    assert(b.subrange(0, q.spec_bytes().len() as int) =~= q.spec_bytes());
}

proof fn lemma_server_keep_alive_roundtrip(q: ServerKeepAlive, rest: Seq<u8>)
    requires
        q.inv(),
    ensures
        property_result(q.spec_bytes() + rest) == Ok::<nat, MqttError>(q.spec_bytes().len()),
        Property::ServerKeepAlive(q).parsed_from(q.spec_bytes() + rest, q.spec_bytes().len()),
{
    let b = q.spec_bytes() + rest;
    let t = b.subrange(1, b.len() as int);
    assert(t =~= be16(q.value as nat) + rest);
    lemma_be16_roundtrip(q.value as nat);
    assert(b.subrange(0, q.spec_bytes().len() as int) =~= q.spec_bytes());
}

proof fn lemma_authentication_method_roundtrip(q: AuthenticationMethod, rest: Seq<u8>)
    requires
        q.inv(),
    ensures
        property_result(q.spec_bytes() + rest) == Ok::<nat, MqttError>(q.spec_bytes().len()),
        Property::AuthenticationMethod(q).parsed_from(q.spec_bytes() + rest, q.spec_bytes().len()),
{
    let b = q.spec_bytes() + rest;
    let t = b.subrange(1, b.len() as int);
    assert(t =~= q.value.encoded() + rest);
    lemma_string_roundtrip(q.value, rest);
    assert(b.subrange(0, q.spec_bytes().len() as int) =~= q.spec_bytes());
}

proof fn lemma_authentication_data_roundtrip(q: AuthenticationData, rest: Seq<u8>)
    requires
        q.inv(),
    ensures
        property_result(q.spec_bytes() + rest) == Ok::<nat, MqttError>(q.spec_bytes().len()),
        Property::AuthenticationData(q).parsed_from(q.spec_bytes() + rest, q.spec_bytes().len()),
{
    let b = q.spec_bytes() + rest;
    let t = b.subrange(1, b.len() as int);
    assert(t =~= q.value.encoded() + rest);
    lemma_binary_roundtrip(q.value, rest);
    assert(b.subrange(0, q.spec_bytes().len() as int) =~= q.spec_bytes());
}

proof fn lemma_request_problem_information_roundtrip(q: RequestProblemInformation, rest: Seq<u8>)
    requires
        q.inv(),
    ensures
        property_result(q.spec_bytes() + rest) == Ok::<nat, MqttError>(q.spec_bytes().len()),
        Property::RequestProblemInformation(q).parsed_from(q.spec_bytes() + rest, q.spec_bytes().len()),
{
    let b = q.spec_bytes() + rest;
    let t = b.subrange(1, b.len() as int);
    assert(t =~= seq![q.value] + rest);
    assert(b.subrange(0, q.spec_bytes().len() as int) =~= q.spec_bytes());
}

proof fn lemma_will_delay_interval_roundtrip(q: WillDelayInterval, rest: Seq<u8>)
    requires
        q.inv(),
    ensures
        property_result(q.spec_bytes() + rest) == Ok::<nat, MqttError>(q.spec_bytes().len()),
        Property::WillDelayInterval(q).parsed_from(q.spec_bytes() + rest, q.spec_bytes().len()),
{
    let b = q.spec_bytes() + rest;
    let t = b.subrange(1, b.len() as int);
    assert(t =~= be32(q.value as nat) + rest);
    lemma_be32_roundtrip(q.value as nat);
    assert(b.subrange(0, q.spec_bytes().len() as int) =~= q.spec_bytes());
}

proof fn lemma_request_response_information_roundtrip(q: RequestResponseInformation, rest: Seq<u8>)
    requires
        q.inv(),
    ensures
        property_result(q.spec_bytes() + rest) == Ok::<nat, MqttError>(q.spec_bytes().len()),
        Property::RequestResponseInformation(q).parsed_from(q.spec_bytes() + rest, q.spec_bytes().len()),
{
    let b = q.spec_bytes() + rest;
    let t = b.subrange(1, b.len() as int);
    assert(t =~= seq![q.value] + rest);
    assert(b.subrange(0, q.spec_bytes().len() as int) =~= q.spec_bytes());
}

proof fn lemma_response_information_roundtrip(q: ResponseInformation, rest: Seq<u8>)
    requires
        q.inv(),
    ensures
        property_result(q.spec_bytes() + rest) == Ok::<nat, MqttError>(q.spec_bytes().len()),
        Property::ResponseInformation(q).parsed_from(q.spec_bytes() + rest, q.spec_bytes().len()),
{
    let b = q.spec_bytes() + rest;
    let t = b.subrange(1, b.len() as int);
    assert(t =~= q.value.encoded() + rest);
    lemma_string_roundtrip(q.value, rest);
    assert(b.subrange(0, q.spec_bytes().len() as int) =~= q.spec_bytes());
}

proof fn lemma_server_reference_roundtrip(q: ServerReference, rest: Seq<u8>)
    requires
        q.inv(),
    ensures
        property_result(q.spec_bytes() + rest) == Ok::<nat, MqttError>(q.spec_bytes().len()),
        Property::ServerReference(q).parsed_from(q.spec_bytes() + rest, q.spec_bytes().len()),
{
    let b = q.spec_bytes() + rest;
    let t = b.subrange(1, b.len() as int);
    assert(t =~= q.value.encoded() + rest);
    lemma_string_roundtrip(q.value, rest);
    assert(b.subrange(0, q.spec_bytes().len() as int) =~= q.spec_bytes());
}

proof fn lemma_reason_string_roundtrip(q: ReasonString, rest: Seq<u8>)
    requires
        q.inv(),
    ensures
        property_result(q.spec_bytes() + rest) == Ok::<nat, MqttError>(q.spec_bytes().len()),
        Property::ReasonString(q).parsed_from(q.spec_bytes() + rest, q.spec_bytes().len()),
{
    let b = q.spec_bytes() + rest;
    let t = b.subrange(1, b.len() as int);
    assert(t =~= q.value.encoded() + rest);
    lemma_string_roundtrip(q.value, rest);
    assert(b.subrange(0, q.spec_bytes().len() as int) =~= q.spec_bytes());
}

proof fn lemma_receive_maximum_roundtrip(q: ReceiveMaximum, rest: Seq<u8>)
    requires
        q.inv(),
    ensures
        property_result(q.spec_bytes() + rest) == Ok::<nat, MqttError>(q.spec_bytes().len()),
        Property::ReceiveMaximum(q).parsed_from(q.spec_bytes() + rest, q.spec_bytes().len()),
{
    let b = q.spec_bytes() + rest;
    let t = b.subrange(1, b.len() as int);
    assert(t =~= be16(q.value as nat) + rest);
    lemma_be16_roundtrip(q.value as nat);
    assert(b.subrange(0, q.spec_bytes().len() as int) =~= q.spec_bytes());
}

proof fn lemma_topic_alias_maximum_roundtrip(q: TopicAliasMaximum, rest: Seq<u8>)
    requires
        q.inv(),
    ensures
        property_result(q.spec_bytes() + rest) == Ok::<nat, MqttError>(q.spec_bytes().len()),
        Property::TopicAliasMaximum(q).parsed_from(q.spec_bytes() + rest, q.spec_bytes().len()),
{
    let b = q.spec_bytes() + rest;
    let t = b.subrange(1, b.len() as int);
    assert(t =~= be16(q.value as nat) + rest);
    lemma_be16_roundtrip(q.value as nat);
    assert(b.subrange(0, q.spec_bytes().len() as int) =~= q.spec_bytes());
}

proof fn lemma_topic_alias_roundtrip(q: TopicAlias, rest: Seq<u8>)
    requires
        q.inv(),
    ensures
        property_result(q.spec_bytes() + rest) == Ok::<nat, MqttError>(q.spec_bytes().len()),
        Property::TopicAlias(q).parsed_from(q.spec_bytes() + rest, q.spec_bytes().len()),
{
    let b = q.spec_bytes() + rest;
    let t = b.subrange(1, b.len() as int);
    assert(t =~= be16(q.value as nat) + rest);
    lemma_be16_roundtrip(q.value as nat);
    assert(b.subrange(0, q.spec_bytes().len() as int) =~= q.spec_bytes());
}

proof fn lemma_maximum_qos_roundtrip(q: MaximumQos, rest: Seq<u8>)
    requires
        q.inv(),
    ensures
        property_result(q.spec_bytes() + rest) == Ok::<nat, MqttError>(q.spec_bytes().len()),
        Property::MaximumQos(q).parsed_from(q.spec_bytes() + rest, q.spec_bytes().len()),
{
    let b = q.spec_bytes() + rest;
    let t = b.subrange(1, b.len() as int);
    assert(t =~= seq![q.value] + rest);
    assert(b.subrange(0, q.spec_bytes().len() as int) =~= q.spec_bytes());
}

proof fn lemma_retain_available_roundtrip(q: RetainAvailable, rest: Seq<u8>)
    requires
        q.inv(),
    ensures
        property_result(q.spec_bytes() + rest) == Ok::<nat, MqttError>(q.spec_bytes().len()),
        Property::RetainAvailable(q).parsed_from(q.spec_bytes() + rest, q.spec_bytes().len()),
{
    let b = q.spec_bytes() + rest;
    let t = b.subrange(1, b.len() as int);
    assert(t =~= seq![q.value] + rest);
    assert(b.subrange(0, q.spec_bytes().len() as int) =~= q.spec_bytes());
}

proof fn lemma_user_property_roundtrip(q: UserProperty, rest: Seq<u8>)
    requires
        q.inv(),
    ensures
        property_result(q.spec_bytes() + rest) == Ok::<nat, MqttError>(q.spec_bytes().len()),
        Property::UserProperty(q).parsed_from(q.spec_bytes() + rest, q.spec_bytes().len()),
{
    let b = q.spec_bytes() + rest;
    let t = b.subrange(1, b.len() as int);
    assert(t =~= q.key.encoded() + (q.value.encoded() + rest));
    lemma_string_roundtrip(q.key, q.value.encoded() + rest);
    let kl = q.key.encoded().len();
    assert(t.subrange(kl as int, t.len() as int) =~= q.value.encoded() + rest);
    lemma_string_roundtrip(q.value, rest);
    assert(b.subrange(0, q.spec_bytes().len() as int) =~= q.spec_bytes());
}

proof fn lemma_maximum_packet_size_roundtrip(q: MaximumPacketSize, rest: Seq<u8>)
    requires
        q.inv(),
    ensures
        property_result(q.spec_bytes() + rest) == Ok::<nat, MqttError>(q.spec_bytes().len()),
        Property::MaximumPacketSize(q).parsed_from(q.spec_bytes() + rest, q.spec_bytes().len()),
{
    let b = q.spec_bytes() + rest;
    let t = b.subrange(1, b.len() as int);
    assert(t =~= be32(q.value as nat) + rest);
    lemma_be32_roundtrip(q.value as nat);
    assert(b.subrange(0, q.spec_bytes().len() as int) =~= q.spec_bytes());
}

proof fn lemma_wildcard_subscription_available_roundtrip(q: WildcardSubscriptionAvailable, rest: Seq<u8>)
    requires
        q.inv(),
    ensures
        property_result(q.spec_bytes() + rest) == Ok::<nat, MqttError>(q.spec_bytes().len()),
        Property::WildcardSubscriptionAvailable(q).parsed_from(q.spec_bytes() + rest, q.spec_bytes().len()),
{
    let b = q.spec_bytes() + rest;
    let t = b.subrange(1, b.len() as int);
    assert(t =~= seq![q.value] + rest);
    assert(b.subrange(0, q.spec_bytes().len() as int) =~= q.spec_bytes());
}

proof fn lemma_subscription_identifier_available_roundtrip(q: SubscriptionIdentifierAvailable, rest: Seq<u8>)
    requires
        q.inv(),
    ensures
        property_result(q.spec_bytes() + rest) == Ok::<nat, MqttError>(q.spec_bytes().len()),
        Property::SubscriptionIdentifierAvailable(q).parsed_from(q.spec_bytes() + rest, q.spec_bytes().len()),
{
    let b = q.spec_bytes() + rest;
    let t = b.subrange(1, b.len() as int);
    assert(t =~= seq![q.value] + rest);
    assert(b.subrange(0, q.spec_bytes().len() as int) =~= q.spec_bytes());
}

proof fn lemma_shared_subscription_available_roundtrip(q: SharedSubscriptionAvailable, rest: Seq<u8>)
    requires
        q.inv(),
    ensures
        property_result(q.spec_bytes() + rest) == Ok::<nat, MqttError>(q.spec_bytes().len()),
        Property::SharedSubscriptionAvailable(q).parsed_from(q.spec_bytes() + rest, q.spec_bytes().len()),
{
    let b = q.spec_bytes() + rest;
    let t = b.subrange(1, b.len() as int);
    assert(t =~= seq![q.value] + rest);
    assert(b.subrange(0, q.spec_bytes().len() as int) =~= q.spec_bytes());
}

/// Parsing the encoding of a well-formed property gives back that property,
/// whatever bytes follow it.
pub proof fn lemma_property_roundtrip(p: Property, rest: Seq<u8>)
    requires
        p.inv(),
    ensures
        property_result(p.spec_bytes() + rest) == Ok::<nat, MqttError>(p.spec_bytes().len()),
        p.parsed_from(p.spec_bytes() + rest, p.spec_bytes().len()),
{
    match p {
        Property::PayloadFormatIndicator(q) => lemma_payload_format_indicator_roundtrip(q, rest),
        Property::MessageExpiryInterval(q) => lemma_message_expiry_interval_roundtrip(q, rest),
        Property::ContentType(q) => lemma_content_type_roundtrip(q, rest),
        Property::ResponseTopic(q) => lemma_response_topic_roundtrip(q, rest),
        Property::CorrelationData(q) => lemma_correlation_data_roundtrip(q, rest),
        Property::SubscriptionIdentifier(q) => lemma_subscription_identifier_roundtrip(q, rest),
        Property::SessionExpiryInterval(q) => lemma_session_expiry_interval_roundtrip(q, rest),
        Property::AssignedClientIdentifier(q) => lemma_assigned_client_identifier_roundtrip(q, rest),
        Property::ServerKeepAlive(q) => lemma_server_keep_alive_roundtrip(q, rest),
        Property::AuthenticationMethod(q) => lemma_authentication_method_roundtrip(q, rest),
        Property::AuthenticationData(q) => lemma_authentication_data_roundtrip(q, rest),
        Property::RequestProblemInformation(q) => lemma_request_problem_information_roundtrip(q, rest),
        Property::WillDelayInterval(q) => lemma_will_delay_interval_roundtrip(q, rest),
        Property::RequestResponseInformation(q) => lemma_request_response_information_roundtrip(q, rest),
        Property::ResponseInformation(q) => lemma_response_information_roundtrip(q, rest),
        Property::ServerReference(q) => lemma_server_reference_roundtrip(q, rest),
        Property::ReasonString(q) => lemma_reason_string_roundtrip(q, rest),
        Property::ReceiveMaximum(q) => lemma_receive_maximum_roundtrip(q, rest),
        Property::TopicAliasMaximum(q) => lemma_topic_alias_maximum_roundtrip(q, rest),
        Property::TopicAlias(q) => lemma_topic_alias_roundtrip(q, rest),
        Property::MaximumQos(q) => lemma_maximum_qos_roundtrip(q, rest),
        Property::RetainAvailable(q) => lemma_retain_available_roundtrip(q, rest),
        Property::UserProperty(q) => lemma_user_property_roundtrip(q, rest),
        Property::MaximumPacketSize(q) => lemma_maximum_packet_size_roundtrip(q, rest),
        Property::WildcardSubscriptionAvailable(q) => lemma_wildcard_subscription_available_roundtrip(q, rest),
        Property::SubscriptionIdentifierAvailable(q) => lemma_subscription_identifier_available_roundtrip(q, rest),
        Property::SharedSubscriptionAvailable(q) => lemma_shared_subscription_available_roundtrip(q, rest),
    }
}

proof fn lemma_split_first(b: Seq<u8>, l: nat)
    requires
        1 + l <= b.len(),
    ensures
        b.subrange(0, (l + 1) as int) == seq![b[0]] + b.subrange(1, b.len() as int).subrange(0, l as int),
{
    assert(b.subrange(0, (l + 1) as int) =~= seq![b[0]] + b.subrange(1, b.len() as int).subrange(0, l as int));
}

impl Clone for Property {
    fn clone(&self) -> (r: Property)
        ensures
            r.spec_bytes() == self.spec_bytes(),
            r.spec_id() == self.spec_id(),
    {
        self.duplicate()
    }
}

/// Typed access to property values.
pub trait PropertyValueAccess {
    fn as_u8(&self) -> Option<u8>;

    fn as_u16(&self) -> Option<u16>;

    fn as_u32(&self) -> Option<u32>;

    fn as_str(&self) -> Option<&str>;

    fn as_bytes(&self) -> Option<&[u8]>;

    fn as_key_value(&self) -> Option<(&str, &str)>;
}

impl PropertyValueAccess for Property {
    fn as_u8(&self) -> (r: Option<u8>)
        ensures
            match self {
                Property::PayloadFormatIndicator(p) => r == Some(p.spec_val()),
                Property::RequestProblemInformation(p) => r == Some(p.spec_val()),
                Property::RequestResponseInformation(p) => r == Some(p.spec_val()),
                Property::MaximumQos(p) => r == Some(p.spec_val()),
                Property::RetainAvailable(p) => r == Some(p.spec_val()),
                Property::WildcardSubscriptionAvailable(p) => r == Some(p.spec_val()),
                Property::SubscriptionIdentifierAvailable(p) => r == Some(p.spec_val()),
                Property::SharedSubscriptionAvailable(p) => r == Some(p.spec_val()),
                _ => r is None,
            },
    {
        match self {
            Property::PayloadFormatIndicator(p) => Some(p.val()),
            Property::RequestProblemInformation(p) => Some(p.val()),
            Property::RequestResponseInformation(p) => Some(p.val()),
            Property::MaximumQos(p) => Some(p.val()),
            Property::RetainAvailable(p) => Some(p.val()),
            Property::WildcardSubscriptionAvailable(p) => Some(p.val()),
            Property::SubscriptionIdentifierAvailable(p) => Some(p.val()),
            Property::SharedSubscriptionAvailable(p) => Some(p.val()),
            _ => None,
        }
    }

    fn as_u16(&self) -> (r: Option<u16>)
        ensures
            match self {
                Property::ServerKeepAlive(p) => r == Some(p.spec_val()),
                Property::ReceiveMaximum(p) => r == Some(p.spec_val()),
                Property::TopicAliasMaximum(p) => r == Some(p.spec_val()),
                Property::TopicAlias(p) => r == Some(p.spec_val()),
                _ => r is None,
            },
    {
        match self {
            Property::ServerKeepAlive(p) => Some(p.val()),
            Property::ReceiveMaximum(p) => Some(p.val()),
            Property::TopicAliasMaximum(p) => Some(p.val()),
            Property::TopicAlias(p) => Some(p.val()),
            _ => None,
        }
    }

    fn as_u32(&self) -> (r: Option<u32>)
        ensures
            match self {
                Property::MessageExpiryInterval(p) => r == Some(p.spec_val()),
                Property::SessionExpiryInterval(p) => r == Some(p.spec_val()),
                Property::WillDelayInterval(p) => r == Some(p.spec_val()),
                Property::MaximumPacketSize(p) => r == Some(p.spec_val()),
                Property::SubscriptionIdentifier(p) => r matches Some(x) && x as nat == p.spec_val(),
                _ => r is None,
            },
    {
        match self {
            Property::MessageExpiryInterval(p) => Some(p.val()),
            Property::SessionExpiryInterval(p) => Some(p.val()),
            Property::WillDelayInterval(p) => Some(p.val()),
            Property::MaximumPacketSize(p) => Some(p.val()),
            Property::SubscriptionIdentifier(p) => Some(p.val()),
            _ => None,
        }
    }

    fn as_str(&self) -> (r: Option<&str>)
        ensures
            match self {
                Property::ContentType(p) => r matches Some(x) && x@ == p.spec_val(),
                Property::ResponseTopic(p) => r matches Some(x) && x@ == p.spec_val(),
                Property::AssignedClientIdentifier(p) => r matches Some(x) && x@ == p.spec_val(),
                Property::AuthenticationMethod(p) => r matches Some(x) && x@ == p.spec_val(),
                Property::ResponseInformation(p) => r matches Some(x) && x@ == p.spec_val(),
                Property::ServerReference(p) => r matches Some(x) && x@ == p.spec_val(),
                Property::ReasonString(p) => r matches Some(x) && x@ == p.spec_val(),
                _ => r is None,
            },
    {
        match self {
            Property::ContentType(p) => Some(p.val()),
            Property::ResponseTopic(p) => Some(p.val()),
            Property::AssignedClientIdentifier(p) => Some(p.val()),
            Property::AuthenticationMethod(p) => Some(p.val()),
            Property::ResponseInformation(p) => Some(p.val()),
            Property::ServerReference(p) => Some(p.val()),
            Property::ReasonString(p) => Some(p.val()),
            _ => None,
        }
    }

    fn as_bytes(&self) -> (r: Option<&[u8]>)
        ensures
            match self {
                Property::CorrelationData(p) => r matches Some(x) && x@ == p.spec_val(),
                Property::AuthenticationData(p) => r matches Some(x) && x@ == p.spec_val(),
                _ => r is None,
            },
    {
        match self {
            Property::CorrelationData(p) => Some(p.val()),
            Property::AuthenticationData(p) => Some(p.val()),
            _ => None,
        }
    }

    fn as_key_value(&self) -> (r: Option<(&str, &str)>)
        ensures
            match self {
                Property::UserProperty(p) => r matches Some((k, v)) && k@ == p.spec_key() && v@ == p.spec_val(),
                _ => r is None,
            },
    {
        match self {
            Property::UserProperty(p) => Some((p.key(), p.val())),
            _ => None,
        }
    }
}

/// A list of properties.
pub type Properties = Vec<Property>;

/// Concatenation of the encodings of `ps`.
pub open spec fn props_bytes(ps: Seq<Property>) -> Seq<u8>
    decreases ps.len(),
{
    if ps.len() == 0 {
        Seq::<u8>::empty()
    } else {
        ps[0].spec_bytes() + props_bytes(ps.drop_first())
    }
}

/// Every property of `ps` is well formed.
pub open spec fn props_inv(ps: Seq<Property>) -> bool {
    forall|i: int| 0 <= i < ps.len() ==> (#[trigger] ps[i]).inv()
}

/// `ps` was parsed, one property after the other, from the first `k` bytes of `r`.
pub open spec fn props_parsed_upto(ps: Seq<Property>, r: Seq<u8>, k: nat) -> bool
    decreases ps.len(),
{
    if ps.len() == 0 {
        k == 0
    } else {
        match property_result(r) {
            Ok(n) => 1 <= n <= k && n <= r.len() && ps[0].parsed_from(r, n) && props_parsed_upto(
                ps.drop_first(),
                r.subrange(n as int, r.len() as int),
                (k - n) as nat,
            ),
            Err(_) => false,
        }
    }
}

/// The first error met when parsing `r` as a sequence of properties, if any.
pub open spec fn props_region_error(r: Seq<u8>) -> Option<MqttError>
    decreases r.len(),
{
    if r.len() == 0 {
        None
    } else {
        match property_result(r) {
            Err(e) => Some(e),
            Ok(n) => if 1 <= n <= r.len() {
                props_region_error(r.subrange(n as int, r.len() as int))
            } else {
                None
            },
        }
    }
}

/// Outcome of parsing a property list (its Variable Byte Integer length, then
/// the properties) from the front of `b`: the number of bytes taken, or the error.
pub open spec fn props_result(b: Seq<u8>) -> Result<nat, MqttError> {
    if b.len() == 0 {
        Err(MqttError::MalformedPacket)
    } else {
        match vbi_decode_len(b) {
            None => Err(MqttError::MalformedPacket),
            Some(c) => {
                let l = vbi_value(b, c);
                if l == 0 {
                    Ok(c)
                } else if c + l > b.len() {
                    Err(MqttError::MalformedPacket)
                } else {
                    match props_region_error(b.subrange(c as int, (c + l) as int)) {
                        Some(e) => Err(e),
                        None => Ok(c + l),
                    }
                }
            },
        }
    }
}

/// The properties region of a property list at the front of `b` (valid when
/// `props_result(b)` is `Ok`).
pub open spec fn props_region(b: Seq<u8>) -> Seq<u8> {
    let c = vbi_decode_len(b).unwrap();
    b.subrange(c as int, (c + vbi_value(b, c)) as int)
}

proof fn lemma_skip_skip(r: Seq<u8>, a: nat, b: nat)
    requires
        a + b <= r.len(),
    ensures
        r.subrange(a as int, r.len() as int).subrange(b as int, (r.len() - a) as int) == r.subrange(
            (a + b) as int,
            r.len() as int,
        ),
{
    assert(r.subrange(a as int, r.len() as int).subrange(b as int, (r.len() - a) as int) =~= r.subrange(
        (a + b) as int,
        r.len() as int,
    ));
}

proof fn lemma_props_parsed_extend(ps: Seq<Property>, r: Seq<u8>, pos: nat, p: Property, n: nat)
    requires
        props_parsed_upto(ps, r, pos),
        pos + n <= r.len(),
        1 <= n,
        property_result(r.subrange(pos as int, r.len() as int)) == Ok::<nat, MqttError>(n),
        p.parsed_from(r.subrange(pos as int, r.len() as int), n),
    ensures
        props_parsed_upto(ps.push(p), r, pos + n),
    decreases ps.len(),
{
    reveal_with_fuel(props_parsed_upto, 2);
    if ps.len() == 0 {
        assert(r.subrange(0, r.len() as int) =~= r);
        assert(ps.push(p).drop_first() =~= Seq::<Property>::empty());
        assert(ps.push(p)[0] == p);
    } else {
        let n0 = property_result(r)->Ok_0;
        let r1 = r.subrange(n0 as int, r.len() as int);
        lemma_skip_skip(r, n0, (pos - n0) as nat);
        lemma_props_parsed_extend(ps.drop_first(), r1, (pos - n0) as nat, p, n);
        assert(ps.push(p).drop_first() =~= ps.drop_first().push(p));
        assert(ps.push(p)[0] == ps[0]);
        assert((pos + n - n0) as nat == ((pos - n0) as nat + n) as nat);
    }
}

proof fn lemma_props_parsed_error(ps: Seq<Property>, r: Seq<u8>, pos: nat)
    requires
        props_parsed_upto(ps, r, pos),
        pos <= r.len(),
    ensures
        props_region_error(r) == props_region_error(r.subrange(pos as int, r.len() as int)),
    decreases ps.len(),
{
    if ps.len() == 0 {
        assert(r.subrange(0, r.len() as int) =~= r);
    } else {
        let n0 = property_result(r)->Ok_0;
        let r1 = r.subrange(n0 as int, r.len() as int);
        lemma_skip_skip(r, n0, (pos - n0) as nat);
        lemma_props_parsed_error(ps.drop_first(), r1, (pos - n0) as nat);
    }
}

proof fn lemma_vbi_reencoded_size(b: Seq<u8>, n: nat)
    requires
        vbi_decode_len(b) == Some(n),
    ensures
        vbi_size(vbi_value(b, n)) <= n,
        vbi_value(b, n) <= VBI_MAX,
{
}

proof fn lemma_property_reencoded_size(p: Property, b: Seq<u8>, n: nat)
    requires
        property_result(b) == Ok::<nat, MqttError>(n),
        p.parsed_from(b, n),
    ensures
        p.spec_bytes().len() <= n,
{
    match p {
        Property::SubscriptionIdentifier(s) => {
            let rest = b.subrange(1, b.len() as int);
            let c = vbi_decode_len(rest).unwrap();
            lemma_vbi_reencoded_size(rest, c);
            lemma_vbi_roundtrip(s.spec_val(), Seq::<u8>::empty());
        },
        _ => {},
    }
}

proof fn lemma_props_reencoded_size(ps: Seq<Property>, r: Seq<u8>, k: nat)
    requires
        props_parsed_upto(ps, r, k),
    ensures
        props_bytes(ps).len() <= k,
    decreases ps.len(),
{
    if ps.len() > 0 {
        let n0 = property_result(r)->Ok_0;
        lemma_property_reencoded_size(ps[0], r, n0);
        lemma_props_reencoded_size(ps.drop_first(), r.subrange(n0 as int, r.len() as int), (k - n0) as nat);
    }
}

pub proof fn lemma_props_bytes_push(ps: Seq<Property>, p: Property)
    ensures
        props_bytes(ps.push(p)) == props_bytes(ps) + p.spec_bytes(),
    decreases ps.len(),
{
    reveal_with_fuel(props_bytes, 2);
    if ps.len() == 0 {
        assert(ps.push(p).drop_first() =~= Seq::<Property>::empty());
        assert(props_bytes(ps.push(p)) =~= props_bytes(ps) + p.spec_bytes());
    } else {
        lemma_props_bytes_push(ps.drop_first(), p);
        assert(ps.push(p).drop_first() =~= ps.drop_first().push(p));
        assert(ps.push(p)[0] == ps[0]);
        assert(props_bytes(ps.push(p)) == ps[0].spec_bytes() + props_bytes(ps.drop_first().push(p)));
        assert(props_bytes(ps.push(p)) =~= props_bytes(ps) + p.spec_bytes());
    }
}

/// Re-encoding a parsed property list, its length field included, takes no
/// more bytes than the list it was parsed from.
pub proof fn lemma_props_list_reencoded_size(ps: Properties, data: Seq<u8>)
    requires
        props_result(data) is Ok,
        ps.parsed_from_list(data),
    ensures
        vbi_size(props_bytes(ps@).len()) + props_bytes(ps@).len() <= props_result(data)->Ok_0,
{
    let c = vbi_decode_len(data).unwrap();
    lemma_vbi_reencoded_size(data, c);
}

/// Serialization of a property list.
pub trait PropertiesToContinuousBuffer {
    spec fn spec_props_bytes(&self) -> Seq<u8>;

    fn to_continuous_buffer(&self) -> (r: Vec<u8>)
        ensures
            r@ == self.spec_props_bytes(),
    ;
}

/// Encoded size of a property list (without its length field).
pub trait PropertiesSize {
    spec fn spec_props_size(&self) -> nat;

    fn size(&self) -> (r: usize)
        requires
            self.spec_props_size() <= usize::MAX,
        ensures
            r == self.spec_props_size(),
    ;
}

/// Parsing of a property list.
pub trait PropertiesParse: Sized {
    spec fn parsed_from_list(self, data: Seq<u8>) -> bool;

    fn parse(data: &[u8]) -> (r: Result<(Self, usize), MqttError>)
        ensures
            r is Ok <==> props_result(data@) is Ok,
            r matches Ok((ps, n)) ==> props_result(data@) == Ok::<nat, MqttError>(n as nat)
                && ps.parsed_from_list(data@),
            r matches Err(e) ==> props_result(data@) == Err::<nat, MqttError>(e),
    ;
}

impl PropertiesToContinuousBuffer for Properties {
    open spec fn spec_props_bytes(&self) -> Seq<u8> {
        props_bytes(self@)
    }

    fn to_continuous_buffer(&self) -> (r: Vec<u8>) {
        let mut result: Vec<u8> = Vec::new();
        let mut i: usize = 0;
        while i < self.len()
            invariant
                i <= self@.len(),
                result@ == props_bytes(self@.take(i as int)),
            decreases self@.len() - i,
        {
            let b = self[i].to_continuous_buffer();
            append_bytes(&mut result, b.as_slice());
            proof {
                lemma_props_bytes_push(self@.take(i as int), self@[i as int]);
                assert(self@.take(i as int).push(self@[i as int]) =~= self@.take(i + 1));
            }
            i = i + 1;
        }
        assert(self@.take(i as int) =~= self@);
        result
    }
}

impl PropertiesSize for Properties {
    open spec fn spec_props_size(&self) -> nat {
        props_bytes(self@).len()
    }

    fn size(&self) -> (r: usize) {
        let mut total: usize = 0;
        let mut i: usize = 0;
        while i < self.len()
            invariant
                i <= self@.len(),
                total == props_bytes(self@.take(i as int)).len(),
                props_bytes(self@).len() <= usize::MAX,
            decreases self@.len() - i,
        {
            proof {
                lemma_props_bytes_push(self@.take(i as int), self@[i as int]);
                assert(self@.take(i as int).push(self@[i as int]) =~= self@.take(i + 1));
                lemma_props_bytes_prefix_len(self@, (i + 1) as nat);
            }
            total = total + self[i].size();
            i = i + 1;
        }
        assert(self@.take(i as int) =~= self@);
        total
    }
}

proof fn lemma_props_bytes_prefix_len(ps: Seq<Property>, i: nat)
    requires
        i <= ps.len(),
    ensures
        props_bytes(ps.take(i as int)).len() <= props_bytes(ps).len(),
    decreases ps.len() - i,
{
    if i < ps.len() {
        lemma_props_bytes_prefix_len(ps, (i + 1) as nat);
        lemma_props_bytes_push(ps.take(i as int), ps[i as int]);
        assert(ps.take(i as int).push(ps[i as int]) =~= ps.take((i + 1) as int));
    } else {
        assert(ps.take(i as int) =~= ps);
    }
}

impl PropertiesParse for Properties {
    open spec fn parsed_from_list(self, data: Seq<u8>) -> bool {
        &&& props_inv(self@)
        &&& props_parsed_upto(self@, props_region(data), props_region(data).len())
        &&& props_bytes(self@).len() <= props_region(data).len()
    }

    fn parse(data: &[u8]) -> (r: Result<(Properties, usize), MqttError>) {
        if data.len() == 0 {
            return Err(MqttError::MalformedPacket);
        }
        let (prop_len, consumed) = match VariableByteInteger::decode_stream(data) {
            DecodeResult::Decoded(vbi, cons) => (vbi, cons),
            _ => return Err(MqttError::MalformedPacket),
        };
        let mut props: Properties = Vec::new();
        let l = prop_len.to_u32() as usize;
        if l == 0 {
            proof {
                assert(props_region(data@) =~= Seq::<u8>::empty());
            }
            return Ok((props, consumed));
        }
        if l > data.len() - consumed {
            return Err(MqttError::MalformedPacket);
        }
        let props_end = consumed + l;
        let region = vstd::slice::slice_subrange(data, consumed, props_end);
        let mut pos: usize = 0;
        assert(region@.subrange(0, l as int) =~= region@);
        while pos < l
            invariant
                region@.len() == l,
                region@ == data@.subrange(consumed as int, (consumed + l) as int),
                vbi_decode_len(data@) == Some(consumed as nat),
                vbi_value(data@, consumed as nat) == l,
                l > 0,
                consumed + l <= data@.len(),
                props_end == consumed + l,
                pos <= l,
                props_parsed_upto(props@, region@, pos as nat),
                props_inv(props@),
                props_region_error(region@) == props_region_error(region@.subrange(pos as int, l as int)),
            decreases l - pos,
        {
            let (p, c) = match Property::parse(tail(region, pos)) {
                Ok(x) => x,
                Err(e) => {
                    return Err(e);
                },
            };
            proof {
                lemma_props_parsed_extend(props@, region@, pos as nat, p, c as nat);
                let rest = region@.subrange(pos as int, l as int);
                lemma_skip_skip(region@, pos as nat, c as nat);
                assert(props_region_error(rest) == props_region_error(rest.subrange(c as int, rest.len() as int)));
            }
            props.push(p);
            pos = pos + c;
        }
        proof {
            lemma_props_reencoded_size(props@, region@, l as nat);
            assert(region@.subrange(l as int, l as int) =~= Seq::<u8>::empty());
        }
        Ok((props, props_end))
    }
}


/// Encoded size in bytes of a value that a property carries.
pub trait PropertySize {
    spec fn spec_value_size(&self) -> nat;

    fn size(&self) -> (r: usize)
        requires
            self.spec_value_size() <= usize::MAX,
        ensures
            r == self.spec_value_size(),
    ;
}

impl PropertySize for u8 {
    open spec fn spec_value_size(&self) -> nat {
        1
    }

    fn size(&self) -> (r: usize) {
        1
    }
}

impl PropertySize for u16 {
    open spec fn spec_value_size(&self) -> nat {
        2
    }

    fn size(&self) -> (r: usize) {
        2
    }
}

impl PropertySize for u32 {
    open spec fn spec_value_size(&self) -> nat {
        4
    }

    fn size(&self) -> (r: usize) {
        4
    }
}

/// A string: its UTF-8 bytes after a two-byte length.
impl PropertySize for String {
    open spec fn spec_value_size(&self) -> nat {
        2 + vstd::utf8::encode_utf8(self@).len()
    }

    fn size(&self) -> (r: usize) {
        2 + self.as_str().len()
    }
}

/// Binary data: its bytes after a two-byte length.
impl PropertySize for Vec<u8> {
    open spec fn spec_value_size(&self) -> nat {
        2 + self@.len()
    }

    fn size(&self) -> (r: usize) {
        2 + self.len()
    }
}

/// A Variable Byte Integer: one to four bytes.
impl PropertySize for VariableByteInteger {
    open spec fn spec_value_size(&self) -> nat {
        vbi_size(self@)
    }

    fn size(&self) -> (r: usize) {
        let v = self.to_u32();
        if v <= 0x7F {
            1
        } else if v <= 0x3FFF {
            2
        } else if v <= 0x1F_FFFF {
            3
        } else {
            4
        }
    }
}

/// The encoding of a property list as buffers to write in order.
pub trait PropertiesToBuffers {
    spec fn spec_buffers(&self) -> Seq<Seq<u8>>;

    fn to_buffers(&self) -> (r: Vec<Vec<u8>>)
        ensures
            r@.map_values(|b: Vec<u8>| b@) == self.spec_buffers(),
    ;
}

/// One buffer per property, holding its encoding.
impl PropertiesToBuffers for Properties {
    open spec fn spec_buffers(&self) -> Seq<Seq<u8>> {
        self@.map_values(|p: Property| p.spec_bytes())
    }

    fn to_buffers(&self) -> (r: Vec<Vec<u8>>) {
        let mut out: Vec<Vec<u8>> = Vec::new();
        let mut i: usize = 0;
        while i < self.len()
            invariant
                i <= self@.len(),
                out@.map_values(|b: Vec<u8>| b@) == self@.take(i as int).map_values(|p: Property| p.spec_bytes()),
            decreases self@.len() - i,
        {
            let b = self[i].to_continuous_buffer();
            let ghost before = out@;
            out.push(b);
            proof {
                let lhs = out@.map_values(|b: Vec<u8>| b@);
                let rhs = self@.take(i + 1).map_values(|p: Property| p.spec_bytes());
                let prev = self@.take(i as int).map_values(|p: Property| p.spec_bytes());
                assert(prev.len() == i);
                assert(before.map_values(|b: Vec<u8>| b@).len() == before.len());
                assert(before.len() == i);
                assert(out@ == before.push(b));
                assert forall|k: int| 0 <= k < lhs.len() implies lhs[k] == rhs[k] by {
                    if k < i {
                        assert(out@[k] == before[k]);
                        assert(before.map_values(|b: Vec<u8>| b@)[k] == prev[k]);
                    }
                }
                assert(lhs =~= rhs);
            }
            i = i + 1;
        }
        proof {
            assert(self@.take(i as int) =~= self@);
        }
        out
    }
}


/// The encodings of well-formed properties, one after the other, parse back
/// as those properties, without error.
pub proof fn lemma_props_region_roundtrip(ps: Seq<Property>)
    requires
        props_inv(ps),
    ensures
        props_region_error(props_bytes(ps)) is None,
        props_parsed_upto(ps, props_bytes(ps), props_bytes(ps).len()),
    decreases ps.len(),
{
    if ps.len() > 0 {
        let tail_ps = ps.drop_first();
        assert forall|i: int| 0 <= i < tail_ps.len() implies (#[trigger] tail_ps[i]).inv() by {
            assert(tail_ps[i] == ps[i + 1]);
        }
        lemma_props_region_roundtrip(tail_ps);
        assert(ps[0].inv());
        lemma_property_roundtrip(ps[0], props_bytes(tail_ps));
        let b = props_bytes(ps);
        let n = ps[0].spec_bytes().len();
        assert(b == ps[0].spec_bytes() + props_bytes(tail_ps));
        assert(b.subrange(n as int, b.len() as int) =~= props_bytes(tail_ps));
        assert(b.subrange(0, b.len() as int) =~= b);
    }
}

/// A property list encoded (its length, then the properties) and followed by
/// any bytes parses back: the list is taken whole and its properties are
/// those encoded.
pub proof fn lemma_props_list_roundtrip(ps: Seq<Property>, rest: Seq<u8>)
    requires
        props_inv(ps),
        props_bytes(ps).len() <= VBI_MAX,
    ensures
        props_result(vbi_encode(props_bytes(ps).len()) + props_bytes(ps) + rest) == Ok::<nat, MqttError>(
            vbi_size(props_bytes(ps).len()) + props_bytes(ps).len(),
        ),
        props_region(vbi_encode(props_bytes(ps).len()) + props_bytes(ps) + rest) == props_bytes(ps),
        props_parsed_upto(ps, props_bytes(ps), props_bytes(ps).len()),
{
    let l = props_bytes(ps).len();
    let b = vbi_encode(l) + props_bytes(ps) + rest;
    lemma_vbi_roundtrip(l, props_bytes(ps) + rest);
    vstd::seq_lib::lemma_concat_associative(vbi_encode(l), props_bytes(ps), rest);
    let c = vbi_size(l);
    assert(b.subrange(c as int, (c + l) as int) =~= props_bytes(ps));
    lemma_props_region_roundtrip(ps);
    if l == 0 {
        assert(props_bytes(ps) =~= Seq::<u8>::empty());
    }
}

} // verus!
