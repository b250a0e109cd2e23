use vstd::prelude::*;
use vstd::string::StringSliceAdditionalSpecFns;
use crate::packet::bytes::{append_bytes, tail};
use crate::packet::error::MqttError;
use crate::packet::mqtt_binary::length_prefixed;
use crate::packet::mqtt_string::{lemma_string_roundtrip, MqttString};
use crate::packet::property::string_field_result;
use crate::packet::qos::{Qos, RetainHandling};

verus! {

/// A subscription options byte is acceptable: reserved bits 6-7 clear, QoS
/// (bits 0-1) at most 2, Retain Handling (bits 4-5) at most 2.
pub open spec fn valid_sub_opts(v: u8) -> bool {
    v < 64 && v % 4 <= 2 && (v / 16) % 4 <= 2
}

/// Subscription options of a SUBSCRIBE entry.
#[derive(Debug, Clone, Copy, PartialEq, Eq)]
pub struct SubOpts {
    sub_opts_buf: [u8; 1],
}

impl SubOpts {
    #[verifier::type_invariant]
    pub closed spec fn inv(self) -> bool {
        valid_sub_opts(self.sub_opts_buf@[0])
    }

    /// The options byte.
    pub closed spec fn spec_byte(self) -> u8 {
        self.sub_opts_buf@[0]
    }

    pub open spec fn spec_qos(self) -> Qos {
        Qos::spec_from_u8(self.spec_byte() % 4)
    }

    pub open spec fn spec_nl(self) -> bool {
        (self.spec_byte() / 4) % 2 == 1
    }

    pub open spec fn spec_rap(self) -> bool {
        (self.spec_byte() / 8) % 2 == 1
    }

    pub open spec fn spec_rh(self) -> RetainHandling {
        RetainHandling::spec_from_u8((self.spec_byte() / 16) % 4)
    }

    /// The options byte is determined by the four options.
    pub open spec fn spec_compose(qos: Qos, nl: bool, rap: bool, rh: RetainHandling) -> u8 {
        (qos.spec_to_u8() + (if nl { 4u8 } else { 0u8 }) + (if rap { 8u8 } else { 0u8 }) + rh.spec_to_u8()
            * 16) as u8
    }

    /// All options cleared (QoS 0, no flags, send retained).
    pub fn new() -> (r: SubOpts)
        ensures
            r.spec_byte() == 0,
    {
        SubOpts { sub_opts_buf: [0] }
    }

    /// Options from their encoded byte; `MalformedPacket` when a reserved bit
    /// is set or the QoS or Retain Handling value is 3.
    pub fn from_u8(value: u8) -> (r: Result<SubOpts, MqttError>)
        ensures
            valid_sub_opts(value) <==> r is Ok,
            r matches Ok(o) ==> o.spec_byte() == value,
            r matches Err(e) ==> e == MqttError::MalformedPacket,
    {
        if value >= 64 {
            return Err(MqttError::MalformedPacket);
        }
        if value % 4 > 2 {
            return Err(MqttError::MalformedPacket);
        }
        if (value / 16) % 4 > 2 {
            return Err(MqttError::MalformedPacket);
        }
        Ok(SubOpts { sub_opts_buf: [value] })
    }

    pub fn qos(&self) -> (r: Qos)
        ensures
            r == self.spec_qos(),
    {
        let v = self.sub_opts_buf[0] % 4;
        if v == 0 {
            Qos::AtMostOnce
        } else if v == 1 {
            Qos::AtLeastOnce
        } else {
            Qos::ExactlyOnce
        }
    }

    /// The options with the QoS replaced and the other options kept.
    pub fn set_qos(self, qos: Qos) -> (r: SubOpts)
        ensures
            r.spec_qos() == qos,
            r.spec_nl() == self.spec_nl(),
            r.spec_rap() == self.spec_rap(),
            r.spec_rh() == self.spec_rh(),
            r.spec_byte() == (self.spec_byte() - self.spec_byte() % 4 + qos.spec_to_u8()) as u8,
    {
        proof { use_type_invariant(&self); }
        let v = self.sub_opts_buf[0];
        let nv = v - v % 4 + qos.to_u8();
        SubOpts { sub_opts_buf: [nv] }
    }

    pub fn nl(&self) -> (r: bool)
        ensures
            r == self.spec_nl(),
    {
        (self.sub_opts_buf[0] / 4) % 2 == 1
    }

    /// The options with No Local replaced and the other options kept.
    pub fn set_nl(self, nl: bool) -> (r: SubOpts)
        ensures
            r.spec_nl() == nl,
            r.spec_qos() == self.spec_qos(),
            r.spec_rap() == self.spec_rap(),
            r.spec_rh() == self.spec_rh(),
    {
        proof { use_type_invariant(&self); }
        let v = self.sub_opts_buf[0];
        let cleared = v - ((v / 4) % 2) * 4;
        let nv = if nl { cleared + 4 } else { cleared };
        SubOpts { sub_opts_buf: [nv] }
    }

    pub fn rap(&self) -> (r: bool)
        ensures
            r == self.spec_rap(),
    {
        (self.sub_opts_buf[0] / 8) % 2 == 1
    }

    /// The options with Retain As Published replaced and the other options kept.
    pub fn set_rap(self, rap: bool) -> (r: SubOpts)
        ensures
            r.spec_rap() == rap,
            r.spec_qos() == self.spec_qos(),
            r.spec_nl() == self.spec_nl(),
            r.spec_rh() == self.spec_rh(),
    {
        proof { use_type_invariant(&self); }
        let v = self.sub_opts_buf[0];
        let cleared = v - ((v / 8) % 2) * 8;
        let nv = if rap { cleared + 8 } else { cleared };
        SubOpts { sub_opts_buf: [nv] }
    }

    pub fn rh(&self) -> (r: RetainHandling)
        ensures
            r == self.spec_rh(),
    {
        let v = (self.sub_opts_buf[0] / 16) % 4;
        if v == 0 {
            RetainHandling::SendRetained
        } else if v == 1 {
            RetainHandling::SendRetainedIfNotExists
        } else {
            RetainHandling::DoNotSendRetained
        }
    }

    /// The options with Retain Handling replaced and the other options kept.
    pub fn set_rh(self, rh: RetainHandling) -> (r: SubOpts)
        ensures
            r.spec_rh() == rh,
            r.spec_qos() == self.spec_qos(),
            r.spec_nl() == self.spec_nl(),
            r.spec_rap() == self.spec_rap(),
            r.spec_byte() == (self.spec_byte() % 16 + rh.spec_to_u8() * 16) as u8,
            r.spec_byte() & 0xcfu8 == self.spec_byte() & 0xcfu8,
            valid_sub_opts(r.spec_byte()),
    {
        proof { use_type_invariant(&self); }
        let v = self.sub_opts_buf[0];
        let nv = v - ((v / 16) % 4) * 16 + rh.to_u8() * 16;
        proof {
            let x = rh.spec_to_u8();
            assert(v < 64 && x <= 2 && nv == v - ((v / 16) % 4) * 16 + x * 16 ==> nv & 0xcfu8 == v & 0xcfu8) by (bit_vector);
        }
        SubOpts { sub_opts_buf: [nv] }
    }

    /// Two options values with the same byte are equal.
    pub proof fn lemma_byte_determines(a: SubOpts, b: SubOpts)
        requires
            a.spec_byte() == b.spec_byte(),
        ensures
            a == b,
    {
        assert(a.sub_opts_buf@ =~= b.sub_opts_buf@);
        assert(a.sub_opts_buf == b.sub_opts_buf);
    }

    /// The encoded options byte.
    pub fn to_buffer(&self) -> (r: &[u8; 1])
        ensures
            r@ == seq![self.spec_byte()],
            valid_sub_opts(self.spec_byte()),
    {
        proof { use_type_invariant(self); }
        assert(self.sub_opts_buf@ =~= seq![self.spec_byte()]);
        &self.sub_opts_buf
    }
}

impl Default for SubOpts {
    fn default() -> (r: SubOpts)
        ensures
            r.spec_byte() == 0,
    {
        SubOpts::new()
    }
}

/// Outcome of parsing a subscription entry from the front of `b`.
pub open spec fn sub_entry_result(b: Seq<u8>) -> Result<nat, MqttError> {
    match string_field_result(b) {
        Err(e) => Err(e),
        Ok(n) => if n >= b.len() {
            Err(MqttError::MalformedPacket)
        } else if !valid_sub_opts(b[n as int]) {
            Err(MqttError::MalformedPacket)
        } else {
            Ok(n + 1)
        },
    }
}

/// A topic filter with its subscription options.
#[derive(Debug, PartialEq, Eq)]
pub struct SubEntry {
    topic_filter: MqttString,
    sub_opts: SubOpts,
}

impl SubEntry {
    #[verifier::type_invariant]
    pub closed spec fn inv(self) -> bool {
        self.topic_filter.wf()
    }

    pub closed spec fn spec_topic_filter(self) -> Seq<char> {
        self.topic_filter@
    }

    pub closed spec fn spec_sub_opts(self) -> SubOpts {
        self.sub_opts
    }

    /// Encoding: length-prefixed topic filter followed by the options byte.
    pub closed spec fn spec_bytes(self) -> Seq<u8> {
        self.topic_filter.encoded() + seq![self.sub_opts.spec_byte()]
    }

    /// An entry for `topic_filter`; `MalformedPacket` when it is longer than
    /// 65,535 bytes.
    pub fn new(topic_filter: &str, sub_opts: SubOpts) -> (r: Result<SubEntry, MqttError>)
        ensures
            topic_filter.spec_bytes().len() <= 65535 <==> r is Ok,
            r matches Ok(e) ==> e.spec_topic_filter() == topic_filter@ && e.spec_sub_opts() == sub_opts,
            r matches Err(e) ==> e == MqttError::MalformedPacket,
    {
        let topic_filter = MqttString::new(topic_filter)?;
        Ok(SubEntry { topic_filter, sub_opts })
    }

    pub fn topic_filter(&self) -> (r: &str)
        ensures
            r@ == self.spec_topic_filter(),
    {
        proof { use_type_invariant(self); }
        self.topic_filter.as_str()
    }

    pub fn sub_opts(&self) -> (r: &SubOpts)
        ensures
            *r == self.spec_sub_opts(),
    {
        &self.sub_opts
    }

    /// Replaces the topic filter; on `MalformedPacket` (longer than 65,535
    /// bytes) the entry is unchanged.
    pub fn set_topic_filter(&mut self, topic_filter: String) -> (r: Result<(), MqttError>)
        ensures
            r is Ok <==> vstd::utf8::encode_utf8(topic_filter@).len() <= 65535,
            r is Ok ==> final(self).spec_topic_filter() == topic_filter@ && final(self).spec_sub_opts()
                == old(self).spec_sub_opts(),
            r is Err ==> *final(self) == *old(self),
            r matches Err(e) ==> e == MqttError::MalformedPacket,
    {
        let m = MqttString::new(topic_filter.as_str())?;
        self.topic_filter = m;
        Ok(())
    }

    pub fn set_sub_opts(&mut self, sub_opts: SubOpts)
        ensures
            final(self).spec_sub_opts() == sub_opts,
            final(self).spec_topic_filter() == old(self).spec_topic_filter(),
    {
        proof { use_type_invariant(&*self); }
        self.sub_opts = sub_opts;
    }

    /// The encoded entry.
    pub fn to_continuous_buffer(&self) -> (r: Vec<u8>)
        ensures
            r@ == self.spec_bytes(),
    {
        proof { use_type_invariant(self); }
        let mut buf = self.topic_filter.to_continuous_buffer();
        proof { self.topic_filter.lemma_encoded(); }
        append_bytes(&mut buf, self.sub_opts.to_buffer());
        buf
    }

    /// Encoded size of the entry.
    pub fn size(&self) -> (r: usize)
        ensures
            r == self.spec_bytes().len(),
    {
        proof { use_type_invariant(self); }
        self.topic_filter.size() + 1
    }

    /// Parses an entry from the front of `data`.
    pub fn parse(data: &[u8]) -> (r: Result<(SubEntry, usize), MqttError>)
        ensures
            r is Ok <==> sub_entry_result(data@) is Ok,
            r matches Ok((e, n)) ==> sub_entry_result(data@) == Ok::<nat, MqttError>(n as nat)
                && e.spec_bytes() == data@.subrange(0, n as int),
            r matches Err(e) ==> sub_entry_result(data@) == Err::<nat, MqttError>(e),
    {
        let (topic_filter, consumed) = MqttString::decode(data)?;
        if consumed >= data.len() {
            return Err(MqttError::MalformedPacket);
        }
        let sub_opts = SubOpts::from_u8(data[consumed])?;
        proof {
            crate::packet::mqtt_binary::lemma_length_prefixed_of_prefix(data@);
            topic_filter.lemma_encoded();
            assert(data@.subrange(0, consumed + 1) =~= data@.subrange(0, consumed as int) + seq![
                data@[consumed as int],
            ]);
        }
        Ok((SubEntry { topic_filter, sub_opts }, consumed + 1))
    }

    /// A copy with the same contents.
    pub fn duplicate(&self) -> (r: SubEntry)
        ensures
            r.spec_bytes() == self.spec_bytes(),
            r.spec_topic_filter() == self.spec_topic_filter(),
            r.spec_sub_opts() == self.spec_sub_opts(),
    {
        proof { use_type_invariant(self); }
        SubEntry { topic_filter: self.topic_filter.duplicate(), sub_opts: self.sub_opts }
    }
}

impl Default for SubEntry {
    fn default() -> (r: SubEntry)
        ensures
            r.spec_topic_filter() == Seq::<char>::empty(),
            r.spec_sub_opts().spec_byte() == 0,
    {
        SubEntry { topic_filter: MqttString::default(), sub_opts: SubOpts::default() }
    }
}

impl Clone for SubEntry {
    fn clone(&self) -> (r: SubEntry)
        ensures
            r.spec_bytes() == self.spec_bytes(),
    {
        self.duplicate()
    }
}

/// Parsing the encoding of an entry gives back its bytes, whatever follows.
pub proof fn lemma_sub_entry_roundtrip(e: SubEntry, rest: Seq<u8>)
    requires
        e.inv(),
        valid_sub_opts(e.spec_sub_opts().spec_byte()),
    ensures
        sub_entry_result(e.spec_bytes() + rest) == Ok::<nat, MqttError>(e.spec_bytes().len()),
{
    let b = e.spec_bytes() + rest;
    assert(b =~= e.topic_filter.encoded() + (seq![e.sub_opts.spec_byte()] + rest));
    lemma_string_roundtrip(e.topic_filter, seq![e.sub_opts.spec_byte()] + rest);
}

/// An entry is determined by its encoding: two entries with the same bytes
/// have the same topic filter and the same options, so parsing the encoding
/// of an entry gives back an equal entry.
pub proof fn lemma_sub_entry_bytes_determine(a: SubEntry, b: SubEntry)
    requires
        a.inv(),
        b.inv(),
        a.spec_bytes() == b.spec_bytes(),
    ensures
        a.spec_topic_filter() == b.spec_topic_filter(),
        a.spec_sub_opts() == b.spec_sub_opts(),
{
    a.topic_filter.lemma_encoded();
    b.topic_filter.lemma_encoded();
    let ea = a.topic_filter.encoded();
    let eb = b.topic_filter.encoded();
    assert(a.spec_bytes()[0] == ea[0] && a.spec_bytes()[1] == ea[1]);
    assert(b.spec_bytes()[0] == eb[0] && b.spec_bytes()[1] == eb[1]);
    assert(ea.len() == eb.len());
    assert(ea =~= a.spec_bytes().subrange(0, ea.len() as int));
    assert(eb =~= b.spec_bytes().subrange(0, eb.len() as int));
    assert(a.topic_filter.bytes() =~= ea.subrange(2, ea.len() as int));
    assert(b.topic_filter.bytes() =~= eb.subrange(2, eb.len() as int));
    assert(a.sub_opts.spec_byte() == a.spec_bytes()[ea.len() as int]);
    assert(b.sub_opts.spec_byte() == b.spec_bytes()[eb.len() as int]);
    SubOpts::lemma_byte_determines(a.sub_opts, b.sub_opts);
}

} // verus!
