use vstd::prelude::*;
use vstd::slice::slice_subrange;
use vstd::utf8::valid_utf8;
use crate::packet::error::MqttError;
use crate::packet::mqtt_binary::{has_length_prefixed, length_prefixed_data, length_prefixed_size, lemma_length_prefixed_of_prefix};
use crate::packet::mqtt_string::MqttString;
use crate::packet::packet_id::{lemma_pid_roundtrip, pid_bytes, IsPacketId};
use crate::packet::qos::Qos;

verus! {

/// QoS bits of a PUBLISH fixed header.
pub open spec fn header_qos(h: u8) -> u8 {
    (h >> 1u8) & 3u8
}

/// DUP bit of a PUBLISH fixed header.
pub open spec fn header_dup(h: u8) -> bool {
    h & 8u8 != 0
}

/// RETAIN bit of a PUBLISH fixed header.
pub open spec fn header_retain(h: u8) -> bool {
    h & 1u8 != 0
}

/// Whether `h` is the first byte of a PUBLISH packet with a valid QoS.
pub open spec fn valid_publish_header(h: u8) -> bool {
    &&& h & 0xf0u8 == 0x30u8
    &&& header_qos(h) != 3
}

/// The first byte of a PUBLISH is `0x30 | dup << 3 | qos << 1 | retain`.
pub proof fn lemma_publish_header_layout(h: u8)
    requires
        valid_publish_header(h),
    ensures
        h == 0x30u8 | ((if header_dup(h) { 1u8 } else { 0u8 }) << 3u8) | (header_qos(h) << 1u8) | (if header_retain(h) {
            1u8
        } else {
            0u8
        }),
        header_qos(h) <= 2,
{
    assert(h & 0xf0u8 == 0x30u8 && ((h >> 1u8) & 3u8) != 3 ==> h == 0x30u8 | ((if h & 8u8 != 0 { 1u8 } else { 0u8 }) << 3u8) | (((h >> 1u8) & 3u8) << 1u8) | (if h & 1u8 != 0 {
        1u8
    } else {
        0u8
    }) && ((h >> 1u8) & 3u8) <= 2) by (bit_vector);
}

/// The encoding of an optional packet identifier (nothing when absent).
pub open spec fn opt_pid_bytes<P: IsPacketId>(p: Option<P>) -> Seq<u8> {
    match p {
        Some(id) => pid_bytes(id.spec_value(), P::spec_width()),
        None => Seq::<u8>::empty(),
    }
}

/// Whether a topic name holds one of the wildcard characters, which PUBLISH
/// does not allow.
pub open spec fn has_wildcard(s: Seq<char>) -> bool {
    s.contains('#') || s.contains('+')
}

/// Outcome of parsing the topic name and packet identifier that start the
/// variable header of a PUBLISH packet whose fixed header carries `flags`:
/// the number of bytes they take, or the error.
pub open spec fn topic_pid_result<P: IsPacketId>(flags: u8, d: Seq<u8>) -> Result<nat, MqttError> {
    if header_qos(flags) == 3 {
        Err(MqttError::MalformedPacket)
    } else if !(has_length_prefixed(d) && valid_utf8(length_prefixed_data(d))) {
        Err(MqttError::MalformedPacket)
    } else if header_qos(flags) != 0 && d.len() < length_prefixed_size(d) + P::spec_width() {
        Err(MqttError::MalformedPacket)
    } else if header_qos(flags) != 0 {
        Ok(length_prefixed_size(d) + P::spec_width())
    } else {
        Ok(length_prefixed_size(d))
    }
}

/// The QoS level of a PUBLISH fixed header.
pub fn qos_of_header(h: u8) -> (r: Qos)
    requires
        header_qos(h) != 3,
    ensures
        r == Qos::spec_from_u8(header_qos(h)),
        r.spec_to_u8() == header_qos(h),
{
    let v = (h >> 1u8) & 3u8;
    assert(((h >> 1u8) & 3u8) <= 3u8) by (bit_vector);
    if v == 0 {
        Qos::AtMostOnce
    } else if v == 1 {
        Qos::AtLeastOnce
    } else {
        Qos::ExactlyOnce
    }
}

/// `h` with its DUP bit set to `dup`, every other bit unchanged.
pub fn header_with_dup(h: u8, dup: bool) -> (r: u8)
    ensures
        r == (if dup { h | 8u8 } else { h & 0xf7u8 }),
        header_dup(r) == dup,
        header_qos(r) == header_qos(h),
        header_retain(r) == header_retain(h),
        r & 0xf0u8 == h & 0xf0u8,
{
    if dup {
        assert(header_dup(h | 8u8) && header_qos(h | 8u8) == header_qos(h) && header_retain(h | 8u8)
            == header_retain(h) && (h | 8u8) & 0xf0u8 == h & 0xf0u8) by (bit_vector);
        h | 8u8
    } else {
        assert(!header_dup(h & 0xf7u8) && header_qos(h & 0xf7u8) == header_qos(h) && header_retain(
            h & 0xf7u8,
        ) == header_retain(h) && (h & 0xf7u8) & 0xf0u8 == h & 0xf0u8) by (bit_vector);
        h & 0xf7u8
    }
}

/// `h` with its RETAIN bit set to `retain`, every other bit unchanged.
pub fn header_with_retain(h: u8, retain: bool) -> (r: u8)
    ensures
        r == (if retain { h | 1u8 } else { h & 0xfeu8 }),
        header_retain(r) == retain,
        header_qos(r) == header_qos(h),
        header_dup(r) == header_dup(h),
        r & 0xf0u8 == h & 0xf0u8,
{
    if retain {
        assert(header_retain(h | 1u8) && header_qos(h | 1u8) == header_qos(h) && header_dup(h | 1u8)
            == header_dup(h) && (h | 1u8) & 0xf0u8 == h & 0xf0u8) by (bit_vector);
        h | 1u8
    } else {
        assert(!header_retain(h & 0xfeu8) && header_qos(h & 0xfeu8) == header_qos(h) && header_dup(
            h & 0xfeu8,
        ) == header_dup(h) && (h & 0xfeu8) & 0xf0u8 == h & 0xf0u8) by (bit_vector);
        h & 0xfeu8
    }
}

/// `h` with its QoS bits set to `q`, every other bit unchanged.
pub fn header_with_qos(h: u8, q: Qos) -> (r: u8)
    ensures
        r == ((h & 0xf9u8) | (q.spec_to_u8() << 1u8)),
        header_qos(r) == q.spec_to_u8(),
        header_dup(r) == header_dup(h),
        header_retain(r) == header_retain(h),
        r & 0xf0u8 == h & 0xf0u8,
{
    let v = q.to_u8();
    assert(v <= 2 ==> header_qos((h & 0xf9u8) | (v << 1u8)) == v && header_dup((h & 0xf9u8) | (v << 1u8))
        == header_dup(h) && header_retain((h & 0xf9u8) | (v << 1u8)) == header_retain(h) && ((h
        & 0xf9u8) | (v << 1u8)) & 0xf0u8 == h & 0xf0u8) by (bit_vector);
    (h & 0xf9u8) | (v << 1u8)
}

/// First byte of a PUBLISH packet received with fixed-header flags `flags`.
pub fn publish_header_from_flags(flags: u8) -> (r: u8)
    ensures
        r == (0x30u8 | (flags & 0x0fu8)),
        r & 0xf0u8 == 0x30u8,
        header_qos(r) == header_qos(flags),
        header_dup(r) == header_dup(flags),
        header_retain(r) == header_retain(flags),
{
    assert((0x30u8 | (flags & 0x0fu8)) & 0xf0u8 == 0x30u8 && header_qos(0x30u8 | (flags & 0x0fu8))
        == header_qos(flags) && header_dup(0x30u8 | (flags & 0x0fu8)) == header_dup(flags)
        && header_retain(0x30u8 | (flags & 0x0fu8)) == header_retain(flags)) by (bit_vector);
    0x30u8 | (flags & 0x0fu8)
}

/// Whether the topic name holds a wildcard character.
pub fn topic_has_wildcard(t: &MqttString) -> (r: bool)
    requires
        t.wf(),
    ensures
        r == has_wildcard(t@),
{
    t.contains('#') || t.contains('+')
}

/// Parses the topic name and, when the QoS of `flags` is above 0, the packet
/// identifier that start the variable header of a PUBLISH packet.
pub fn parse_topic_and_pid<P: IsPacketId>(flags: u8, data: &[u8]) -> (r: Result<
    (MqttString, Option<P>, usize),
    MqttError,
>)
    ensures
        r is Ok <==> topic_pid_result::<P>(flags, data@) is Ok,
        r matches Ok((t, p, n)) ==> {
            &&& topic_pid_result::<P>(flags, data@) == Ok::<nat, MqttError>(n as nat)
            &&& t.wf()
            &&& (p is Some <==> header_qos(flags) != 0)
            &&& t.encoded() + opt_pid_bytes(p) == data@.subrange(0, n as int)
            &&& n <= data@.len()
        },
        r matches Err(e) ==> topic_pid_result::<P>(flags, data@) == Err::<nat, MqttError>(e),
{
    let qos_value = (flags >> 1u8) & 3u8;
    if qos_value == 3 {
        return Err(MqttError::MalformedPacket);
    }
    let (topic, consumed) = MqttString::decode(data)?;
    proof {
        lemma_length_prefixed_of_prefix(data@);
        topic.lemma_encoded();
        assert(topic.encoded() == data@.subrange(0, consumed as int));
    }
    if qos_value == 0 {
        assert(topic.encoded() + opt_pid_bytes::<P>(None) =~= data@.subrange(0, consumed as int));
        return Ok((topic, None, consumed));
    }
    let w = P::width();
    if data.len() - consumed < w {
        return Err(MqttError::MalformedPacket);
    }
    let id = P::from_buffer(slice_subrange(data, consumed, consumed + w));
    proof {
        assert(data@.subrange(0, consumed as int) + data@.subrange(consumed as int, consumed + w)
            =~= data@.subrange(0, consumed + w));
    }
    Ok((topic, Some(id), consumed + w))
}

} // verus!
